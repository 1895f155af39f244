use crate::cleanup::{group_targets, security_group_targets, volume_ids, volume_targets};
use crate::discovery::{
    all_records, borrowed, candidate_ids, candidates, discover, ids_of, records,
};
use crate::ident::{clone_ids, take_front, to_queue};
use crate::model::{
    InstanceRecord, InstanceRecordView, InstanceRef, InstanceRefView, TransitionKind,
};
use crate::outcome::{
    CleanupFailure, CleanupFailureView, CleanupOp, RunError, RunErrorView, RunOutcome,
    RunOutcomeView,
};
use crate::polling::{confirmed, instance_ids, outstanding, split_by_state};
use crate::protocol::{
    id_filter, id_filter_view, tag_filter, tag_filter_view, volume_filter, volume_filter_view,
    Action, ActionView, Event, EventView,
};
use std::collections::VecDeque;
use vstd::prelude::*;

verus! {

/// What a deployment configures: the marker tag, the pause between two polls,
/// and the number of polls after which the wait is given up.
#[derive(Clone, Debug, PartialEq, Eq)]
pub struct Config {
    pub tag_name: String,
    pub tag_value: String,
    pub poll_interval_secs: u64,
    pub max_polls: u32,
}

pub struct ConfigView {
    pub tag_name: Seq<char>,
    pub tag_value: Seq<char>,
    pub poll_interval_secs: u64,
    pub max_polls: u32,
}

impl DeepView for Config {
    type V = ConfigView;

    open spec fn deep_view(&self) -> ConfigView {
        ConfigView {
            tag_name: self.tag_name@,
            tag_value: self.tag_value@,
            poll_interval_secs: self.poll_interval_secs,
            max_polls: self.max_polls,
        }
    }
}

/// Where a run stands: which answer the controller is waiting for.
#[derive(Clone, Debug, PartialEq, Eq)]
pub enum Phase {
    /// Waiting for the answer to the tag query.
    Discovering,
    /// Waiting for the provider to accept the transition request.
    Requesting,
    /// Waiting for the answer to a poll.
    Polling,
    /// Waiting for the pause between two polls to pass.
    Sleeping,
    /// Waiting for the inventory answer that tells the groups of the given
    /// instances.
    ResolvingGroups,
    /// Waiting for the list of volumes attached to this instance.
    QueryingVolumes(String),
    /// Waiting for the deletion of this volume.
    DeletingVolume(String),
    /// Waiting for the deletion of this security group.
    DeletingGroup(String),
    /// The run has ended with an outcome.
    Finished,
    /// The run has ended with an error.
    Aborted,
}

pub enum PhaseView {
    Discovering,
    Requesting,
    Polling,
    Sleeping,
    ResolvingGroups,
    QueryingVolumes(Seq<char>),
    DeletingVolume(Seq<char>),
    DeletingGroup(Seq<char>),
    Finished,
    Aborted,
}

impl DeepView for Phase {
    type V = PhaseView;

    open spec fn deep_view(&self) -> PhaseView {
        match self {
            Phase::Discovering => PhaseView::Discovering,
            Phase::Requesting => PhaseView::Requesting,
            Phase::Polling => PhaseView::Polling,
            Phase::Sleeping => PhaseView::Sleeping,
            Phase::ResolvingGroups => PhaseView::ResolvingGroups,
            Phase::QueryingVolumes(id) => PhaseView::QueryingVolumes(id@),
            Phase::DeletingVolume(id) => PhaseView::DeletingVolume(id@),
            Phase::DeletingGroup(id) => PhaseView::DeletingGroup(id@),
            Phase::Finished => PhaseView::Finished,
            Phase::Aborted => PhaseView::Aborted,
        }
    }
}

/// What the transition driver keeps: the transition asked for, the pause
/// between polls, the polls that may still be made, and the candidate set.
#[derive(Clone, Debug, PartialEq, Eq)]
pub struct Wait {
    pub kind: TransitionKind,
    pub poll_interval_secs: u64,
    pub polls_left: u32,
    pub candidates: Vec<InstanceRef>,
}

pub struct WaitView {
    pub kind: TransitionKind,
    pub poll_interval_secs: u64,
    pub polls_left: u32,
    pub candidates: Seq<InstanceRefView>,
}

impl DeepView for Wait {
    type V = WaitView;

    open spec fn deep_view(&self) -> WaitView {
        WaitView {
            kind: self.kind,
            poll_interval_secs: self.poll_interval_secs,
            polls_left: self.polls_left,
            candidates: self.candidates.deep_view(),
        }
    }
}

/// What cascade cleanup keeps: the two halves of the outcome, the work that
/// is still to do, each list in the order in which it will be done, and the
/// failures noted so far.
#[derive(Clone, Debug, PartialEq, Eq)]
pub struct Ledger {
    pub processed: Vec<String>,
    pub outstanding: Vec<String>,
    pub pending_instances: VecDeque<String>,
    pub pending_volumes: VecDeque<String>,
    pub pending_groups: VecDeque<String>,
    pub failures: Vec<CleanupFailure>,
}

pub struct LedgerView {
    pub processed: Seq<Seq<char>>,
    pub outstanding: Seq<Seq<char>>,
    pub pending_instances: Seq<Seq<char>>,
    pub pending_volumes: Seq<Seq<char>>,
    pub pending_groups: Seq<Seq<char>>,
    pub failures: Seq<CleanupFailureView>,
}

impl DeepView for Ledger {
    type V = LedgerView;

    open spec fn deep_view(&self) -> LedgerView {
        LedgerView {
            processed: self.processed.deep_view(),
            outstanding: self.outstanding.deep_view(),
            pending_instances: self.pending_instances.deep_view(),
            pending_volumes: self.pending_volumes.deep_view(),
            pending_groups: self.pending_groups.deep_view(),
            failures: self.failures.deep_view(),
        }
    }
}

/// The state of one run of the lifecycle controller. A driver performs the
/// action it was handed, reports what came of it to `step`, and goes on with
/// the action that `step` returns, until that is `Finish` or `Abort`.
#[derive(Clone, Debug, PartialEq, Eq)]
pub struct Controller {
    phase: Phase,
    wait: Wait,
    ledger: Ledger,
}

pub struct ControllerView {
    pub phase: PhaseView,
    pub wait: WaitView,
    pub ledger: LedgerView,
}

impl View for Controller {
    type V = ControllerView;

    closed spec fn view(&self) -> ControllerView {
        ControllerView {
            phase: self.phase.deep_view(),
            wait: self.wait.deep_view(),
            ledger: self.ledger.deep_view(),
        }
    }
}

/// A ledger with nothing done and nothing to do.
pub open spec fn empty_ledger() -> LedgerView {
    LedgerView {
        processed: Seq::empty(),
        outstanding: Seq::empty(),
        pending_instances: Seq::empty(),
        pending_volumes: Seq::empty(),
        pending_groups: Seq::empty(),
        failures: Seq::empty(),
    }
}

/// The outcome that a ledger amounts to.
pub open spec fn outcome_of(ledger: LedgerView) -> RunOutcomeView {
    RunOutcomeView {
        processed: ledger.processed,
        outstanding: ledger.outstanding,
        failures: ledger.failures,
    }
}

/// The cleanup operation that a phase waits for, and the resource it is
/// aimed at.
pub open spec fn operation_of(phase: PhaseView) -> Option<(CleanupOp, Seq<char>)> {
    match phase {
        PhaseView::QueryingVolumes(instance) => Some((CleanupOp::ListVolumes, instance)),
        PhaseView::DeletingVolume(volume) => Some((CleanupOp::DeleteVolume, volume)),
        PhaseView::DeletingGroup(group) => Some((CleanupOp::DeleteSecurityGroup, group)),
        _ => None,
    }
}

/// The ledger with one more failure noted.
pub open spec fn noted(
    ledger: LedgerView,
    op: CleanupOp,
    target: Seq<char>,
    reason: Seq<char>,
) -> LedgerView {
    LedgerView { failures: ledger.failures.push(CleanupFailureView { op, target, reason }), ..ledger }
}

/// The run ends with an error.
pub open spec fn abort(wait: WaitView, ledger: LedgerView, error: RunErrorView) -> (
    ControllerView,
    ActionView,
) {
    (ControllerView { phase: PhaseView::Aborted, wait, ledger }, ActionView::Abort(error))
}

/// The next piece of cleanup work, when none is under way: the volumes of
/// the instance at hand come first, then the next instance, then the security
/// groups; when nothing is left, the run ends with its outcome.
pub open spec fn advance(wait: WaitView, ledger: LedgerView) -> (ControllerView, ActionView) {
    if ledger.pending_volumes.len() > 0 {
        let id = ledger.pending_volumes[0];
        (
            ControllerView {
                phase: PhaseView::DeletingVolume(id),
                wait,
                ledger: LedgerView {
                    pending_volumes: ledger.pending_volumes.drop_first(),
                    ..ledger
                },
            },
            ActionView::DeleteVolume(id),
        )
    } else if ledger.pending_instances.len() > 0 {
        let id = ledger.pending_instances[0];
        (
            ControllerView {
                phase: PhaseView::QueryingVolumes(id),
                wait,
                ledger: LedgerView {
                    pending_instances: ledger.pending_instances.drop_first(),
                    ..ledger
                },
            },
            ActionView::QueryVolumes(volume_filter_view(id)),
        )
    } else if ledger.pending_groups.len() > 0 {
        let id = ledger.pending_groups[0];
        (
            ControllerView {
                phase: PhaseView::DeletingGroup(id),
                wait,
                ledger: LedgerView { pending_groups: ledger.pending_groups.drop_first(), ..ledger },
            },
            ActionView::DeleteSecurityGroup(id),
        )
    } else {
        (
            ControllerView { phase: PhaseView::Finished, wait, ledger: empty_ledger() },
            ActionView::Finish(outcome_of(ledger)),
        )
    }
}

/// The ledger with which cleanup begins when the wait ends, with `recs` the
/// records of the last poll answer: the candidates that the answer confirms
/// in the terminal state are processed, their volumes and their security
/// groups are to be cleaned up, and the other candidates are outstanding.
pub open spec fn settled_ledger(wait: WaitView, recs: Seq<InstanceRecordView>) -> LedgerView {
    let done = confirmed(wait.candidates, recs, wait.kind.terminal_state());
    let open = outstanding(wait.candidates, recs, wait.kind.terminal_state());
    LedgerView {
        processed: ids_of(done),
        outstanding: ids_of(open),
        pending_instances: ids_of(done),
        pending_volumes: Seq::empty(),
        pending_groups: group_targets(done),
        failures: Seq::empty(),
    }
}

/// The wait is over, with `recs` the records of the last poll answer:
/// cleanup begins for the candidates that the answer confirms.
pub open spec fn settle(wait: WaitView, recs: Seq<InstanceRecordView>) -> (
    ControllerView,
    ActionView,
) {
    advance(wait, settled_ledger(wait, recs))
}

/// One more poll is made: the inventory is asked for exactly the candidates,
/// by identifier.
pub open spec fn poll(wait: WaitView, ledger: LedgerView) -> (ControllerView, ActionView) {
    (
        ControllerView { phase: PhaseView::Polling, wait, ledger },
        ActionView::QueryInstances(id_filter_view(ids_of(wait.candidates))),
    )
}

/// The controller's transition function: the state after `event` and the
/// action to perform next.
pub open spec fn step_spec(state: ControllerView, event: EventView) -> (ControllerView, ActionView) {
    let wait = state.wait;
    let ledger = state.ledger;
    match state.phase {
        PhaseView::Discovering => match event {
            EventView::Instances(answer) => {
                let found = candidates(records(answer));
                if found.len() == 0 {
                    advance(wait, empty_ledger())
                } else {
                    (
                        ControllerView {
                            phase: PhaseView::Requesting,
                            wait: WaitView { candidates: found, ..wait },
                            ledger,
                        },
                        ActionView::RequestTransition {
                            kind: wait.kind,
                            instance_ids: ids_of(found),
                        },
                    )
                }
            },
            EventView::Failed(reason) => abort(wait, ledger, RunErrorView::Discovery(reason)),
            _ => abort(wait, ledger, RunErrorView::Protocol),
        },
        PhaseView::Requesting => match event {
            EventView::Done => if wait.polls_left == 0 {
                settle(wait, Seq::empty())
            } else {
                poll(WaitView { polls_left: (wait.polls_left - 1) as u32, ..wait }, ledger)
            },
            EventView::Failed(reason) => abort(wait, ledger, RunErrorView::Transition(reason)),
            _ => abort(wait, ledger, RunErrorView::Protocol),
        },
        PhaseView::Polling => match event {
            EventView::Instances(answer) => {
                let recs = records(answer);
                let open = outstanding(wait.candidates, recs, wait.kind.terminal_state());
                if open.len() == 0 || wait.polls_left == 0 {
                    settle(wait, recs)
                } else {
                    (
                        ControllerView {
                            phase: PhaseView::Sleeping,
                            wait: WaitView { polls_left: (wait.polls_left - 1) as u32, ..wait },
                            ledger,
                        },
                        ActionView::Sleep { seconds: wait.poll_interval_secs },
                    )
                }
            },
            EventView::Failed(reason) => abort(wait, ledger, RunErrorView::Polling(reason)),
            _ => abort(wait, ledger, RunErrorView::Protocol),
        },
        PhaseView::Sleeping => match event {
            EventView::Done => poll(wait, ledger),
            _ => abort(wait, ledger, RunErrorView::Protocol),
        },
        PhaseView::ResolvingGroups => match event {
            EventView::Instances(answer) => advance(
                wait,
                LedgerView {
                    pending_groups: group_targets(candidates(records(answer))),
                    ..ledger
                },
            ),
            EventView::Failed(reason) => abort(wait, ledger, RunErrorView::Discovery(reason)),
            _ => abort(wait, ledger, RunErrorView::Protocol),
        },
        PhaseView::QueryingVolumes(instance) => match event {
            EventView::Volumes(answer) => advance(
                wait,
                LedgerView { pending_volumes: volume_targets(answer), ..ledger },
            ),
            EventView::Failed(reason) => advance(
                wait,
                noted(ledger, CleanupOp::ListVolumes, instance, reason),
            ),
            _ => abort(wait, ledger, RunErrorView::Protocol),
        },
        PhaseView::DeletingVolume(volume) => match event {
            EventView::Done => advance(wait, ledger),
            EventView::Failed(reason) => advance(
                wait,
                noted(ledger, CleanupOp::DeleteVolume, volume, reason),
            ),
            _ => abort(wait, ledger, RunErrorView::Protocol),
        },
        PhaseView::DeletingGroup(group) => match event {
            EventView::Done => advance(wait, ledger),
            EventView::Failed(reason) => advance(
                wait,
                noted(ledger, CleanupOp::DeleteSecurityGroup, group, reason),
            ),
            _ => abort(wait, ledger, RunErrorView::Protocol),
        },
        PhaseView::Finished => (state, ActionView::Abort(RunErrorView::Protocol)),
        PhaseView::Aborted => (state, ActionView::Abort(RunErrorView::Protocol)),
    }
}

/// The state and first action of a run of the whole pipeline: the inventory
/// is asked for the instances that bear the marker tag.
pub open spec fn start_spec(kind: TransitionKind, config: ConfigView) -> (
    ControllerView,
    ActionView,
) {
    (
        ControllerView {
            phase: PhaseView::Discovering,
            wait: WaitView {
                kind,
                poll_interval_secs: config.poll_interval_secs,
                polls_left: config.max_polls,
                candidates: Seq::empty(),
            },
            ledger: empty_ledger(),
        },
        ActionView::QueryInstances(tag_filter_view(config.tag_name, config.tag_value)),
    )
}

/// The wait state of a run that only cleans up.
pub open spec fn no_wait() -> WaitView {
    WaitView {
        kind: TransitionKind::Terminate,
        poll_interval_secs: 0,
        polls_left: 0,
        candidates: Seq::empty(),
    }
}

/// The state and first action of a run that deletes the volumes attached to
/// the given instances.
pub open spec fn delete_attached_volumes_spec(instance_ids: Seq<Seq<char>>) -> (
    ControllerView,
    ActionView,
) {
    advance(
        no_wait(),
        LedgerView { processed: instance_ids, pending_instances: instance_ids, ..empty_ledger() },
    )
}

/// The state and first action of a run that deletes the security groups of
/// the given instances: with no instance given the run ends at once, else
/// the inventory is asked for the instances, by identifier.
pub open spec fn delete_security_groups_spec(instance_ids: Seq<Seq<char>>) -> (
    ControllerView,
    ActionView,
) {
    if instance_ids.len() == 0 {
        advance(no_wait(), empty_ledger())
    } else {
        (
            ControllerView {
                phase: PhaseView::ResolvingGroups,
                wait: no_wait(),
                ledger: LedgerView { processed: instance_ids, ..empty_ledger() },
            },
            ActionView::QueryInstances(id_filter_view(instance_ids)),
        )
    }
}

fn new_ledger() -> (ledger: Ledger)
    ensures
        ledger.deep_view() == empty_ledger(),
{
    let ledger = Ledger {
        processed: Vec::new(),
        outstanding: Vec::new(),
        pending_instances: VecDeque::new(),
        pending_volumes: VecDeque::new(),
        pending_groups: VecDeque::new(),
        failures: Vec::new(),
    };
    assert(ledger.deep_view().processed =~= Seq::empty());
    assert(ledger.deep_view().outstanding =~= Seq::empty());
    assert(ledger.deep_view().pending_instances =~= Seq::empty());
    assert(ledger.deep_view().pending_volumes =~= Seq::empty());
    assert(ledger.deep_view().pending_groups =~= Seq::empty());
    assert(ledger.deep_view().failures =~= Seq::empty());
    ledger
}

fn idle_wait() -> (wait: Wait)
    ensures
        wait.deep_view() == no_wait(),
{
    let wait = Wait {
        kind: TransitionKind::Terminate,
        poll_interval_secs: 0,
        polls_left: 0,
        candidates: Vec::new(),
    };
    assert(wait.deep_view().candidates =~= Seq::empty());
    wait
}

fn note(ledger: &mut Ledger, op: CleanupOp, target: String, reason: String)
    ensures
        final(ledger).deep_view() == noted(old(ledger).deep_view(), op, target@, reason@),
{
    let ghost before = ledger.failures.deep_view();
    let failure = CleanupFailure { op, target, reason };
    ledger.failures.push(failure);
    assert(ledger.failures.deep_view() =~= before.push(failure.deep_view()));
}

impl Controller {
    fn do_abort(wait: Wait, ledger: Ledger, error: RunError) -> (next: (Controller, Action))
        ensures
            (next.0@, next.1.deep_view()) == abort(
                wait.deep_view(),
                ledger.deep_view(),
                error.deep_view(),
            ),
    {
        (Controller { phase: Phase::Aborted, wait, ledger }, Action::Abort(error))
    }

    fn do_advance(wait: Wait, ledger: Ledger) -> (next: (Controller, Action))
        ensures
            (next.0@, next.1.deep_view()) == advance(wait.deep_view(), ledger.deep_view()),
    {
        let mut ledger = ledger;
        match take_front(&mut ledger.pending_volumes) {
            Some(id) => {
                let action = Action::DeleteVolume(id.clone());
                return (Controller { phase: Phase::DeletingVolume(id), wait, ledger }, action);
            },
            None => {},
        }
        match take_front(&mut ledger.pending_instances) {
            Some(id) => {
                let action = Action::QueryVolumes(volume_filter(id.clone()));
                return (Controller { phase: Phase::QueryingVolumes(id), wait, ledger }, action);
            },
            None => {},
        }
        match take_front(&mut ledger.pending_groups) {
            Some(id) => {
                let action = Action::DeleteSecurityGroup(id.clone());
                return (Controller { phase: Phase::DeletingGroup(id), wait, ledger }, action);
            },
            None => {},
        }
        let outcome = RunOutcome {
            processed: ledger.processed,
            outstanding: ledger.outstanding,
            failures: ledger.failures,
        };
        (Controller { phase: Phase::Finished, wait, ledger: new_ledger() }, Action::Finish(outcome))
    }

    fn do_settle(wait: Wait, recs: &Vec<&InstanceRecord>) -> (next: (Controller, Action))
        ensures
            (next.0@, next.1.deep_view()) == settle(wait.deep_view(), recs.deep_view()),
    {
        let (done, open) = split_by_state(&wait.candidates, recs, wait.kind.terminal());
        let processed = instance_ids(&done);
        let ledger = Ledger {
            processed: clone_ids(processed.as_slice()),
            outstanding: instance_ids(&open),
            pending_instances: to_queue(processed),
            pending_volumes: VecDeque::new(),
            pending_groups: to_queue(security_group_targets(&done)),
            failures: Vec::new(),
        };
        assert(ledger.deep_view().pending_volumes =~= Seq::empty());
        assert(ledger.deep_view().failures =~= Seq::empty());
        Self::do_advance(wait, ledger)
    }

    fn do_poll(wait: Wait, ledger: Ledger) -> (next: (Controller, Action))
        ensures
            (next.0@, next.1.deep_view()) == poll(wait.deep_view(), ledger.deep_view()),
    {
        let action = Action::QueryInstances(id_filter(candidate_ids(&wait.candidates)));
        (Controller { phase: Phase::Polling, wait, ledger }, action)
    }

    /// Starts a run of the whole pipeline for the given transition.
    pub fn start(kind: TransitionKind, config: &Config) -> (next: (Controller, Action))
        ensures
            (next.0@, next.1.deep_view()) == start_spec(kind, config.deep_view()),
    {
        let wait = Wait {
            kind,
            poll_interval_secs: config.poll_interval_secs,
            polls_left: config.max_polls,
            candidates: Vec::new(),
        };
        assert(wait.deep_view().candidates =~= Seq::empty());
        let action = Action::QueryInstances(tag_filter(&config.tag_name, &config.tag_value));
        (Controller { phase: Phase::Discovering, wait, ledger: new_ledger() }, action)
    }

    /// Starts a run that only deletes the volumes attached to the given
    /// instances.
    pub fn for_volumes(instance_ids: &[String]) -> (next: (Controller, Action))
        ensures
            (next.0@, next.1.deep_view()) == delete_attached_volumes_spec(
                instance_ids.deep_view(),
            ),
    {
        let mut ledger = new_ledger();
        ledger.processed = clone_ids(instance_ids);
        ledger.pending_instances = to_queue(clone_ids(instance_ids));
        Self::do_advance(idle_wait(), ledger)
    }

    /// Starts a run that only deletes the security groups of the given
    /// instances.
    pub fn for_groups(instance_ids: &[String]) -> (next: (Controller, Action))
        ensures
            (next.0@, next.1.deep_view()) == delete_security_groups_spec(
                instance_ids.deep_view(),
            ),
    {
        if instance_ids.len() == 0 {
            Self::do_advance(idle_wait(), new_ledger())
        } else {
            let mut ledger = new_ledger();
            ledger.processed = clone_ids(instance_ids);
            let action = Action::QueryInstances(id_filter(clone_ids(instance_ids)));
            (Controller { phase: Phase::ResolvingGroups, wait: idle_wait(), ledger }, action)
        }
    }

    /// The phase the run is in.
    pub fn phase(&self) -> (phase: &Phase)
        ensures
            phase.deep_view() == self@.phase,
    {
        &self.phase
    }

    /// Takes in what came of the last action and says what to do next.
    pub fn step(self, event: Event) -> (next: (Controller, Action))
        ensures
            (next.0@, next.1.deep_view()) == step_spec(self@, event.deep_view()),
    {
        let Controller { phase, wait, ledger } = self;
        match phase {
            Phase::Discovering => match event {
                Event::Instances(answer) => {
                    let found = discover(&answer);
                    if found.len() == 0 {
                        Self::do_advance(wait, new_ledger())
                    } else {
                        let action = Action::RequestTransition {
                            kind: wait.kind,
                            instance_ids: candidate_ids(&found),
                        };
                        let wait = Wait {
                            kind: wait.kind,
                            poll_interval_secs: wait.poll_interval_secs,
                            polls_left: wait.polls_left,
                            candidates: found,
                        };
                        (Controller { phase: Phase::Requesting, wait, ledger }, action)
                    }
                },
                Event::Failed(reason) => Self::do_abort(wait, ledger, RunError::Discovery(reason)),
                _ => Self::do_abort(wait, ledger, RunError::Protocol),
            },
            Phase::Requesting => match event {
                Event::Done => {
                    if wait.polls_left == 0 {
                        let recs: Vec<&InstanceRecord> = Vec::new();
                        assert(recs.deep_view() =~= Seq::empty());
                        Self::do_settle(wait, &recs)
                    } else {
                        let mut wait = wait;
                        wait.polls_left = wait.polls_left - 1;
                        Self::do_poll(wait, ledger)
                    }
                },
                Event::Failed(reason) => Self::do_abort(wait, ledger, RunError::Transition(reason)),
                _ => Self::do_abort(wait, ledger, RunError::Protocol),
            },
            Phase::Polling => match event {
                Event::Instances(answer) => {
                    let recs = all_records(&answer);
                    let (_, open) = split_by_state(&wait.candidates, &recs, wait.kind.terminal());
                    if open.len() == 0 || wait.polls_left == 0 {
                        Self::do_settle(wait, &recs)
                    } else {
                        let action = Action::Sleep { seconds: wait.poll_interval_secs };
                        let mut wait = wait;
                        wait.polls_left = wait.polls_left - 1;
                        (Controller { phase: Phase::Sleeping, wait, ledger }, action)
                    }
                },
                Event::Failed(reason) => Self::do_abort(wait, ledger, RunError::Polling(reason)),
                _ => Self::do_abort(wait, ledger, RunError::Protocol),
            },
            Phase::Sleeping => match event {
                Event::Done => Self::do_poll(wait, ledger),
                _ => Self::do_abort(wait, ledger, RunError::Protocol),
            },
            Phase::ResolvingGroups => match event {
                Event::Instances(answer) => {
                    let found = discover(&answer);
                    let mut ledger = ledger;
                    ledger.pending_groups = to_queue(security_group_targets(&borrowed(&found)));
                    Self::do_advance(wait, ledger)
                },
                Event::Failed(reason) => Self::do_abort(wait, ledger, RunError::Discovery(reason)),
                _ => Self::do_abort(wait, ledger, RunError::Protocol),
            },
            Phase::QueryingVolumes(instance) => match event {
                Event::Volumes(answer) => {
                    let mut ledger = ledger;
                    ledger.pending_volumes = to_queue(volume_ids(&answer));
                    Self::do_advance(wait, ledger)
                },
                Event::Failed(reason) => {
                    let mut ledger = ledger;
                    note(&mut ledger, CleanupOp::ListVolumes, instance, reason);
                    Self::do_advance(wait, ledger)
                },
                _ => Self::do_abort(wait, ledger, RunError::Protocol),
            },
            Phase::DeletingVolume(volume) => match event {
                Event::Done => Self::do_advance(wait, ledger),
                Event::Failed(reason) => {
                    let mut ledger = ledger;
                    note(&mut ledger, CleanupOp::DeleteVolume, volume, reason);
                    Self::do_advance(wait, ledger)
                },
                _ => Self::do_abort(wait, ledger, RunError::Protocol),
            },
            Phase::DeletingGroup(group) => match event {
                Event::Done => Self::do_advance(wait, ledger),
                Event::Failed(reason) => {
                    let mut ledger = ledger;
                    note(&mut ledger, CleanupOp::DeleteSecurityGroup, group, reason);
                    Self::do_advance(wait, ledger)
                },
                _ => Self::do_abort(wait, ledger, RunError::Protocol),
            },
            Phase::Finished => (
                Controller { phase: Phase::Finished, wait, ledger },
                Action::Abort(RunError::Protocol),
            ),
            Phase::Aborted => (
                Controller { phase: Phase::Aborted, wait, ledger },
                Action::Abort(RunError::Protocol),
            ),
        }
    }
}

} // verus!
