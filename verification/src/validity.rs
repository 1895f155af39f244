use crate::cleanup::{group_targets, listed_groups, volume_targets};
use crate::controller::{
    advance, delete_attached_volumes_spec, delete_security_groups_spec, empty_ledger, no_wait,
    noted, operation_of, outcome_of, settle, settled_ledger, start_spec, step_spec, ConfigView,
    ControllerView, LedgerView, PhaseView, WaitView,
};
use crate::discovery::{candidates, ids_of, records};
use crate::ident::lemma_distinct;
use crate::model::{InstanceRecordView, TransitionKind};
use crate::outcome::RunOutcomeView;
use crate::polling::{confirmed, outstanding};
use crate::protocol::{ActionView, EventView};
use crate::trace::{before_cleanup, group_of, instance_of, listed, run, volume_of};
use vstd::prelude::*;

verus! {

/// The outcome that an action reports, if it ends the run with one.
pub open spec fn outcome_in(action: ActionView) -> Option<RunOutcomeView> {
    match action {
        ActionView::Finish(outcome) => Some(outcome),
        _ => None,
    }
}

/// What holds of every state that a run can be in: the groups still to be
/// deleted are listed once each and do not include the one being deleted;
/// before cleanup begins there is no cleanup work on the ledger; volumes are
/// asked for only when none is left to delete, and groups are deleted only
/// when no volume and no instance is left; a finished run holds no work.
pub open spec fn valid(state: ControllerView) -> bool {
    let ledger = state.ledger;
    &&& ledger.pending_groups.no_duplicates()
    &&& state.phase is Finished ==> ledger == empty_ledger()
    &&& before_cleanup(state.phase) ==> {
        &&& ledger.pending_instances.len() == 0
        &&& ledger.pending_volumes.len() == 0
        &&& ledger.pending_groups.len() == 0
        &&& ledger.outstanding.len() == 0
        &&& ledger.failures.len() == 0
    }
    &&& before_cleanup(state.phase) && !(state.phase is ResolvingGroups) ==> ledger.processed.len()
        == 0
    &&& state.phase is QueryingVolumes ==> ledger.pending_volumes.len() == 0
    &&& state.phase matches PhaseView::DeletingGroup(group) ==> {
        &&& ledger.pending_volumes.len() == 0
        &&& ledger.pending_instances.len() == 0
        &&& !ledger.pending_groups.contains(group)
    }
}

/// The ledger from which a step goes on with cleanup, where it does.
pub open spec fn ledger_after(state: ControllerView, event: EventView) -> LedgerView {
    let ledger = state.ledger;
    match state.phase {
        PhaseView::Discovering => empty_ledger(),
        PhaseView::Requesting => settled_ledger(state.wait, Seq::empty()),
        PhaseView::Polling => match event {
            EventView::Instances(answer) => settled_ledger(state.wait, records(answer)),
            _ => ledger,
        },
        PhaseView::ResolvingGroups => match event {
            EventView::Instances(answer) => LedgerView {
                pending_groups: group_targets(candidates(records(answer))),
                ..ledger
            },
            _ => ledger,
        },
        _ => match event {
            EventView::Volumes(answer) => LedgerView {
                pending_volumes: volume_targets(answer),
                ..ledger
            },
            EventView::Failed(reason) => match operation_of(state.phase) {
                Some((op, target)) => noted(ledger, op, target, reason),
                None => ledger,
            },
            _ => ledger,
        },
    }
}

/// A step does one of two things. It goes on with cleanup from the ledger
/// that `ledger_after` gives; or it leaves the ledger alone, and then it
/// asks for the transition, for a poll or for a pause, or aborts the run.
pub proof fn lemma_step_shape(state: ControllerView, event: EventView)
    ensures
        ({
            let (next, action) = step_spec(state, event);
            ||| (next, action) == advance(state.wait, ledger_after(state, event))
            ||| {
                &&& next.ledger == state.ledger
                &&& volume_of(action) is None
                &&& group_of(action) is None
                &&& instance_of(action) is None
                &&& outcome_in(action) is None
                &&& next.phase is Finished ==> state.phase is Finished
                &&& before_cleanup(next.phase) ==> before_cleanup(state.phase)
                &&& next.phase is ResolvingGroups ==> state.phase is ResolvingGroups
                &&& next.phase is QueryingVolumes || next.phase is DeletingVolume
                    || next.phase is DeletingGroup ==> next.phase == state.phase
            }
        }),
{
}

/// `advance` hands out the head of one queue and leaves the rest as it was.
pub proof fn lemma_advance_hands_out(wait: WaitView, ledger: LedgerView)
    ensures
        ({
            let (next, action) = advance(wait, ledger);
            &&& !before_cleanup(next.phase)
            &&& !(next.phase is Aborted)
            &&& next.wait == wait
            &&& listed(group_of(action)) + next.ledger.pending_groups == ledger.pending_groups
            &&& listed(instance_of(action)) + next.ledger.pending_instances
                == ledger.pending_instances
            &&& listed(volume_of(action)) + next.ledger.pending_volumes == ledger.pending_volumes
            &&& !(action is Abort)
            &&& !(action is QueryInstances)
            &&& !(action is RequestTransition)
            &&& !(action is Sleep)
            &&& next.phase is Finished <==> action is Finish
            &&& next.phase is Finished ==> next.ledger == empty_ledger()
            &&& group_of(action) matches Some(group) ==> next.phase == PhaseView::DeletingGroup(
                group,
            )
            &&& outcome_in(action) is Some ==> outcome_in(action) == Some(outcome_of(ledger))
            &&& !(next.phase is Finished) ==> {
                &&& next.ledger.processed == ledger.processed
                &&& next.ledger.outstanding == ledger.outstanding
                &&& next.ledger.failures == ledger.failures
            }
        }),
{
    let (next, action) = advance(wait, ledger);
    assert(listed(group_of(action)) + next.ledger.pending_groups =~= ledger.pending_groups);
    assert(listed(instance_of(action)) + next.ledger.pending_instances
        =~= ledger.pending_instances);
    assert(listed(volume_of(action)) + next.ledger.pending_volumes =~= ledger.pending_volumes);
}

/// When the wait ends, the first cleanup action and the work left on the
/// ledger are together the work for the confirmed candidates: their
/// identifiers, and their security groups, each group once.
pub proof fn lemma_settle_hands_out(wait: WaitView, recs: Seq<InstanceRecordView>)
    ensures
        ({
            let done = confirmed(wait.candidates, recs, wait.kind.terminal_state());
            let open = outstanding(wait.candidates, recs, wait.kind.terminal_state());
            let (next, action) = settle(wait, recs);
            &&& !before_cleanup(next.phase)
            &&& valid(next)
            &&& group_targets(done).no_duplicates()
            &&& listed(group_of(action)) + next.ledger.pending_groups == group_targets(done)
            &&& listed(instance_of(action)) + next.ledger.pending_instances == ids_of(done)
            &&& volume_of(action) is None
            &&& !(action is Abort)
            &&& !(action is Sleep)
            &&& outcome_in(action) matches Some(outcome) ==> {
                &&& outcome.processed == ids_of(done)
                &&& outcome.outstanding == ids_of(open)
            }
            &&& !(next.phase is Finished) ==> {
                &&& next.ledger.processed == ids_of(done)
                &&& next.ledger.outstanding == ids_of(open)
            }
        }),
{
    let done = confirmed(wait.candidates, recs, wait.kind.terminal_state());
    lemma_distinct(listed_groups(done));
    lemma_advance_hands_out(wait, settled_ledger(wait, recs));
    lemma_advance_valid(wait, settled_ledger(wait, recs));
}

proof fn lemma_advance_valid(wait: WaitView, ledger: LedgerView)
    requires
        ledger.pending_groups.no_duplicates(),
    ensures
        valid(advance(wait, ledger).0),
{
    let next = advance(wait, ledger).0;
    if next.phase is DeletingGroup {
        let rest = ledger.pending_groups.drop_first();
        assert forall|i: int, j: int| 0 <= i < j < rest.len() implies rest[i] != rest[j] by {
            assert(rest[i] == ledger.pending_groups[i + 1]);
            assert(rest[j] == ledger.pending_groups[j + 1]);
        }
        if rest.contains(ledger.pending_groups[0]) {
            let k = choose|k: int| 0 <= k < rest.len() && rest[k] == ledger.pending_groups[0];
            assert(rest[k] == ledger.pending_groups[k + 1]);
        }
    }
}

/// Every kind of run begins in a valid state.
pub proof fn lemma_start_valid(kind: TransitionKind, config: ConfigView, ids: Seq<Seq<char>>)
    ensures
        valid(start_spec(kind, config).0),
        valid(delete_attached_volumes_spec(ids).0),
        valid(delete_security_groups_spec(ids).0),
{
    lemma_advance_valid(
        no_wait(),
        LedgerView { processed: ids, pending_instances: ids, ..empty_ledger() },
    );
    lemma_advance_valid(no_wait(), empty_ledger());
}

/// A step leads from a valid state to a valid state.
pub proof fn lemma_step_valid(state: ControllerView, event: EventView)
    requires
        valid(state),
    ensures
        valid(step_spec(state, event).0),
{
    lemma_step_shape(state, event);
    lemma_distinct(
        listed_groups(confirmed(state.wait.candidates, Seq::empty(), state.wait.kind.terminal_state())),
    );
    match event {
        EventView::Instances(answer) => {
            lemma_distinct(listed_groups(candidates(records(answer))));
            lemma_distinct(
                listed_groups(
                    confirmed(
                        state.wait.candidates,
                        records(answer),
                        state.wait.kind.terminal_state(),
                    ),
                ),
            );
        },
        _ => {},
    }
    if ledger_after(state, event).pending_groups.no_duplicates() {
        lemma_advance_valid(state.wait, ledger_after(state, event));
    }
}

/// A run leads from a valid state to a valid state.
pub proof fn lemma_run_valid(state: ControllerView, events: Seq<EventView>)
    requires
        valid(state),
    ensures
        valid(run(state, events).0),
    decreases events.len(),
{
    if events.len() > 0 {
        lemma_run_valid(state, events.drop_last());
        lemma_step_valid(run(state, events.drop_last()).0, events.last());
    }
}

} // verus!
