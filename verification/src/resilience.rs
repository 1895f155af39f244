use crate::cleanup::volume_targets;
use crate::controller::{noted, operation_of, step_spec, ControllerView, PhaseView};
use crate::discovery::{ids_of, records};
use crate::laws::law_cleanup_matches_confirmed;
use crate::model::InstanceRecordView;
use crate::outcome::{CleanupFailureView, CleanupOp, RunErrorView, RunOutcomeView};
use crate::polling::{law_all_reached, reached};
use crate::protocol::{ActionView, EventView};
use crate::trace::{before_cleanup, run};
use crate::validity::{
    ledger_after, lemma_advance_hands_out, lemma_run_valid, lemma_settle_hands_out,
    lemma_step_shape, outcome_in, valid,
};
use vstd::prelude::*;

verus! {

/// Whether `event` can be what came of the action that a run in `phase` is
/// waiting for.
pub open spec fn answers(phase: PhaseView, event: EventView) -> bool {
    match phase {
        PhaseView::Discovering => event is Instances || event is Failed,
        PhaseView::Requesting => event is Done || event is Failed,
        PhaseView::Polling => event is Instances || event is Failed,
        PhaseView::Sleeping => event is Done,
        PhaseView::ResolvingGroups => event is Instances || event is Failed,
        PhaseView::QueryingVolumes(_) => event is Volumes || event is Failed,
        PhaseView::DeletingVolume(_) => event is Done || event is Failed,
        PhaseView::DeletingGroup(_) => event is Done || event is Failed,
        PhaseView::Finished => false,
        PhaseView::Aborted => false,
    }
}

/// The error, if any, with which `event` ends a run that is in `phase`: a
/// failed inventory query or a rejected transition request is fatal; so is an
/// event that answers nothing that was asked; a failed cleanup operation is not.
pub open spec fn error_of(phase: PhaseView, event: EventView) -> Option<RunErrorView> {
    if !answers(phase, event) {
        Some(RunErrorView::Protocol)
    } else {
        match event {
            EventView::Failed(reason) => match phase {
                PhaseView::Discovering => Some(RunErrorView::Discovery(reason)),
                PhaseView::ResolvingGroups => Some(RunErrorView::Discovery(reason)),
                PhaseView::Requesting => Some(RunErrorView::Transition(reason)),
                PhaseView::Polling => Some(RunErrorView::Polling(reason)),
                _ => None,
            },
            _ => None,
        }
    }
}

/// A run is aborted exactly by the fatal events, and with the error that
/// belongs to the event. In particular no outcome of a cleanup operation
/// aborts the run: a volume or a group that is gone already, or still in
/// use, leaves the run a success.
pub proof fn law_abort_exactly_on_fatal_events(state: ControllerView, event: EventView)
    ensures
        ({
            let (next, action) = step_spec(state, event);
            &&& action is Abort <==> error_of(state.phase, event) is Some
            &&& error_of(state.phase, event) matches Some(error) ==> action == ActionView::Abort(
                error,
            )
            &&& next.phase is Aborted <==> state.phase is Aborted || (error_of(state.phase, event)
                is Some && !(state.phase is Finished))
            &&& operation_of(state.phase) is Some && event is Failed ==> !(action is Abort)
        }),
{
    lemma_step_shape(state, event);
    lemma_advance_hands_out(state.wait, ledger_after(state, event));
}

/// A failed deletion is noted and nothing else: the run goes on exactly as
/// it does after a deletion that succeeded, but for the note of the failure,
/// which names the operation, the resource and the provider's reason.
pub proof fn law_failed_deletion_is_only_noted(state: ControllerView, reason: Seq<char>)
    requires
        state.phase is DeletingVolume || state.phase is DeletingGroup,
    ensures
        ({
            let (op, target) = operation_of(state.phase).unwrap();
            let note = CleanupFailureView { op, target, reason };
            let (good, good_action) = step_spec(state, EventView::Done);
            let (bad, bad_action) = step_spec(state, EventView::Failed(reason));
            &&& bad.phase == good.phase
            &&& bad.wait == good.wait
            &&& match good_action {
                ActionView::Finish(outcome) => bad_action == ActionView::Finish(
                    RunOutcomeView {
                        failures: outcome.failures.push(note),
                        ..outcome
                    },
                ),
                _ => bad_action == good_action && bad.ledger == noted(
                    good.ledger,
                    op,
                    target,
                    reason,
                ),
            }
        }),
{
}

/// A volume query that fails is noted, and cleanup goes on as after an
/// answer that lists no volume.
pub proof fn law_failed_volume_query_is_only_noted(state: ControllerView, reason: Seq<char>)
    requires
        valid(state),
        state.phase is QueryingVolumes,
    ensures
        ({
            let (op, target) = operation_of(state.phase).unwrap();
            let note = CleanupFailureView { op, target, reason };
            let (good, good_action) = step_spec(state, EventView::Volumes(Seq::empty()));
            let (bad, bad_action) = step_spec(state, EventView::Failed(reason));
            &&& bad.phase == good.phase
            &&& bad.wait == good.wait
            &&& match good_action {
                ActionView::Finish(outcome) => bad_action == ActionView::Finish(
                    RunOutcomeView {
                        failures: outcome.failures.push(note),
                        ..outcome
                    },
                ),
                _ => bad_action == good_action && bad.ledger == noted(
                    good.ledger,
                    op,
                    target,
                    reason,
                ),
            }
        }),
{
    assert(volume_targets(Seq::empty()) =~= Seq::<Seq<char>>::empty());
    assert(state.ledger.pending_volumes =~= Seq::empty());
}

/// The notes that a row of deletions leaves behind: one for each target
/// whose deletion failed, in order, with the provider's reason.
pub open spec fn notes(op: CleanupOp, targets: Seq<Seq<char>>, events: Seq<EventView>) -> Seq<
    CleanupFailureView,
>
    decreases events.len(),
{
    if events.len() == 0 {
        Seq::empty()
    } else {
        let before = notes(op, targets, events.drop_last());
        match events.last() {
            EventView::Failed(reason) => before.push(
                CleanupFailureView { op, target: targets[events.len() - 1], reason },
            ),
            _ => before,
        }
    }
}

/// Volume deletions do not depend on one another. While volumes of the
/// instance at hand are pending, each result that comes in, success or
/// failure, is followed by the deletion of the next pending volume; and the
/// failures are noted one by one, each with its own volume and reason.
pub proof fn law_volume_deletions_are_independent(state: ControllerView, events: Seq<EventView>)
    requires
        state.phase is DeletingVolume,
        events.len() <= state.ledger.pending_volumes.len(),
        forall|i: int| 0 <= i < events.len() ==> events[i] is Done || events[i] is Failed,
    ensures
        ({
            let first = operation_of(state.phase).unwrap().1;
            let targets = seq![first] + state.ledger.pending_volumes;
            let (end, actions) = run(state, events);
            &&& actions.len() == events.len()
            &&& forall|i: int|
                0 <= i < events.len() ==> #[trigger] actions[i] == ActionView::DeleteVolume(
                    targets[i + 1],
                )
            &&& end.phase == PhaseView::DeletingVolume(targets[events.len() as int])
            &&& end.ledger.pending_volumes == state.ledger.pending_volumes.skip(
                events.len() as int,
            )
            &&& end.ledger.failures == state.ledger.failures + notes(
                CleanupOp::DeleteVolume,
                targets,
                events,
            )
        }),
    decreases events.len(),
{
    let first = operation_of(state.phase).unwrap().1;
    let targets = seq![first] + state.ledger.pending_volumes;
    let (end, actions) = run(state, events);
    if events.len() == 0 {
        assert(end.ledger.pending_volumes =~= state.ledger.pending_volumes.skip(0));
        assert(end.ledger.failures =~= state.ledger.failures + notes(
            CleanupOp::DeleteVolume,
            targets,
            events,
        ));
    } else {
        let front = events.drop_last();
        let (mid, before) = run(state, front);
        law_volume_deletions_are_independent(state, front);
        assert(events.last() == events[events.len() - 1]);
        let n = front.len() as int;
        assert(mid.ledger.pending_volumes.len() > 0);
        assert(mid.ledger.pending_volumes[0] == targets[n + 1]);
        assert(mid.ledger.pending_volumes.drop_first() =~= state.ledger.pending_volumes.skip(
            n + 1,
        ));
        let noted_before = state.ledger.failures + notes(CleanupOp::DeleteVolume, targets, front);
        match events.last() {
            EventView::Failed(reason) => {
                assert(end.ledger.failures =~= state.ledger.failures + notes(
                    CleanupOp::DeleteVolume,
                    targets,
                    events,
                ));
            },
            _ => {},
        }
        assert forall|i: int| 0 <= i < events.len() implies #[trigger] actions[i]
            == ActionView::DeleteVolume(targets[i + 1]) by {
            if i < n {
                assert(actions[i] == before[i]);
            }
        }
    }
}

/// Security-group deletions do not depend on one another. While groups are
/// pending, each result that comes in, success or failure, is followed by
/// the deletion of the next pending group; and the failures are noted one by
/// one, each with its own group and reason.
pub proof fn law_group_deletions_are_independent(state: ControllerView, events: Seq<EventView>)
    requires
        valid(state),
        state.phase is DeletingGroup,
        events.len() <= state.ledger.pending_groups.len(),
        forall|i: int| 0 <= i < events.len() ==> events[i] is Done || events[i] is Failed,
    ensures
        ({
            let first = operation_of(state.phase).unwrap().1;
            let targets = seq![first] + state.ledger.pending_groups;
            let (end, actions) = run(state, events);
            &&& actions.len() == events.len()
            &&& forall|i: int|
                0 <= i < events.len() ==> #[trigger] actions[i]
                    == ActionView::DeleteSecurityGroup(targets[i + 1])
            &&& end.phase == PhaseView::DeletingGroup(targets[events.len() as int])
            &&& end.ledger.pending_groups == state.ledger.pending_groups.skip(events.len() as int)
            &&& end.ledger.pending_volumes.len() == 0
            &&& end.ledger.pending_instances.len() == 0
            &&& end.ledger.failures == state.ledger.failures + notes(
                CleanupOp::DeleteSecurityGroup,
                targets,
                events,
            )
        }),
    decreases events.len(),
{
    let first = operation_of(state.phase).unwrap().1;
    let targets = seq![first] + state.ledger.pending_groups;
    let (end, actions) = run(state, events);
    if events.len() == 0 {
        assert(end.ledger.pending_groups =~= state.ledger.pending_groups.skip(0));
        assert(end.ledger.failures =~= state.ledger.failures + notes(
            CleanupOp::DeleteSecurityGroup,
            targets,
            events,
        ));
    } else {
        let front = events.drop_last();
        let (mid, before) = run(state, front);
        law_group_deletions_are_independent(state, front);
        assert(events.last() == events[events.len() - 1]);
        let n = front.len() as int;
        assert(mid.ledger.pending_groups.len() > 0);
        assert(mid.ledger.pending_groups[0] == targets[n + 1]);
        assert(mid.ledger.pending_groups.drop_first() =~= state.ledger.pending_groups.skip(n + 1));
        match events.last() {
            EventView::Failed(reason) => {
                assert(end.ledger.failures =~= state.ledger.failures + notes(
                    CleanupOp::DeleteSecurityGroup,
                    targets,
                    events,
                ));
            },
            _ => {},
        }
        assert forall|i: int| 0 <= i < events.len() implies #[trigger] actions[i]
            == ActionView::DeleteSecurityGroup(targets[i + 1]) by {
            if i < n {
                assert(actions[i] == before[i]);
            }
        }
    }
}

/// Whether no event of the row is fatal to the run at the point at which it
/// comes.
pub open spec fn smooth(state: ControllerView, events: Seq<EventView>) -> bool
    decreases events.len(),
{
    events.len() == 0 || (smooth(state, events.drop_last()) && error_of(
        run(state, events.drop_last()).0.phase,
        events.last(),
    ) is None)
}

/// A run that meets no fatal event is never aborted, whatever else happens
/// to it: however many cleanup operations the provider rejects, it asks for
/// no abort and does not end in the aborted phase.
pub proof fn law_run_without_fatal_event_is_not_aborted(
    state: ControllerView,
    events: Seq<EventView>,
)
    requires
        !(state.phase is Aborted),
        smooth(state, events),
    ensures
        !(run(state, events).0.phase is Aborted),
        forall|i: int| 0 <= i < run(state, events).1.len() ==> !(#[trigger] run(state, events).1[i]
            is Abort),
    decreases events.len(),
{
    if events.len() > 0 {
        let (mid, before) = run(state, events.drop_last());
        law_run_without_fatal_event_is_not_aborted(state, events.drop_last());
        law_abort_exactly_on_fatal_events(mid, events.last());
        let actions = run(state, events).1;
        assert forall|i: int| 0 <= i < actions.len() implies !(#[trigger] actions[i] is Abort) by {
            if i < before.len() {
                assert(actions[i] == before[i]);
            }
        }
    }
}

/// Instances that are in their terminal state already are processed without
/// waiting. When a poll answer reports every candidate in the terminal
/// state, the run neither pauses nor aborts but goes on to cleanup; if no
/// fatal event follows, it is never aborted, although volumes and groups may
/// be gone already; and an outcome it reports lists every candidate as
/// processed and none as outstanding.
pub proof fn law_terminal_instances_are_processed_at_once(
    state: ControllerView,
    answer: Seq<Seq<InstanceRecordView>>,
    later: Seq<EventView>,
)
    requires
        state.phase is Polling,
        forall|i: int|
            0 <= i < state.wait.candidates.len() ==> reached(
                records(answer),
                #[trigger] state.wait.candidates[i].id,
                state.wait.kind.terminal_state(),
            ),
        smooth(step_spec(state, EventView::Instances(answer)).0, later),
    ensures
        ({
            let (next, action) = step_spec(state, EventView::Instances(answer));
            let (end, actions) = run(next, later);
            let all = seq![action] + actions;
            &&& !before_cleanup(next.phase)
            &&& !(end.phase is Aborted)
            &&& forall|i: int|
                0 <= i < all.len() ==> !(#[trigger] all[i] is Abort) && !(all[i] is Sleep)
            &&& forall|i: int|
                0 <= i < all.len() ==> (#[trigger] outcome_in(all[i]) matches Some(outcome)
                    ==> outcome.processed == ids_of(state.wait.candidates)
                    && outcome.outstanding.len() == 0)
        }),
{
    let wait = state.wait;
    let recs = records(answer);
    let (next, action) = step_spec(state, EventView::Instances(answer));
    let (end, actions) = run(next, later);
    let all = seq![action] + actions;
    law_all_reached(wait.candidates, recs, wait.kind.terminal_state());
    lemma_settle_hands_out(wait, recs);
    law_cleanup_matches_confirmed(wait, recs, later);
    law_run_without_fatal_event_is_not_aborted(next, later);
    lemma_cleanup_never_pauses(next, later);
    assert forall|i: int| 0 <= i < all.len() implies !(#[trigger] all[i] is Abort) && !(all[i]
        is Sleep) by {
        if i > 0 {
            assert(all[i] == actions[i - 1]);
        }
    }
}

/// Once the wait is over, a run asks for no pause.
proof fn lemma_cleanup_never_pauses(state: ControllerView, events: Seq<EventView>)
    requires
        !before_cleanup(state.phase),
    ensures
        !before_cleanup(run(state, events).0.phase),
        forall|i: int| 0 <= i < run(state, events).1.len() ==> !(#[trigger] run(state, events).1[i]
            is Sleep),
    decreases events.len(),
{
    if events.len() > 0 {
        let (mid, before) = run(state, events.drop_last());
        lemma_cleanup_never_pauses(state, events.drop_last());
        lemma_advance_hands_out(mid.wait, ledger_after(mid, events.last()));
        let actions = run(state, events).1;
        assert forall|i: int| 0 <= i < actions.len() implies !(#[trigger] actions[i] is Sleep) by {
            if i < before.len() {
                assert(actions[i] == before[i]);
            }
        }
    }
}

/// The failures that a run meets in cleanup: one note for each cleanup
/// operation whose event is a failure, in the order of the events, with the
/// operation, the resource it was aimed at and the provider's reason.
pub open spec fn failures_met(state: ControllerView, events: Seq<EventView>) -> Seq<
    CleanupFailureView,
>
    decreases events.len(),
{
    if events.len() == 0 {
        Seq::empty()
    } else {
        let before = failures_met(state, events.drop_last());
        match (operation_of(run(state, events.drop_last()).0.phase), events.last()) {
            (Some((op, target)), EventView::Failed(reason)) => before.push(
                CleanupFailureView { op, target, reason },
            ),
            _ => before,
        }
    }
}

/// Every failure of a cleanup operation is reported, and nothing else is:
/// while a run goes on, its ledger holds the failures it began with and then
/// those it met, in order; and the outcome with which it ends lists the same.
pub proof fn law_every_failure_is_reported(state: ControllerView, events: Seq<EventView>)
    requires
        valid(state),
        !(state.phase is Finished),
    ensures
        ({
            let (end, actions) = run(state, events);
            let reported = state.ledger.failures + failures_met(state, events);
            &&& !(end.phase is Finished) ==> end.ledger.failures == reported
            &&& events.len() > 0 ==> (outcome_in(actions.last()) matches Some(outcome)
                ==> outcome.failures == reported)
        }),
    decreases events.len(),
{
    let (end, actions) = run(state, events);
    let reported = state.ledger.failures + failures_met(state, events);
    if events.len() == 0 {
        assert(reported =~= state.ledger.failures);
    } else {
        let front = events.drop_last();
        let last = events.last();
        let (mid, before) = run(state, front);
        law_every_failure_is_reported(state, front);
        lemma_run_valid(state, front);
        lemma_step_shape(mid, last);
        lemma_advance_hands_out(mid.wait, ledger_after(mid, last));
        if !(mid.phase is Finished) {
            assert(ledger_after(mid, last).failures =~= reported);
        }
    }
}

} // verus!
