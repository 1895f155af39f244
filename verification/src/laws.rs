use crate::cleanup::{group_targets, volume_targets};
use crate::controller::{
    settle, start_spec, step_spec, ConfigView, ControllerView, WaitView,
};
use crate::discovery::{candidates, ids_of, records};
use crate::model::{InstanceRecordView, TransitionKind};
use crate::outcome::RunOutcomeView;
use crate::polling::{confirmed, outstanding};
use crate::protocol::{ActionView, EventView};
use crate::trace::{
    before_cleanup, group_of, groups_deleted, instance_of, instances_queried, lemma_emitted_prepend,
    lemma_emitted_push, listed, run, volume_of, volumes_deleted,
};
use crate::validity::{
    ledger_after, lemma_advance_hands_out, lemma_run_valid, lemma_settle_hands_out,
    lemma_step_shape, lemma_step_valid, outcome_in, valid,
};
use vstd::prelude::*;

verus! {

/// Once the wait is over, a step hands out the head of one queue of groups or
/// instances, or nothing, and leaves the rest of both as it was; it keeps the
/// two halves of the outcome, and an outcome it reports is the one on the
/// ledger.
proof fn lemma_step_hands_out(state: ControllerView, event: EventView)
    requires
        valid(state),
        !before_cleanup(state.phase),
    ensures
        ({
            let (next, action) = step_spec(state, event);
            &&& !before_cleanup(next.phase)
            &&& listed(group_of(action)) + next.ledger.pending_groups
                == state.ledger.pending_groups
            &&& listed(instance_of(action)) + next.ledger.pending_instances
                == state.ledger.pending_instances
            &&& outcome_in(action) matches Some(outcome) ==> {
                &&& outcome.processed == state.ledger.processed
                &&& outcome.outstanding == state.ledger.outstanding
            }
            &&& !(next.phase is Finished) ==> {
                &&& next.ledger.processed == state.ledger.processed
                &&& next.ledger.outstanding == state.ledger.outstanding
            }
        }),
{
    let (next, action) = step_spec(state, event);
    lemma_step_shape(state, event);
    lemma_advance_hands_out(state.wait, ledger_after(state, event));
    assert(listed(group_of(action)) + next.ledger.pending_groups =~= state.ledger.pending_groups);
    assert(listed(instance_of(action)) + next.ledger.pending_instances
        =~= state.ledger.pending_instances);
}

/// Once the wait is over, a run asks for the deletion of the pending groups
/// and for the volumes of the pending instances in the order of the queues,
/// each at most once, whatever the events are; and whenever it reports an
/// outcome, that outcome lists the processed and the outstanding instances
/// as the ledger held them.
proof fn lemma_cleanup_in_order(state: ControllerView, events: Seq<EventView>)
    requires
        valid(state),
        !before_cleanup(state.phase),
    ensures
        ({
            let (end, actions) = run(state, events);
            &&& !before_cleanup(end.phase)
            &&& valid(end)
            &&& groups_deleted(actions) + end.ledger.pending_groups
                == state.ledger.pending_groups
            &&& instances_queried(actions) + end.ledger.pending_instances
                == state.ledger.pending_instances
            &&& !(end.phase is Finished) ==> {
                &&& end.ledger.processed == state.ledger.processed
                &&& end.ledger.outstanding == state.ledger.outstanding
            }
            &&& forall|i: int|
                0 <= i < actions.len() ==> (#[trigger] outcome_in(actions[i]) matches Some(
                    outcome,
                ) ==> outcome.processed == state.ledger.processed && outcome.outstanding
                    == state.ledger.outstanding)
        }),
    decreases events.len(),
{
    let (end, actions) = run(state, events);
    if events.len() == 0 {
        assert(groups_deleted(actions) + end.ledger.pending_groups
            =~= state.ledger.pending_groups);
        assert(instances_queried(actions) + end.ledger.pending_instances
            =~= state.ledger.pending_instances);
    } else {
        let (mid, before) = run(state, events.drop_last());
        lemma_cleanup_in_order(state, events.drop_last());
        lemma_step_hands_out(mid, events.last());
        lemma_step_valid(mid, events.last());
        let (next, action) = step_spec(mid, events.last());
        lemma_emitted_push(before, action);
        assert(groups_deleted(actions) + end.ledger.pending_groups =~= groups_deleted(before) + (
        listed(group_of(action)) + end.ledger.pending_groups));
        assert(instances_queried(actions) + end.ledger.pending_instances =~= instances_queried(
            before,
        ) + (listed(instance_of(action)) + end.ledger.pending_instances));
        if mid.phase is Finished {
            assert(action is Abort);
        }
        assert forall|i: int| 0 <= i < actions.len() implies (#[trigger] outcome_in(
            actions[i],
        ) matches Some(outcome) ==> outcome.processed == state.ledger.processed
            && outcome.outstanding == state.ledger.outstanding) by {
            if i < before.len() {
                assert(actions[i] == before[i]);
            }
        }
    }
}

/// While the wait is not over, a step asks for no deletion unless it ends the
/// wait, and then the group it deletes and the groups it leaves pending are
/// listed once each.
proof fn lemma_step_from_wait(state: ControllerView, event: EventView)
    requires
        valid(state),
        before_cleanup(state.phase),
    ensures
        ({
            let (next, action) = step_spec(state, event);
            &&& (listed(group_of(action)) + next.ledger.pending_groups).no_duplicates()
            &&& before_cleanup(next.phase) ==> group_of(action) is None
        }),
{
    let (next, action) = step_spec(state, event);
    lemma_step_valid(state, event);
    lemma_step_shape(state, event);
    lemma_advance_hands_out(state.wait, ledger_after(state, event));
    if let Some(group) = group_of(action) {
        let all = listed(group_of(action)) + next.ledger.pending_groups;
        assert forall|i: int, j: int| 0 <= i < j < all.len() implies all[i] != all[j] by {
            assert(all[j] == next.ledger.pending_groups[j - 1]);
            if i > 0 {
                assert(all[i] == next.ledger.pending_groups[i - 1]);
            }
        }
    }
    if group_of(action) is None {
        assert(listed(group_of(action)) + next.ledger.pending_groups
            =~= next.ledger.pending_groups);
    }
}

/// No security group is deleted twice: whatever the events of a run are, the
/// deletions it asks for name each group at most once, and none of them
/// names a group that is still pending.
pub proof fn law_no_group_deleted_twice(state: ControllerView, events: Seq<EventView>)
    requires
        valid(state),
    ensures
        groups_deleted(run(state, events).1).no_duplicates(),
        (groups_deleted(run(state, events).1) + run(state, events).0.ledger.pending_groups).no_duplicates(),
        before_cleanup(run(state, events).0.phase) ==> groups_deleted(run(state, events).1).len()
            == 0,
    decreases events.len(),
{
    let (end, actions) = run(state, events);
    if events.len() == 0 {
        assert(groups_deleted(actions) + end.ledger.pending_groups =~= end.ledger.pending_groups);
    } else {
        let (mid, before) = run(state, events.drop_last());
        law_no_group_deleted_twice(state, events.drop_last());
        lemma_run_valid(state, events.drop_last());
        let (next, action) = step_spec(mid, events.last());
        lemma_emitted_push(before, action);
        if before_cleanup(mid.phase) {
            assert(groups_deleted(before) =~= Seq::empty());
            lemma_step_from_wait(mid, events.last());
            assert(groups_deleted(actions) + end.ledger.pending_groups =~= listed(
                group_of(action),
            ) + end.ledger.pending_groups);
        } else {
            lemma_step_hands_out(mid, events.last());
            assert(groups_deleted(actions) + end.ledger.pending_groups =~= groups_deleted(before)
                + (listed(group_of(action)) + end.ledger.pending_groups));
        }
        let all = groups_deleted(actions) + end.ledger.pending_groups;
        let issued = groups_deleted(actions);
        assert forall|i: int, j: int| 0 <= i < j < issued.len() implies issued[i] != issued[j] by {
            assert(all[i] == issued[i]);
            assert(all[j] == issued[j]);
        }
    }
}

/// Cleanup is for the confirmed candidates and for them alone. Let the wait
/// end with a poll answer whose records are `recs`, and let any events
/// follow. Then the volume queries that the run makes are for confirmed
/// candidates, in candidate order, each once; the security groups it deletes
/// are groups of confirmed candidates, each group once however many of them
/// share it; and once the run has finished, every confirmed candidate has
/// been asked for its volumes and every one of their groups has been deleted.
/// An outcome that the run reports lists the confirmed candidates as
/// processed and all others as outstanding.
pub proof fn law_cleanup_matches_confirmed(
    wait: WaitView,
    recs: Seq<InstanceRecordView>,
    events: Seq<EventView>,
)
    ensures
        ({
            let done = confirmed(wait.candidates, recs, wait.kind.terminal_state());
            let open = outstanding(wait.candidates, recs, wait.kind.terminal_state());
            let (state, first) = settle(wait, recs);
            let (end, later) = run(state, events);
            let actions = seq![first] + later;
            &&& groups_deleted(actions).no_duplicates()
            &&& groups_deleted(actions) + end.ledger.pending_groups == group_targets(done)
            &&& instances_queried(actions) + end.ledger.pending_instances == ids_of(done)
            &&& end.phase is Finished ==> {
                &&& groups_deleted(actions) == group_targets(done)
                &&& instances_queried(actions) == ids_of(done)
            }
            &&& forall|i: int|
                0 <= i < actions.len() ==> (#[trigger] outcome_in(actions[i]) matches Some(
                    outcome,
                ) ==> outcome.processed == ids_of(done) && outcome.outstanding == ids_of(open))
        }),
{
    let done = confirmed(wait.candidates, recs, wait.kind.terminal_state());
    let open = outstanding(wait.candidates, recs, wait.kind.terminal_state());
    let (state, first) = settle(wait, recs);
    let (end, later) = run(state, events);
    let actions = seq![first] + later;
    lemma_settle_hands_out(wait, recs);
    lemma_cleanup_in_order(state, events);
    lemma_emitted_prepend(first, later);
    let issued = groups_deleted(actions);
    let targets = group_targets(done);
    assert(issued + end.ledger.pending_groups =~= listed(group_of(first)) + (groups_deleted(later)
        + end.ledger.pending_groups));
    assert(instances_queried(actions) + end.ledger.pending_instances =~= listed(
        instance_of(first),
    ) + (instances_queried(later) + end.ledger.pending_instances));
    assert forall|i: int, j: int| 0 <= i < j < issued.len() implies issued[i] != issued[j] by {
        assert(targets[i] == issued[i]);
        assert(targets[j] == issued[j]);
    }
    if end.phase is Finished {
        assert(issued =~= issued + end.ledger.pending_groups);
        assert(instances_queried(actions) =~= instances_queried(actions)
            + end.ledger.pending_instances);
    }
    if state.phase is Finished {
        lemma_finished_stays(state, events);
    }
    assert forall|i: int| 0 <= i < actions.len() implies (#[trigger] outcome_in(
        actions[i],
    ) matches Some(outcome) ==> outcome.processed == ids_of(done) && outcome.outstanding
        == ids_of(open)) by {
        if i > 0 {
            assert(actions[i] == later[i - 1]);
        }
    }
}

/// After a run has finished it reports no further outcome.
proof fn lemma_finished_stays(state: ControllerView, events: Seq<EventView>)
    requires
        state.phase is Finished,
    ensures
        run(state, events).0 == state,
        forall|i: int|
            0 <= i < run(state, events).1.len() ==> #[trigger] outcome_in(run(state, events).1[i])
                is None,
    decreases events.len(),
{
    if events.len() > 0 {
        lemma_finished_stays(state, events.drop_last());
        let before = run(state, events.drop_last()).1;
        let actions = run(state, events).1;
        assert forall|i: int| 0 <= i < actions.len() implies #[trigger] outcome_in(actions[i])
            is None by {
            if i < before.len() {
                assert(actions[i] == before[i]);
            }
        }
    }
}

/// An empty candidate set ends the run at once: the answer to the tag query
/// is followed by the outcome, which lists nothing, and by no request.
pub proof fn law_empty_candidate_set(
    kind: TransitionKind,
    config: ConfigView,
    answer: Seq<Seq<InstanceRecordView>>,
)
    requires
        candidates(records(answer)).len() == 0,
    ensures
        ({
            let (next, action) = step_spec(start_spec(kind, config).0, EventView::Instances(answer));
            &&& next.phase is Finished
            &&& action == ActionView::Finish(
                RunOutcomeView {
                    processed: Seq::empty(),
                    outstanding: Seq::empty(),
                    failures: Seq::empty(),
                },
            )
        }),
{
}

/// Whether the answer to some volume query among the events names `volume`.
pub open spec fn named_in(events: Seq<EventView>, volume: Seq<char>) -> bool {
    exists|k: int|
        0 <= k < events.len() && (#[trigger] events[k] matches EventView::Volumes(answer)
            && volume_targets(answer).contains(volume))
}

/// The volume that a step deletes and the volumes it leaves pending were
/// pending before the step or are named in the answer that the step takes in.
proof fn lemma_step_volumes(state: ControllerView, event: EventView)
    ensures
        ({
            let (next, action) = step_spec(state, event);
            forall|volume: Seq<char>| #[trigger]
                (listed(volume_of(action)) + next.ledger.pending_volumes).contains(volume)
                    ==> state.ledger.pending_volumes.contains(volume) || (
                event matches EventView::Volumes(answer) && volume_targets(answer).contains(
                    volume,
                ))
        }),
{
    let (next, action) = step_spec(state, event);
    lemma_step_shape(state, event);
    lemma_advance_hands_out(state.wait, ledger_after(state, event));
    if volume_of(action) is None {
        assert(listed(volume_of(action)) + next.ledger.pending_volumes
            =~= next.ledger.pending_volumes);
    }
}

/// No volume is deleted on a guess: every volume whose deletion a run asks
/// for, and every volume it still holds pending, was pending when the run
/// began or was named in the answer to one of its volume queries.
pub proof fn law_deleted_volumes_were_listed(state: ControllerView, events: Seq<EventView>)
    ensures
        forall|volume: Seq<char>| #[trigger]
            (volumes_deleted(run(state, events).1) + run(
                state,
                events,
            ).0.ledger.pending_volumes).contains(volume)
                ==> state.ledger.pending_volumes.contains(volume) || named_in(events, volume),
    decreases events.len(),
{
    let (end, actions) = run(state, events);
    let held = volumes_deleted(actions) + end.ledger.pending_volumes;
    if events.len() == 0 {
        assert(held =~= state.ledger.pending_volumes);
    } else {
        let front = events.drop_last();
        let last = events.last();
        let (mid, before) = run(state, front);
        law_deleted_volumes_were_listed(state, front);
        let held_before = volumes_deleted(before) + mid.ledger.pending_volumes;
        let (next, action) = step_spec(mid, last);
        lemma_emitted_push(before, action);
        lemma_step_volumes(mid, last);
        assert forall|volume: Seq<char>| #[trigger] held.contains(volume) implies (
        state.ledger.pending_volumes.contains(volume) || named_in(events, volume)) by {
            let k = choose|k: int| 0 <= k < held.len() && held[k] == volume;
            let tail = listed(volume_of(action)) + end.ledger.pending_volumes;
            assert(held =~= volumes_deleted(before) + tail);
            if k < volumes_deleted(before).len() {
                assert(held_before[k] == volume);
                assert(held_before.contains(volume));
            } else {
                assert(tail[k - volumes_deleted(before).len()] == volume);
                assert(tail.contains(volume));
                if mid.ledger.pending_volumes.contains(volume) {
                    let j = choose|j: int|
                        0 <= j < mid.ledger.pending_volumes.len() && mid.ledger.pending_volumes[j]
                            == volume;
                    assert(held_before[volumes_deleted(before).len() + j] == volume);
                    assert(held_before.contains(volume));
                } else {
                    assert(events[events.len() - 1] == last);
                    assert(named_in(events, volume));
                }
            }
            if held_before.contains(volume) && !state.ledger.pending_volumes.contains(volume) {
                let i = choose|i: int|
                    0 <= i < front.len() && (#[trigger] front[i] matches EventView::Volumes(answer)
                        && volume_targets(answer).contains(volume));
                assert(events[i] == front[i]);
            }
        }
    }
}

} // verus!
