use crate::controller::{start_spec, step_spec, ConfigView, ControllerView, PhaseView};
use crate::model::TransitionKind;
use crate::protocol::{ActionView, EventView};
use crate::trace::run;
use crate::validity::{ledger_after, lemma_advance_hands_out, lemma_step_shape};
use vstd::prelude::*;

verus! {

/// The number of inventory queries among the actions.
pub open spec fn queries(actions: Seq<ActionView>) -> nat {
    actions.filter(|action: ActionView| action is QueryInstances).len()
}

/// The number of pauses among the actions.
pub open spec fn pauses(actions: Seq<ActionView>) -> nat {
    actions.filter(|action: ActionView| action is Sleep).len()
}

/// The number of polls that a run may still make from the state it is in.
pub open spec fn polls_ahead(state: ControllerView) -> nat {
    match state.phase {
        PhaseView::Discovering => state.wait.polls_left as nat,
        PhaseView::Requesting => state.wait.polls_left as nat,
        PhaseView::Polling => state.wait.polls_left as nat,
        PhaseView::Sleeping => (state.wait.polls_left + 1) as nat,
        _ => 0,
    }
}

proof fn lemma_counts_push(actions: Seq<ActionView>, action: ActionView)
    ensures
        queries(actions.push(action)) == queries(actions) + if action is QueryInstances {
            1nat
        } else {
            0nat
        },
        pauses(actions.push(action)) == pauses(actions) + if action is Sleep {
            1nat
        } else {
            0nat
        },
{
    actions.lemma_filter_push(action, |action: ActionView| action is QueryInstances);
    actions.lemma_filter_push(action, |action: ActionView| action is Sleep);
}

proof fn lemma_step_spends(state: ControllerView, event: EventView)
    ensures
        ({
            let (next, action) = step_spec(state, event);
            &&& polls_ahead(next) + (if action is QueryInstances {
                1nat
            } else {
                0nat
            }) <= polls_ahead(state)
            &&& next.wait.polls_left + (if action is Sleep {
                1nat
            } else {
                0nat
            }) <= state.wait.polls_left
        }),
{
    lemma_step_shape(state, event);
    lemma_advance_hands_out(state.wait, ledger_after(state, event));
}

/// The wait is bounded. Whatever the events of a run are, the inventory
/// queries it makes are no more than the polls that were ahead of it when it
/// began, and the pauses it makes are no more than the polls it had left.
pub proof fn law_wait_is_bounded(state: ControllerView, events: Seq<EventView>)
    ensures
        queries(run(state, events).1) + polls_ahead(run(state, events).0) <= polls_ahead(state),
        pauses(run(state, events).1) + run(state, events).0.wait.polls_left
            <= state.wait.polls_left,
    decreases events.len(),
{
    if events.len() == 0 {
        reveal(Seq::filter);
    } else {
        let (mid, before) = run(state, events.drop_last());
        law_wait_is_bounded(state, events.drop_last());
        lemma_step_spends(mid, events.last());
        lemma_counts_push(before, step_spec(mid, events.last()).1);
    }
}

/// A run of the whole pipeline polls at most as often as its configuration
/// allows, and pauses at most as often.
pub proof fn law_run_keeps_to_its_budget(
    kind: TransitionKind,
    config: ConfigView,
    events: Seq<EventView>,
)
    ensures
        queries(run(start_spec(kind, config).0, events).1) <= config.max_polls,
        pauses(run(start_spec(kind, config).0, events).1) <= config.max_polls,
{
    law_wait_is_bounded(start_spec(kind, config).0, events);
}

/// The number of transition requests among the actions.
pub open spec fn requests(actions: Seq<ActionView>) -> nat {
    actions.filter(|action: ActionView| action is RequestTransition).len()
}

/// The transition is requested once and not again: a run asks for it at most
/// once, and only while it is still waiting for the answer to the tag query.
pub proof fn law_transition_is_requested_once(state: ControllerView, events: Seq<EventView>)
    ensures
        requests(run(state, events).1) <= 1,
        !(state.phase is Discovering) ==> requests(run(state, events).1) == 0,
        run(state, events).0.phase is Discovering ==> requests(run(state, events).1) == 0,
    decreases events.len(),
{
    if events.len() == 0 {
        reveal(Seq::filter);
    } else {
        let (mid, before) = run(state, events.drop_last());
        law_transition_is_requested_once(state, events.drop_last());
        let (next, action) = step_spec(mid, events.last());
        before.lemma_filter_push(action, |action: ActionView| action is RequestTransition);
        lemma_step_shape(mid, events.last());
        lemma_advance_hands_out(mid.wait, ledger_after(mid, events.last()));
    }
}

} // verus!
