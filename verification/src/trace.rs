use crate::controller::{step_spec, ControllerView, PhaseView};
use crate::protocol::{ActionView, EventView};
use vstd::prelude::*;

verus! {

/// What a run does with a sequence of events: the state it ends in, and the
/// actions it asked for, one for each event.
pub open spec fn run(state: ControllerView, events: Seq<EventView>) -> (
    ControllerView,
    Seq<ActionView>,
)
    decreases events.len(),
{
    if events.len() == 0 {
        (state, Seq::empty())
    } else {
        let before = run(state, events.drop_last());
        let after = step_spec(before.0, events.last());
        (after.0, before.1.push(after.1))
    }
}

/// The security group that an action deletes, if it deletes one.
pub open spec fn group_of(action: ActionView) -> Option<Seq<char>> {
    match action {
        ActionView::DeleteSecurityGroup(id) => Some(id),
        _ => None,
    }
}

/// The volume that an action deletes, if it deletes one.
pub open spec fn volume_of(action: ActionView) -> Option<Seq<char>> {
    match action {
        ActionView::DeleteVolume(id) => Some(id),
        _ => None,
    }
}

/// The instance whose volumes an action asks for, if it asks for any.
pub open spec fn instance_of(action: ActionView) -> Option<Seq<char>> {
    match action {
        ActionView::QueryVolumes(filter) => Some(filter.values[0]),
        _ => None,
    }
}

/// The security groups whose deletion the actions ask for, in order.
pub open spec fn groups_deleted(actions: Seq<ActionView>) -> Seq<Seq<char>> {
    actions.filter_map(|action: ActionView| group_of(action))
}

/// The volumes whose deletion the actions ask for, in order.
pub open spec fn volumes_deleted(actions: Seq<ActionView>) -> Seq<Seq<char>> {
    actions.filter_map(|action: ActionView| volume_of(action))
}

/// The instances whose volumes the actions ask for, in order.
pub open spec fn instances_queried(actions: Seq<ActionView>) -> Seq<Seq<char>> {
    actions.filter_map(|action: ActionView| instance_of(action))
}

/// An optional identifier as a list of at most one.
pub open spec fn listed(id: Option<Seq<char>>) -> Seq<Seq<char>> {
    match id {
        Some(id) => seq![id],
        None => Seq::empty(),
    }
}

/// The phases in which the wait for the transition is not yet over.
pub open spec fn before_cleanup(phase: PhaseView) -> bool {
    phase is Discovering || phase is Requesting || phase is Polling || phase is Sleeping
        || phase is ResolvingGroups
}

pub proof fn lemma_emitted_push(actions: Seq<ActionView>, action: ActionView)
    ensures
        groups_deleted(actions.push(action)) == groups_deleted(actions) + listed(group_of(action)),
        volumes_deleted(actions.push(action)) == volumes_deleted(actions) + listed(
            volume_of(action),
        ),
        instances_queried(actions.push(action)) == instances_queried(actions) + listed(
            instance_of(action),
        ),
{
    assert(actions.push(action).drop_last() =~= actions);
    assert(groups_deleted(actions) + Seq::<Seq<char>>::empty() =~= groups_deleted(actions));
    assert(volumes_deleted(actions) + Seq::<Seq<char>>::empty() =~= volumes_deleted(actions));
    assert(instances_queried(actions) + Seq::<Seq<char>>::empty() =~= instances_queried(actions));
}

pub proof fn lemma_emitted_prepend(action: ActionView, actions: Seq<ActionView>)
    ensures
        groups_deleted(seq![action] + actions) == listed(group_of(action)) + groups_deleted(
            actions,
        ),
        volumes_deleted(seq![action] + actions) == listed(volume_of(action)) + volumes_deleted(
            actions,
        ),
        instances_queried(seq![action] + actions) == listed(instance_of(action))
            + instances_queried(actions),
    decreases actions.len(),
{
    let empty = Seq::<ActionView>::empty();
    if actions.len() == 0 {
        assert(seq![action] + actions =~= empty.push(action));
        lemma_emitted_push(empty, action);
        assert(groups_deleted(empty) + listed(group_of(action)) =~= listed(group_of(action))
            + groups_deleted(actions));
        assert(volumes_deleted(empty) + listed(volume_of(action)) =~= listed(volume_of(action))
            + volumes_deleted(actions));
        assert(instances_queried(empty) + listed(instance_of(action)) =~= listed(
            instance_of(action),
        ) + instances_queried(actions));
    } else {
        let front = actions.drop_last();
        let last = actions.last();
        lemma_emitted_prepend(action, front);
        assert(seq![action] + actions =~= (seq![action] + front).push(last));
        assert(actions =~= front.push(last));
        lemma_emitted_push(seq![action] + front, last);
        lemma_emitted_push(front, last);
        assert((listed(group_of(action)) + groups_deleted(front)) + listed(group_of(last))
            =~= listed(group_of(action)) + (groups_deleted(front) + listed(group_of(last))));
        assert((listed(volume_of(action)) + volumes_deleted(front)) + listed(volume_of(last))
            =~= listed(volume_of(action)) + (volumes_deleted(front) + listed(volume_of(last))));
        assert((listed(instance_of(action)) + instances_queried(front)) + listed(
            instance_of(last),
        ) =~= listed(instance_of(action)) + (instances_queried(front) + listed(
            instance_of(last),
        )));
    }
}

} // verus!
