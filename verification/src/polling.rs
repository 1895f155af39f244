use crate::discovery::ids_of;
use crate::model::{InstanceRecord, InstanceRecordView, InstanceRef, InstanceRefView, PowerState};
use vstd::prelude::*;

verus! {

/// Whether a record reports the instance `id` in power state `state`.
pub open spec fn shows(record: InstanceRecordView, id: Seq<char>, state: PowerState) -> bool {
    record.instance_id == Some(id) && record.state == Some(state)
}

/// Whether some record of a poll answer reports the instance `id` in `state`.
pub open spec fn reached(recs: Seq<InstanceRecordView>, id: Seq<char>, state: PowerState) -> bool {
    exists|k: int| 0 <= k < recs.len() && #[trigger] shows(recs[k], id, state)
}

/// The candidates that a poll answer confirms in `state`, in candidate order.
pub open spec fn confirmed(
    cands: Seq<InstanceRefView>,
    recs: Seq<InstanceRecordView>,
    state: PowerState,
) -> Seq<InstanceRefView> {
    cands.filter(|instance: InstanceRefView| reached(recs, instance.id, state))
}

/// The candidates that a poll answer does not confirm in `state`, in
/// candidate order.
pub open spec fn outstanding(
    cands: Seq<InstanceRefView>,
    recs: Seq<InstanceRecordView>,
    state: PowerState,
) -> Seq<InstanceRefView> {
    cands.filter(|instance: InstanceRefView| !reached(recs, instance.id, state))
}

pub proof fn lemma_split_push(
    cands: Seq<InstanceRefView>,
    instance: InstanceRefView,
    recs: Seq<InstanceRecordView>,
    state: PowerState,
)
    ensures
        confirmed(cands.push(instance), recs, state) == if reached(recs, instance.id, state) {
            confirmed(cands, recs, state).push(instance)
        } else {
            confirmed(cands, recs, state)
        },
        outstanding(cands.push(instance), recs, state) == if reached(recs, instance.id, state) {
            outstanding(cands, recs, state)
        } else {
            outstanding(cands, recs, state).push(instance)
        },
{
    cands.lemma_filter_push(
        instance,
        |instance: InstanceRefView| reached(recs, instance.id, state),
    );
    cands.lemma_filter_push(
        instance,
        |instance: InstanceRefView| !reached(recs, instance.id, state),
    );
}

/// Whether the poll answer reports the instance `id` in `state`.
pub fn has_reached(recs: &Vec<&InstanceRecord>, id: &String, state: PowerState) -> (yes: bool)
    ensures
        yes == reached(recs.deep_view(), id@, state),
{
    let mut i: usize = 0;
    while i < recs.len()
        invariant
            i <= recs.len(),
            forall|k: int| 0 <= k < i ==> !shows(#[trigger] recs.deep_view()[k], id@, state),
        decreases recs.len() - i,
    {
        let record = recs[i];
        let same_id = match &record.instance_id {
            Some(found) => *found == *id,
            None => false,
        };
        let same_state = match record.state {
            Some(found) => found == state,
            None => false,
        };
        if same_id && same_state {
            assert(shows(recs.deep_view()[i as int], id@, state));
            return true;
        }
        i += 1;
    }
    false
}

/// Splits the candidates by what a poll answer reports: first those confirmed
/// in `state`, then the others, each part in candidate order.
pub fn split_by_state<'a>(
    cands: &'a Vec<InstanceRef>,
    recs: &Vec<&InstanceRecord>,
    state: PowerState,
) -> (parts: (Vec<&'a InstanceRef>, Vec<&'a InstanceRef>))
    ensures
        parts.0.deep_view() == confirmed(cands.deep_view(), recs.deep_view(), state),
        parts.1.deep_view() == outstanding(cands.deep_view(), recs.deep_view(), state),
{
    let mut done: Vec<&InstanceRef> = Vec::new();
    let mut open: Vec<&InstanceRef> = Vec::new();
    let mut i: usize = 0;
    proof {
        assert(cands.deep_view().take(0) =~= Seq::empty());
        reveal(Seq::filter);
        assert(done.deep_view() =~= Seq::empty());
        assert(open.deep_view() =~= Seq::empty());
    }
    while i < cands.len()
        invariant
            i <= cands.len(),
            done.deep_view() == confirmed(cands.deep_view().take(i as int), recs.deep_view(), state),
            open.deep_view() == outstanding(
                cands.deep_view().take(i as int),
                recs.deep_view(),
                state,
            ),
        decreases cands.len() - i,
    {
        let instance = &cands[i];
        proof {
            assert(cands.deep_view().take(i + 1) =~= cands.deep_view().take(i as int).push(
                instance.deep_view(),
            ));
            lemma_split_push(
                cands.deep_view().take(i as int),
                instance.deep_view(),
                recs.deep_view(),
                state,
            );
        }
        let ghost done_before = done.deep_view();
        let ghost open_before = open.deep_view();
        if has_reached(recs, &instance.id, state) {
            done.push(instance);
            assert(done.deep_view() =~= done_before.push(instance.deep_view()));
        } else {
            open.push(instance);
            assert(open.deep_view() =~= open_before.push(instance.deep_view()));
        }
        i += 1;
    }
    assert(cands.deep_view().take(i as int) =~= cands.deep_view());
    (done, open)
}

/// The identifiers of the listed instances, in order.
pub fn instance_ids(instances: &Vec<&InstanceRef>) -> (ids: Vec<String>)
    ensures
        ids.deep_view() == ids_of(instances.deep_view()),
{
    let mut ids: Vec<String> = Vec::new();
    let mut i: usize = 0;
    while i < instances.len()
        invariant
            i <= instances.len(),
            ids.deep_view() == ids_of(instances.deep_view().take(i as int)),
        decreases instances.len() - i,
    {
        let ghost before = ids.deep_view();
        ids.push(instances[i].id.clone());
        assert(ids.deep_view() =~= before.push(instances.deep_view()[i as int].id));
        assert(ids.deep_view() =~= ids_of(instances.deep_view().take(i + 1)));
        i += 1;
    }
    assert(instances.deep_view().take(i as int) =~= instances.deep_view());
    ids
}

/// The poll answer parts the candidates in two. Every candidate is confirmed
/// or outstanding; the confirmed ones are those that the answer reports in
/// `state`, the outstanding ones are the others; and no identifier is on both
/// sides.
pub proof fn law_confirmed_or_outstanding(
    cands: Seq<InstanceRefView>,
    recs: Seq<InstanceRecordView>,
    state: PowerState,
)
    ensures
        confirmed(cands, recs, state).len() + outstanding(cands, recs, state).len() == cands.len(),
        forall|instance: InstanceRefView| #[trigger]
            confirmed(cands, recs, state).contains(instance) <==> cands.contains(instance)
                && reached(recs, instance.id, state),
        forall|instance: InstanceRefView| #[trigger]
            outstanding(cands, recs, state).contains(instance) <==> cands.contains(instance)
                && !reached(recs, instance.id, state),
        forall|id: Seq<char>|
            !(#[trigger] ids_of(confirmed(cands, recs, state)).contains(id) && ids_of(
                outstanding(cands, recs, state),
            ).contains(id)),
    decreases cands.len(),
{
    let done = confirmed(cands, recs, state);
    let open = outstanding(cands, recs, state);
    if cands.len() == 0 {
        reveal(Seq::filter);
    } else {
        let front = cands.drop_last();
        let last = cands.last();
        law_confirmed_or_outstanding(front, recs, state);
        lemma_split_push(front, last, recs, state);
        assert(cands =~= front.push(last));
        let front_done = confirmed(front, recs, state);
        let front_open = outstanding(front, recs, state);
        assert forall|instance: InstanceRefView| #[trigger]
            done.contains(instance) <==> cands.contains(instance) && reached(
                recs,
                instance.id,
                state,
            ) by {
            lemma_contains_push(front, last, instance);
            lemma_contains_push(front_done, last, instance);
        }
        assert forall|instance: InstanceRefView| #[trigger]
            open.contains(instance) <==> cands.contains(instance) && !reached(
                recs,
                instance.id,
                state,
            ) by {
            lemma_contains_push(front, last, instance);
            lemma_contains_push(front_open, last, instance);
        }
    }
    assert forall|id: Seq<char>|
        !(#[trigger] ids_of(done).contains(id) && ids_of(open).contains(id)) by {
        if ids_of(done).contains(id) && ids_of(open).contains(id) {
            let i = choose|i: int| 0 <= i < ids_of(done).len() && ids_of(done)[i] == id;
            let j = choose|j: int| 0 <= j < ids_of(open).len() && ids_of(open)[j] == id;
            assert(done.contains(done[i]));
            assert(open.contains(open[j]));
        }
    }
}

proof fn lemma_contains_push(
    list: Seq<InstanceRefView>,
    last: InstanceRefView,
    instance: InstanceRefView,
)
    ensures
        list.push(last).contains(instance) <==> list.contains(instance) || instance == last,
{
    let longer = list.push(last);
    if list.contains(instance) {
        let i = choose|i: int| 0 <= i < list.len() && list[i] == instance;
        assert(longer[i] == instance);
    }
    if instance == last {
        assert(longer[list.len() as int] == instance);
    }
}

/// Candidates that are all in the wanted state already are all confirmed,
/// and none is outstanding.
pub proof fn law_all_reached(
    cands: Seq<InstanceRefView>,
    recs: Seq<InstanceRecordView>,
    state: PowerState,
)
    requires
        forall|i: int| 0 <= i < cands.len() ==> reached(recs, #[trigger] cands[i].id, state),
    ensures
        confirmed(cands, recs, state) == cands,
        outstanding(cands, recs, state).len() == 0,
    decreases cands.len(),
{
    if cands.len() == 0 {
        reveal(Seq::filter);
        assert(confirmed(cands, recs, state) =~= cands);
    } else {
        let front = cands.drop_last();
        let last = cands.last();
        assert forall|i: int| 0 <= i < front.len() implies reached(
            recs,
            #[trigger] front[i].id,
            state,
        ) by {
            assert(front[i] == cands[i]);
        }
        law_all_reached(front, recs, state);
        lemma_split_push(front, last, recs, state);
        assert(cands =~= front.push(last));
        assert(reached(recs, cands[cands.len() - 1].id, state));
    }
}

/// When the poll answer reports nothing, no candidate is confirmed.
pub proof fn law_none_reached(cands: Seq<InstanceRefView>, state: PowerState)
    ensures
        confirmed(cands, Seq::empty(), state).len() == 0,
        outstanding(cands, Seq::empty(), state) == cands,
    decreases cands.len(),
{
    let recs = Seq::<InstanceRecordView>::empty();
    if cands.len() == 0 {
        reveal(Seq::filter);
        assert(outstanding(cands, recs, state) =~= cands);
    } else {
        let front = cands.drop_last();
        let last = cands.last();
        law_none_reached(front, state);
        lemma_split_push(front, last, recs, state);
        assert(cands =~= front.push(last));
    }
}

} // verus!
