use crate::ident::{distinct, distinct_ids, present, present_ids};
use crate::model::{InstanceRecord, InstanceRecordView, InstanceRef, InstanceRefView, Reservation};
use vstd::prelude::*;

verus! {

/// All instance records of an inventory answer, in the order the provider
/// returned them.
pub open spec fn records(answer: Seq<Seq<InstanceRecordView>>) -> Seq<InstanceRecordView> {
    answer.flatten()
}

/// The instance reference that a record gives rise to. A record without an
/// identifier gives none.
pub open spec fn candidate(record: InstanceRecordView) -> Option<InstanceRefView> {
    match record.instance_id {
        Some(id) => Some(
            InstanceRefView {
                id,
                state: record.state,
                security_groups: distinct(present(record.security_groups)),
            },
        ),
        None => None,
    }
}

/// The candidate set of a list of records: one reference for each record that
/// has an identifier, in the order of the records, whatever its power state.
pub open spec fn candidates(recs: Seq<InstanceRecordView>) -> Seq<InstanceRefView> {
    recs.filter_map(|record: InstanceRecordView| candidate(record))
}

/// The identifiers of a list of instance references, in order.
pub open spec fn ids_of(instances: Seq<InstanceRefView>) -> Seq<Seq<char>> {
    instances.map_values(|instance: InstanceRefView| instance.id)
}

pub proof fn lemma_candidates_push(recs: Seq<InstanceRecordView>, record: InstanceRecordView)
    ensures
        candidates(recs.push(record)) == match candidate(record) {
            Some(instance) => candidates(recs).push(instance),
            None => candidates(recs),
        },
{
    assert(recs.push(record).drop_last() =~= recs);
    assert(candidates(recs) + seq![candidate(record).unwrap()] =~= candidates(recs).push(
        candidate(record).unwrap(),
    ));
}

/// Lists the records of an inventory answer in provider order.
pub fn all_records<'a>(answer: &'a Vec<Reservation>) -> (recs: Vec<&'a InstanceRecord>)
    ensures
        recs.deep_view() == records(answer.deep_view()),
{
    let mut recs: Vec<&InstanceRecord> = Vec::new();
    let mut i: usize = 0;
    assert(answer.deep_view().take(0) =~= Seq::empty());
    assert(recs.deep_view() =~= Seq::empty());
    while i < answer.len()
        invariant
            i <= answer.len(),
            recs.deep_view() == records(answer.deep_view().take(i as int)),
        decreases answer.len() - i,
    {
        let group = &answer[i].instances;
        let ghost done = recs.deep_view();
        let mut j: usize = 0;
        assert(recs.deep_view() =~= done + group.deep_view().take(0));
        while j < group.len()
            invariant
                j <= group.len(),
                recs.deep_view() == done + group.deep_view().take(j as int),
            decreases group.len() - j,
        {
            let ghost before = recs.deep_view();
            recs.push(&group[j]);
            assert(recs.deep_view() =~= before.push(group.deep_view()[j as int]));
            assert(group.deep_view().take(j + 1) =~= group.deep_view().take(j as int).push(
                group.deep_view()[j as int],
            ));
            j += 1;
        }
        proof {
            assert(group.deep_view().take(j as int) =~= group.deep_view());
            assert(answer.deep_view()[i as int] == group.deep_view());
            assert(answer.deep_view().take(i + 1) =~= answer.deep_view().take(i as int).push(
                group.deep_view(),
            ));
            answer.deep_view().take(i as int).lemma_flatten_push(group.deep_view());
        }
        i += 1;
    }
    assert(answer.deep_view().take(i as int) =~= answer.deep_view());
    recs
}

/// Builds the candidate set from the records of an inventory answer.
pub fn candidates_from(recs: &Vec<&InstanceRecord>) -> (found: Vec<InstanceRef>)
    ensures
        found.deep_view() == candidates(recs.deep_view()),
{
    let mut found: Vec<InstanceRef> = Vec::new();
    let mut i: usize = 0;
    assert(recs.deep_view().take(0) =~= Seq::empty());
    assert(found.deep_view() =~= Seq::empty());
    while i < recs.len()
        invariant
            i <= recs.len(),
            found.deep_view() == candidates(recs.deep_view().take(i as int)),
        decreases recs.len() - i,
    {
        let record = recs[i];
        proof {
            assert(recs.deep_view().take(i + 1) =~= recs.deep_view().take(i as int).push(
                record.deep_view(),
            ));
            lemma_candidates_push(recs.deep_view().take(i as int), record.deep_view());
        }
        let ghost before = found.deep_view();
        match &record.instance_id {
            Some(id) => {
                let listed = present_ids(&record.security_groups);
                let groups = distinct_ids(&listed);
                let instance = InstanceRef {
                    id: id.clone(),
                    state: record.state,
                    security_groups: groups,
                };
                assert(Some(instance.deep_view()) == candidate(record.deep_view()));
                found.push(instance);
                assert(found.deep_view() =~= before.push(instance.deep_view()));
            },
            None => {},
        }
        i += 1;
    }
    assert(recs.deep_view().take(i as int) =~= recs.deep_view());
    found
}

/// The candidates by reference, in order.
pub fn borrowed<'a>(cands: &'a Vec<InstanceRef>) -> (refs: Vec<&'a InstanceRef>)
    ensures
        refs.deep_view() == cands.deep_view(),
{
    let mut refs: Vec<&InstanceRef> = Vec::new();
    let mut i: usize = 0;
    while i < cands.len()
        invariant
            i <= cands.len(),
            refs.deep_view() == cands.deep_view().take(i as int),
        decreases cands.len() - i,
    {
        let ghost before = refs.deep_view();
        refs.push(&cands[i]);
        assert(refs.deep_view() =~= before.push(cands.deep_view()[i as int]));
        i += 1;
    }
    assert(cands.deep_view().take(i as int) =~= cands.deep_view());
    refs
}

/// The identifiers of the candidates, in order.
pub fn candidate_ids(cands: &Vec<InstanceRef>) -> (ids: Vec<String>)
    ensures
        ids.deep_view() == ids_of(cands.deep_view()),
{
    let mut ids: Vec<String> = Vec::new();
    let mut i: usize = 0;
    while i < cands.len()
        invariant
            i <= cands.len(),
            ids.deep_view() == ids_of(cands.deep_view().take(i as int)),
        decreases cands.len() - i,
    {
        let ghost before = ids.deep_view();
        ids.push(cands[i].id.clone());
        assert(ids.deep_view() =~= before.push(cands.deep_view()[i as int].id));
        assert(ids.deep_view() =~= ids_of(cands.deep_view().take(i + 1)));
        i += 1;
    }
    assert(cands.deep_view().take(i as int) =~= cands.deep_view());
    ids
}

/// Discovery: the candidate set that an inventory answer holds, in provider
/// order. An answer without instances gives the empty set.
pub fn discover(answer: &Vec<Reservation>) -> (found: Vec<InstanceRef>)
    ensures
        found.deep_view() == candidates(records(answer.deep_view())),
{
    let recs = all_records(answer);
    candidates_from(&recs)
}

} // verus!
