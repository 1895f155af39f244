use crate::ident::{distinct, lemma_distinct, present, present_ids, push_distinct};
use crate::model::{InstanceRef, InstanceRefView, VolumeRecord};
use vstd::prelude::*;

verus! {

/// The security groups of the listed instances, one list after the other.
pub open spec fn listed_groups(instances: Seq<InstanceRefView>) -> Seq<Seq<char>> {
    instances.map_values(|instance: InstanceRefView| instance.security_groups).flatten()
}

/// The security groups to delete for the listed instances: the union of their
/// groups, each group once, in order of first appearance.
pub open spec fn group_targets(instances: Seq<InstanceRefView>) -> Seq<Seq<char>> {
    distinct(listed_groups(instances))
}

/// The volumes to delete, given the answer to a volume query: those that
/// carry an identifier, in the order of the answer.
pub open spec fn volume_targets(answer: Seq<Option<Seq<char>>>) -> Seq<Seq<char>> {
    present(answer)
}

pub proof fn lemma_listed_groups_push(instances: Seq<InstanceRefView>, instance: InstanceRefView)
    ensures
        listed_groups(instances.push(instance)) == listed_groups(instances)
            + instance.security_groups,
{
    let f = |instance: InstanceRefView| instance.security_groups;
    assert(instances.push(instance).map_values(f) =~= instances.map_values(f).push(
        instance.security_groups,
    ));
    instances.map_values(f).lemma_flatten_push(instance.security_groups);
}

/// Computes the security groups to delete for the listed instances.
pub fn security_group_targets(instances: &Vec<&InstanceRef>) -> (groups: Vec<String>)
    ensures
        groups.deep_view() == group_targets(instances.deep_view()),
{
    let mut groups: Vec<String> = Vec::new();
    let mut i: usize = 0;
    proof {
        assert(instances.deep_view().take(0) =~= Seq::empty());
        assert(listed_groups(Seq::empty()) =~= Seq::empty());
        assert(groups.deep_view() =~= Seq::empty());
    }
    while i < instances.len()
        invariant
            i <= instances.len(),
            groups.deep_view() == group_targets(instances.deep_view().take(i as int)),
        decreases instances.len() - i,
    {
        let own = &instances[i].security_groups;
        let ghost seen = listed_groups(instances.deep_view().take(i as int));
        let mut j: usize = 0;
        assert(seen + own.deep_view().take(0) =~= seen);
        while j < own.len()
            invariant
                j <= own.len(),
                groups.deep_view() == distinct(seen + own.deep_view().take(j as int)),
            decreases own.len() - j,
        {
            proof {
                let next = seen + own.deep_view().take(j + 1);
                assert(next.drop_last() =~= seen + own.deep_view().take(j as int));
                assert(next.last() == own.deep_view()[j as int]);
            }
            push_distinct(&mut groups, own[j].clone());
            j += 1;
        }
        proof {
            assert(own.deep_view().take(j as int) =~= own.deep_view());
            assert(instances.deep_view().take(i + 1) =~= instances.deep_view().take(
                i as int,
            ).push(instances.deep_view()[i as int]));
            lemma_listed_groups_push(
                instances.deep_view().take(i as int),
                instances.deep_view()[i as int],
            );
        }
        i += 1;
    }
    assert(instances.deep_view().take(i as int) =~= instances.deep_view());
    groups
}

/// Picks the volumes to delete out of the answer to a volume query.
pub fn volume_ids(answer: &Vec<VolumeRecord>) -> (ids: Vec<String>)
    ensures
        ids.deep_view() == volume_targets(answer.deep_view()),
{
    let mut listed: Vec<Option<String>> = Vec::new();
    let mut i: usize = 0;
    while i < answer.len()
        invariant
            i <= answer.len(),
            listed.deep_view() == answer.deep_view().take(i as int),
        decreases answer.len() - i,
    {
        let ghost before = listed.deep_view();
        listed.push(answer[i].volume_id.clone());
        assert(listed.deep_view() =~= before.push(answer.deep_view()[i as int]));
        i += 1;
    }
    assert(answer.deep_view().take(i as int) =~= answer.deep_view());
    present_ids(&listed)
}

/// However many instances share a security group, it is a target once: the
/// targets hold no group twice, they are as many as there are different
/// groups among the instances, and each of them is a group of some instance.
pub proof fn law_group_targets_are_the_different_groups(instances: Seq<InstanceRefView>)
    ensures
        group_targets(instances).no_duplicates(),
        group_targets(instances).len() == listed_groups(instances).to_set().len(),
        forall|group: Seq<char>| #[trigger]
            group_targets(instances).contains(group) <==> exists|i: int|
                0 <= i < instances.len() && #[trigger] instances[i].security_groups.contains(group),
{
    let listed = listed_groups(instances);
    let targets = group_targets(instances);
    lemma_distinct(listed);
    targets.unique_seq_to_set();
    assert(targets.to_set() =~= listed.to_set());
    assert forall|group: Seq<char>| #[trigger]
        targets.contains(group) <==> exists|i: int|
            0 <= i < instances.len() && #[trigger] instances[i].security_groups.contains(
                group,
            ) by {
        lemma_listed_groups_contains(instances, group);
    }
}

proof fn lemma_listed_groups_contains(instances: Seq<InstanceRefView>, group: Seq<char>)
    ensures
        listed_groups(instances).contains(group) <==> exists|i: int|
            0 <= i < instances.len() && #[trigger] instances[i].security_groups.contains(group),
    decreases instances.len(),
{
    if instances.len() == 0 {
        assert(listed_groups(instances) =~= Seq::empty());
    } else {
        let front = instances.drop_last();
        let last = instances.last();
        lemma_listed_groups_contains(front, group);
        lemma_listed_groups_push(front, last);
        assert(instances =~= front.push(last));
        let all = listed_groups(front) + last.security_groups;
        if all.contains(group) {
            let k = choose|k: int| 0 <= k < all.len() && all[k] == group;
            if k < listed_groups(front).len() {
                assert(listed_groups(front)[k] == group);
                let i = choose|i: int|
                    0 <= i < front.len() && #[trigger] front[i].security_groups.contains(group);
                assert(instances[i] == front[i]);
            } else {
                assert(last.security_groups[k - listed_groups(front).len()] == group);
                assert(instances[instances.len() - 1].security_groups.contains(group));
            }
        }
        if exists|i: int|
            0 <= i < instances.len() && #[trigger] instances[i].security_groups.contains(group) {
            let i = choose|i: int|
                0 <= i < instances.len() && #[trigger] instances[i].security_groups.contains(group);
            if i < front.len() {
                assert(front[i].security_groups.contains(group));
                let k = choose|k: int|
                    0 <= k < listed_groups(front).len() && listed_groups(front)[k] == group;
                assert(all[k] == group);
            } else {
                let j = choose|j: int|
                    0 <= j < last.security_groups.len() && last.security_groups[j] == group;
                assert(all[listed_groups(front).len() + j] == group);
            }
        }
    }
}

} // verus!
