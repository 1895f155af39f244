use std::collections::VecDeque;
use vstd::prelude::*;

verus! {

/// The identifiers that are present in a list of optional identifiers, in order.
pub open spec fn present(items: Seq<Option<Seq<char>>>) -> Seq<Seq<char>> {
    items.filter_map(|item: Option<Seq<char>>| item)
}

/// The list with every identifier kept at its first occurrence only.
pub open spec fn distinct(ids: Seq<Seq<char>>) -> Seq<Seq<char>>
    decreases ids.len(),
{
    if ids.len() == 0 {
        Seq::empty()
    } else {
        let rest = distinct(ids.drop_last());
        if rest.contains(ids.last()) {
            rest
        } else {
            rest.push(ids.last())
        }
    }
}

/// `distinct` lists exactly the identifiers of its argument, each once.
pub proof fn lemma_distinct(ids: Seq<Seq<char>>)
    ensures
        distinct(ids).no_duplicates(),
        distinct(ids).len() <= ids.len(),
        forall|id: Seq<char>| #[trigger] distinct(ids).contains(id) <==> ids.contains(id),
    decreases ids.len(),
{
    if ids.len() > 0 {
        let front = ids.drop_last();
        lemma_distinct(front);
        let rest = distinct(front);
        assert forall|id: Seq<char>| #[trigger] distinct(ids).contains(id) <==> ids.contains(
            id,
        ) by {
            if ids.contains(id) {
                let k = choose|k: int| 0 <= k < ids.len() && ids[k] == id;
                if k < ids.len() - 1 {
                    assert(front[k] == id);
                    assert(rest.contains(id));
                    let j = choose|j: int| 0 <= j < rest.len() && rest[j] == id;
                    assert(distinct(ids)[j] == id);
                } else {
                    if rest.contains(id) {
                    } else {
                        assert(distinct(ids)[rest.len() as int] == id);
                    }
                }
            }
            if distinct(ids).contains(id) {
                let j = choose|j: int| 0 <= j < distinct(ids).len() && distinct(ids)[j] == id;
                if j < rest.len() {
                    assert(rest[j] == id);
                    assert(rest.contains(id));
                    assert(front.contains(id));
                    let k = choose|k: int| 0 <= k < front.len() && front[k] == id;
                    assert(ids[k] == id);
                } else {
                    assert(ids[ids.len() - 1] == id);
                }
            }
        }
    }
}

/// Whether `id` occurs in `list`.
pub fn contains_id(list: &Vec<String>, id: &String) -> (found: bool)
    ensures
        found == list.deep_view().contains(id@),
{
    let mut i: usize = 0;
    while i < list.len()
        invariant
            i <= list.len(),
            forall|k: int| 0 <= k < i ==> list.deep_view()[k] != id@,
        decreases list.len() - i,
    {
        if list[i] == *id {
            assert(list.deep_view()[i as int] == id@);
            return true;
        }
        i += 1;
    }
    false
}

/// Appends `id` to `list` unless it is listed already.
pub fn push_distinct(list: &mut Vec<String>, id: String)
    ensures
        final(list).deep_view() == if old(list).deep_view().contains(id@) {
            old(list).deep_view()
        } else {
            old(list).deep_view().push(id@)
        },
{
    if !contains_id(list, &id) {
        list.push(id);
        assert(list.deep_view() =~= old(list).deep_view().push(id@));
    }
}

/// Collects the identifiers that are present, in order.
pub fn present_ids(items: &Vec<Option<String>>) -> (ids: Vec<String>)
    ensures
        ids.deep_view() == present(items.deep_view()),
{
    let mut ids: Vec<String> = Vec::new();
    let mut i: usize = 0;
    assert(items.deep_view().take(0) =~= Seq::empty());
    while i < items.len()
        invariant
            i <= items.len(),
            ids.deep_view() == present(items.deep_view().take(i as int)),
        decreases items.len() - i,
    {
        proof {
            items.deep_view().lemma_filter_map_take_succ(|item: Option<Seq<char>>| item, i as int);
        }
        let ghost before = ids.deep_view();
        match &items[i] {
            Some(id) => {
                ids.push(id.clone());
                assert(ids.deep_view() =~= before.push(id@));
            },
            None => {},
        }
        i += 1;
    }
    assert(items.deep_view().take(i as int) =~= items.deep_view());
    ids
}

/// Keeps the first occurrence of every identifier.
pub fn distinct_ids(ids: &Vec<String>) -> (kept: Vec<String>)
    ensures
        kept.deep_view() == distinct(ids.deep_view()),
{
    let mut kept: Vec<String> = Vec::new();
    let mut i: usize = 0;
    assert(ids.deep_view().take(0) =~= Seq::empty());
    while i < ids.len()
        invariant
            i <= ids.len(),
            kept.deep_view() == distinct(ids.deep_view().take(i as int)),
        decreases ids.len() - i,
    {
        assert(ids.deep_view().take(i + 1).drop_last() =~= ids.deep_view().take(i as int));
        push_distinct(&mut kept, ids[i].clone());
        i += 1;
    }
    assert(ids.deep_view().take(i as int) =~= ids.deep_view());
    kept
}

/// Copies a list of identifiers.
pub fn clone_ids(ids: &[String]) -> (copy: Vec<String>)
    ensures
        copy.deep_view() == ids.deep_view(),
{
    let mut copy: Vec<String> = Vec::new();
    let mut i: usize = 0;
    while i < ids.len()
        invariant
            i <= ids.len(),
            copy.deep_view() == ids.deep_view().take(i as int),
        decreases ids.len() - i,
    {
        let ghost before = copy.deep_view();
        copy.push(ids[i].clone());
        assert(copy.deep_view() =~= before.push(ids.deep_view()[i as int]));
        i += 1;
    }
    assert(ids.deep_view().take(i as int) =~= ids.deep_view());
    copy
}

/// Turns a list of identifiers into a queue with the same order.
pub fn to_queue(ids: Vec<String>) -> (queue: VecDeque<String>)
    ensures
        queue.deep_view() == ids.deep_view(),
{
    let mut queue: VecDeque<String> = VecDeque::new();
    let mut i: usize = 0;
    assert(queue.deep_view() =~= ids.deep_view().take(0));
    while i < ids.len()
        invariant
            i <= ids.len(),
            queue.deep_view() == ids.deep_view().take(i as int),
        decreases ids.len() - i,
    {
        let ghost before = queue.deep_view();
        queue.push_back(ids[i].clone());
        assert(queue.deep_view() =~= before.push(ids.deep_view()[i as int]));
        i += 1;
    }
    assert(ids.deep_view().take(i as int) =~= ids.deep_view());
    queue
}

/// Takes the identifier at the head of a queue, if there is one.
pub fn take_front(queue: &mut VecDeque<String>) -> (head: Option<String>)
    ensures
        match head {
            Some(id) => {
                &&& old(queue).deep_view().len() > 0
                &&& id@ == old(queue).deep_view()[0]
                &&& final(queue).deep_view() == old(queue).deep_view().drop_first()
            },
            None => {
                &&& old(queue).deep_view().len() == 0
                &&& final(queue).deep_view() == old(queue).deep_view()
            },
        },
{
    let head = queue.pop_front();
    proof {
        if head.is_some() {
            assert(queue.deep_view() =~= old(queue).deep_view().drop_first());
        } else {
            assert(queue.deep_view() =~= old(queue).deep_view());
        }
    }
    head
}

} // verus!
