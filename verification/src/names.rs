//! Lists of names: membership and the removal of repeated names.

use vstd::prelude::*;

verus! {

/// The texts of a list of strings.
pub open spec fn texts(list: Seq<String>) -> Seq<Seq<char>> {
    Seq::new(list.len(), |i: int| list[i]@)
}

/// The names of `list` in the order of their first occurrence, each once.
pub open spec fn distinct(list: Seq<Seq<char>>) -> Seq<Seq<char>>
    decreases list.len(),
{
    if list.len() == 0 {
        Seq::empty()
    } else {
        let head = distinct(list.drop_last());
        if head.contains(list.last()) {
            head
        } else {
            head.push(list.last())
        }
    }
}

/// `distinct` keeps every name of the list, adds none and holds none twice.
pub proof fn lemma_distinct(list: Seq<Seq<char>>)
    ensures
        distinct(list).no_duplicates(),
        distinct(list).len() <= list.len(),
        forall|name: Seq<char>| distinct(list).contains(name) <==> list.contains(name),
    decreases list.len(),
{
    if list.len() > 0 {
        let front = list.drop_last();
        lemma_distinct(front);
        let head = distinct(front);
        let out = distinct(list);
        assert forall|name: Seq<char>| out.contains(name) <==> list.contains(name) by {
            assert(distinct(front).contains(name) <==> front.contains(name));
            if out.contains(name) {
                let i = choose|i: int| 0 <= i < out.len() && out[i] == name;
                if i < head.len() {
                    assert(head[i] == name);
                    assert(head.contains(name));
                    let j = choose|j: int| 0 <= j < front.len() && front[j] == name;
                    assert(list[j] == name);
                } else {
                    assert(list[list.len() - 1] == name);
                }
            }
            if list.contains(name) {
                let j = choose|j: int| 0 <= j < list.len() && list[j] == name;
                if j < front.len() {
                    assert(front[j] == name);
                    assert(front.contains(name));
                    let i = choose|i: int| 0 <= i < head.len() && head[i] == name;
                    assert(out[i] == name);
                } else {
                    if head.contains(name) {
                    } else {
                        assert(out[out.len() - 1] == name);
                    }
                }
            }
        }
    }
}

/// Whether `list` holds `name`.
pub fn contains_name(list: &Vec<String>, name: &String) -> (found: bool)
    ensures
        found == texts(list@).contains(name@),
{
    let n = list.len();
    let mut i: usize = 0;
    while i < n
        invariant
            n == list@.len(),
            i <= n,
            forall|j: int| 0 <= j < i ==> texts(list@)[j] != name@,
        decreases n - i,
    {
        if list[i] == *name {
            assert(texts(list@)[i as int] == name@);
            return true;
        }
        i = i + 1;
    }
    false
}

/// The names of `list` in the order of their first occurrence, each once.
pub fn distinct_names(list: &Vec<String>) -> (out: Vec<String>)
    ensures
        texts(out@) == distinct(texts(list@)),
{
    let n = list.len();
    let mut out: Vec<String> = Vec::new();
    let mut i: usize = 0;
    assert(texts(list@).take(0) =~= Seq::<Seq<char>>::empty());
    assert(texts(out@) =~= Seq::<Seq<char>>::empty());
    while i < n
        invariant
            n == list@.len(),
            i <= n,
            texts(out@) == distinct(texts(list@).take(i as int)),
        decreases n - i,
    {
        let ghost before = out@;
        let found = contains_name(&out, &list[i]);
        if !found {
            out.push(list[i].clone());
        }
        proof {
            let upto = texts(list@).take(i + 1);
            assert(upto.drop_last() =~= texts(list@).take(i as int));
            assert(upto.last() == list@[i as int]@);
            if !found {
                assert(texts(out@) =~= texts(before).push(list@[i as int]@));
            }
        }
        i = i + 1;
    }
    assert(texts(list@).take(n as int) =~= texts(list@));
    out
}

} // verus!
