//! Lists of the ids that stand in a map.

use std::collections::HashMap;
use vstd::prelude::*;

verus! {

broadcast use vstd::std_specs::hash::group_hash_axioms;

/// Whether `v` lists the ids in `ids`, each once, in whatever order.
pub open spec fn lists(v: Seq<u64>, ids: Set<u64>) -> bool {
    v.no_duplicates() && v.to_set() == ids
}

/// The ids of `m` that are not in `without`.
pub open spec fn ids_without<V>(m: Map<u64, V>, without: Seq<u64>) -> Set<u64> {
    m.dom().difference(without.to_set())
}

/// Whether `id` stands in `v`.
pub fn holds(v: &Vec<u64>, id: u64) -> (r: bool)
    ensures
        r == v@.contains(id),
{
    let mut i: usize = 0;
    while i < v.len()
        invariant
            i <= v.len(),
            forall|j: int| 0 <= j < i ==> v@[j] != id,
        decreases v.len() - i,
    {
        if v[i] == id {
            assert(v@[i as int] == id);
            return true;
        }
        i = i + 1;
    }
    false
}

/// The ids of `m`.
pub fn ids_of<V>(m: &HashMap<u64, V>) -> (v: Vec<u64>)
    ensures
        lists(v@, m@.dom()),
{
    let mut v: Vec<u64> = Vec::new();
    for id in it: m.keys()
        invariant
            it.seq().no_duplicates(),
            it.seq().unref().to_set() == m@.dom(),
            v@ == it.seq().unref().take(it.index()),
            v@.no_duplicates(),
            it.index() == it.seq().len() ==> v@.to_set() == m@.dom(),
    {
        assert(it.seq().unref().take(it.index() + 1) =~= v@.push(*id));
        assert(forall|j: int|
            0 <= j < v@.len() ==> it.seq()[j] != it.seq()[it.index()] && #[trigger] v@[j] != *id);
        assert(it.index() + 1 == it.seq().len() ==> it.seq().unref().take(it.index() + 1)
            =~= it.seq().unref());
        v.push(*id);
    }
    v
}

/// The ids of `m` that are not in `without`.
pub fn ids_of_without<V>(m: &HashMap<u64, V>, without: &Vec<u64>) -> (v: Vec<u64>)
    ensures
        lists(v@, ids_without(m@, without@)),
{
    let all = ids_of(m);
    let mut v: Vec<u64> = Vec::new();
    let mut i: usize = 0;
    while i < all.len()
        invariant
            i <= all.len(),
            lists(all@, m@.dom()),
            v@.no_duplicates(),
            forall|id: u64| #[trigger]
                v@.contains(id) <==> all@.take(i as int).contains(id) && !without@.contains(id),
        decreases all.len() - i,
    {
        let ghost before = v@;
        let id = all[i];
        proof {
            assert(all@.take(i + 1) =~= all@.take(i as int).push(id));
            assert(!all@.take(i as int).contains(id));
            assert(!before.contains(id));
            lemma_push_no_duplicates(before, id);
        }
        if !holds(without, id) {
            v.push(id);
        }
        proof {
            assert forall|x: u64| #[trigger]
                v@.contains(x) <==> all@.take(i + 1).contains(x) && !without@.contains(x) by {
                lemma_push_contains(all@.take(i as int), id, x);
                lemma_push_contains(before, id, x);
            }
        }
        i = i + 1;
    }
    proof {
        assert(all@.take(i as int) =~= all@);
        assert forall|x: u64| #[trigger]
            v@.to_set().contains(x) <==> ids_without(m@, without@).contains(x) by {
            assert(v@.contains(x) <==> all@.contains(x) && !without@.contains(x));
            assert(all@.to_set().contains(x) <==> m@.dom().contains(x));
        }
        assert(v@.to_set() =~= ids_without(m@, without@));
    }
    v
}

/// A list without duplicates has none either behind an id that it did not hold.
pub proof fn lemma_push_no_duplicates(s: Seq<u64>, a: u64)
    requires
        s.no_duplicates(),
        !s.contains(a),
    ensures
        s.push(a).no_duplicates(),
{
    assert forall|i: int| 0 <= i < s.len() implies s[i] != a by {
        assert(s.contains(s[i]));
    }
}

/// A list holds behind one more id what it held before, and that id.
pub proof fn lemma_push_contains(s: Seq<u64>, a: u64, x: u64)
    ensures
        s.push(a).contains(x) <==> s.contains(x) || x == a,
{
    if s.contains(x) {
        let i = choose|i: int| 0 <= i < s.len() && s[i] == x;
        assert(s.push(a)[i] == x);
    }
    if x == a {
        assert(s.push(a)[s.len() as int] == x);
    }
}

} // verus!
