//! Listing what a collection holds.

use core::hash::Hash;
use std::collections::HashMap;
use vstd::prelude::*;
use vstd::std_specs::hash::obeys_key_model;
use vstd::std_specs::iter::IteratorSpec;

verus! {

broadcast use vstd::std_specs::hash::group_hash_axioms;

/// Lists the keys of `map`: each key once, in no particular order.
pub fn key_list<K: Copy + Eq + Hash, V>(map: &HashMap<K, V>) -> (keys: Vec<K>)
    requires
        obeys_key_model::<K>(),
    ensures
        keys@.no_duplicates(),
        forall|k: K| #[trigger] keys@.contains(k) <==> map@.contains_key(k),
        keys@.len() == map@.len(),
{
    let mut keys: Vec<K> = Vec::new();
    for key in it: map.keys()
        invariant
            keys@ == it.seq().unref().take(it.index() as int),
    {
        keys.push(*key);
    }
    assert forall|k: K| #[trigger] keys@.contains(k) <==> map@.contains_key(k) by {
        assert(keys@ =~= map.keys().remaining().unref());
        assert(keys@.to_set() == map@.dom());
        assert(keys@.to_set().contains(k) <==> keys@.contains(k));
        assert(map@.dom().contains(k) <==> map@.contains_key(k));
    }
    keys
}

/// What a sequence contains after one more item has been pushed.
pub proof fn lemma_push_contains<T>(s: Seq<T>, item: T, other: T)
    ensures
        s.push(item).contains(other) <==> s.contains(other) || other == item,
{
    if s.contains(other) {
        let n = choose|n: int| 0 <= n < s.len() && s[n] == other;
        assert(s.push(item)[n] == other);
    }
    assert(s.push(item)[s.len() as int] == item);
}

/// The positions below `len` at which `keep` holds, in ascending order.
pub open spec fn positions(len: nat, keep: spec_fn(int) -> bool) -> Seq<usize> {
    Seq::new(len, |i: int| i as usize).filter(|i: usize| keep(i as int))
}

/// How the kept positions grow by one more.
pub proof fn lemma_positions_step(len: nat, keep: spec_fn(int) -> bool)
    requires
        len < usize::MAX,
    ensures
        positions(0, keep) == Seq::<usize>::empty(),
        positions(len + 1, keep) == (if keep(len as int) {
            positions(len, keep).push(len as usize)
        } else {
            positions(len, keep)
        }),
{
    reveal(Seq::filter);
    let shorter = Seq::new(len, |i: int| i as usize);
    let longer = Seq::new(len + 1, |i: int| i as usize);
    assert(longer.drop_last() =~= shorter);
}

/// The kept positions are exactly those at which `keep` holds, each once and
/// in ascending order.
pub proof fn lemma_positions(len: nat, keep: spec_fn(int) -> bool)
    requires
        len <= usize::MAX,
    ensures
        forall|i: usize| #[trigger]
            positions(len, keep).contains(i) <==> i < len && keep(i as int),
        forall|a: int, b: int|
            0 <= a < b < positions(len, keep).len() ==> positions(len, keep)[a] < positions(
                len,
                keep,
            )[b],
    decreases len,
{
    if len == 0 {
        reveal(Seq::filter);
    } else {
        let shorter = (len - 1) as nat;
        lemma_positions(shorter, keep);
        lemma_positions_step(shorter, keep);
        assert forall|i: usize| #[trigger]
            positions(len, keep).contains(i) <==> i < len && keep(i as int) by {
            lemma_push_contains(positions(shorter, keep), shorter as usize, i);
        }
        assert forall|a: int, b: int|
            0 <= a < b < positions(len, keep).len() implies positions(len, keep)[a] < positions(
            len,
            keep,
        )[b] by {
            if b == positions(shorter, keep).len() {
                assert(positions(shorter, keep).contains(positions(shorter, keep)[a]));
            }
        }
    }
}

} // verus!
