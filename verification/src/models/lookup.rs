//! First-match lookup over association lists.
//!
//! Every container of this crate stores its entries as a vector of
//! key/value pairs aligned with the sampler that built it. A lookup
//! returns the value of the first entry whose key equals the query;
//! these are the shared specification and the shared scan.

use vstd::prelude::*;
use crate::models::mdp::Item;

verus! {

/// The keys of an association list, in order.
pub open spec fn keys_of<S, V>(pairs: Seq<(S, V)>) -> Seq<S> {
    pairs.map_values(|p: (S, V)| p.0)
}

/// The index of the first entry whose key is `key`, if any.
pub open spec fn spec_find<S, V>(pairs: Seq<(S, V)>, key: S) -> Option<int> {
    keys_of(pairs).index_of_first(key)
}

/// The value of the first entry whose key is `key`, if any.
pub open spec fn spec_lookup<S, V>(pairs: Seq<(S, V)>, key: S) -> Option<V> {
    match spec_find(pairs, key) {
        Some(k) => Some(pairs[k].1),
        None => None,
    }
}

/// Whether some entry has the key `key`.
pub open spec fn spec_contains_key<S, V>(pairs: Seq<(S, V)>, key: S) -> bool {
    keys_of(pairs).contains(key)
}

/// Whether all elements of a sequence are pairwise distinct.
pub open spec fn spec_distinct<T>(s: Seq<T>) -> bool {
    forall|i: int, j: int| 0 <= i < j < s.len() ==> s[i] != s[j]
}

/// A found index is exactly what `spec_find` returns.
pub proof fn lemma_find_characterization<S, V>(pairs: Seq<(S, V)>, key: S, i: int)
    requires
        0 <= i < pairs.len(),
        pairs[i].0 == key,
        forall|j: int| 0 <= j < i ==> pairs[j].0 != key,
    ensures
        spec_find(pairs, key) == Some(i),
{
    let ks = keys_of(pairs);
    assert(forall|j: int| 0 <= j < pairs.len() ==> ks[j] == pairs[j].0);
    ks.index_of_first_ensures(key);
    assert(ks.contains(key)) by {
        assert(ks[i] == key);
    }
    let m = ks.index_of_first(key).unwrap();
    if m < i {
        assert(pairs[m].0 != key);
    }
    if m > i {
        assert(ks[i] != key);
    }
}

/// Scans for the first entry whose key equals `key`.
pub(crate) fn find_first<S: Item, V>(pairs: &Vec<(S, V)>, key: &S) -> (r: Option<usize>)
    ensures
        (match r {
            Some(k) => k < pairs@.len() && spec_find(pairs@, *key) == Some(k as int),
            None => spec_find(pairs@, *key) is None,
        }),
{
    let ghost ks = keys_of(pairs@);
    let n: usize = pairs.len();
    let mut i: usize = 0;
    while i < n
        invariant
            n == pairs@.len(),
            i <= n,
            ks == keys_of(pairs@),
            forall|j: int| 0 <= j < i ==> pairs@[j].0 != *key,
        decreases n - i,
    {
        if pairs[i].0.item_eq(key) {
            proof {
                lemma_find_characterization(pairs@, *key, i as int);
            }
            return Some(i);
        }
        i = i + 1;
    }
    proof {
        assert(forall|j: int| 0 <= j < ks.len() ==> ks[j] == pairs@[j].0);
        ks.index_of_first_ensures(*key);
        if ks.contains(*key) {
            let w = choose|w: int| 0 <= w < ks.len() && ks[w] == *key;
            assert(pairs@[w].0 == *key);
        }
    }
    None
}

} // verus!
