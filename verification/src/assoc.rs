//! Specification helpers for association lists.
//!
//! The routing table and the bookkeeping maps are vectors of key-value
//! pairs with pairwise-distinct keys. These spec functions and lemmas give
//! them their map reading: membership, lookup, and the relation between
//! removing one entry and filtering.

use vstd::prelude::*;

verus! {

/// The keys of the pairs are pairwise distinct.
pub open spec fn keys_unique<K, V>(s: Seq<(K, V)>) -> bool {
    forall|i: int, j: int| 0 <= i < j < s.len() ==> (#[trigger] s[i]).0 != (#[trigger] s[j]).0
}

/// Some pair carries the key `k`.
pub open spec fn has_key<K, V>(s: Seq<(K, V)>, k: K) -> bool {
    exists|i: int| 0 <= i < s.len() && (#[trigger] s[i]).0 == k
}

/// Some pair is exactly `(k, v)`.
pub open spec fn maps_to<K, V>(s: Seq<(K, V)>, k: K, v: V) -> bool {
    exists|i: int| 0 <= i < s.len() && #[trigger] s[i] == (k, v)
}

/// The keep-predicate that drops the pairs carrying `id`.
pub open spec fn key_keep<K, V>(id: K) -> spec_fn((K, V)) -> bool {
    |p: (K, V)| p.0 != id
}

/// `s` without the pairs carrying `id`.
pub open spec fn without_key<K, V>(s: Seq<(K, V)>, id: K) -> Seq<(K, V)> {
    s.filter(key_keep(id))
}

/// The keep-predicate that drops the elements equal to `x`.
pub open spec fn not_value<A>(x: A) -> spec_fn(A) -> bool {
    |c: A| c != x
}

/// `s` without the elements equal to `x`.
pub open spec fn without_value<A>(s: Seq<A>, x: A) -> Seq<A> {
    s.filter(not_value(x))
}

/// The keep-predicate that drops the pairs whose value is `v`.
pub open spec fn snd_ne<K, V>(v: V) -> spec_fn((K, V)) -> bool {
    |p: (K, V)| p.1 != v
}

/// `s` without the pairs whose value is `v`.
pub open spec fn without_snd<K, V>(s: Seq<(K, V)>, v: V) -> Seq<(K, V)> {
    s.filter(snd_ne(v))
}

/// A sequence whose elements all satisfy `keep` is unchanged by filtering.
pub proof fn lemma_filter_all_kept<A>(s: Seq<A>, keep: spec_fn(A) -> bool)
    requires
        forall|i: int| 0 <= i < s.len() ==> keep(#[trigger] s[i]),
    ensures
        s.filter(keep) == s,
    decreases s.len(),
{
    reveal(Seq::filter);
    if s.len() > 0 {
        lemma_filter_all_kept(s.drop_last(), keep);
        assert(s.filter(keep) =~= s);
    } else {
        assert(s.filter(keep) =~= s);
    }
}

/// Filtering is idempotent.
pub proof fn lemma_filter_idempotent<A>(s: Seq<A>, keep: spec_fn(A) -> bool)
    ensures
        s.filter(keep).filter(keep) == s.filter(keep),
{
    let f = s.filter(keep);
    assert forall|i: int| 0 <= i < f.len() implies keep(#[trigger] f[i]) by {
        s.lemma_filter_pred(keep, i);
    }
    lemma_filter_all_kept(f, keep);
}

/// Removing the only index whose element fails `keep` is the same as
/// filtering by `keep`.
pub proof fn lemma_remove_is_filter<A>(s: Seq<A>, idx: int, keep: spec_fn(A) -> bool)
    requires
        0 <= idx < s.len(),
        !keep(s[idx]),
        forall|i: int| 0 <= i < s.len() && i != idx ==> keep(#[trigger] s[i]),
    ensures
        s.remove(idx) == s.filter(keep),
    decreases s.len(),
{
    reveal(Seq::filter);
    if idx == s.len() - 1 {
        lemma_filter_all_kept(s.drop_last(), keep);
        assert(s.remove(idx) =~= s.drop_last());
    } else {
        lemma_remove_is_filter(s.drop_last(), idx, keep);
        assert(s.remove(idx) =~= s.drop_last().remove(idx).push(s.last()));
    }
}

/// With pairwise-distinct keys, a key determines its value.
pub proof fn lemma_maps_to_unique<K, V>(s: Seq<(K, V)>, k: K, v1: V, v2: V)
    requires
        keys_unique(s),
        maps_to(s, k, v1),
        maps_to(s, k, v2),
    ensures
        v1 == v2,
{
    let i1 = choose|i: int| 0 <= i < s.len() && #[trigger] s[i] == (k, v1);
    let i2 = choose|i: int| 0 <= i < s.len() && #[trigger] s[i] == (k, v2);
    if i1 < i2 {
        assert(s[i1].0 != s[i2].0);
    } else if i2 < i1 {
        assert(s[i2].0 != s[i1].0);
    }
}

/// Every element of a filtered sequence occurs in the original.
pub proof fn lemma_filter_subset<A>(s: Seq<A>, keep: spec_fn(A) -> bool, i: int)
    requires
        0 <= i < s.filter(keep).len(),
    ensures
        s.contains(s.filter(keep)[i]),
    decreases s.len(),
{
    reveal(Seq::filter);
    if s.len() > 0 {
        let d = s.drop_last();
        if keep(s.last()) {
            if i < s.filter(keep).len() - 1 {
                lemma_filter_subset(d, keep, i);
                let j = choose|j: int| 0 <= j < d.len() && #[trigger] d[j] == s.filter(keep)[i];
                assert(s[j] == s.filter(keep)[i]);
            } else {
                assert(s[s.len() - 1] == s.filter(keep)[i]);
            }
        } else {
            lemma_filter_subset(d, keep, i);
            let j = choose|j: int| 0 <= j < d.len() && #[trigger] d[j] == s.filter(keep)[i];
            assert(s[j] == s.filter(keep)[i]);
        }
    }
}

/// Filtering keeps the keys pairwise distinct.
pub proof fn lemma_filter_keys_unique<K, V>(s: Seq<(K, V)>, keep: spec_fn((K, V)) -> bool)
    requires
        keys_unique(s),
    ensures
        keys_unique(s.filter(keep)),
    decreases s.len(),
{
    reveal(Seq::filter);
    if s.len() > 0 {
        let d = s.drop_last();
        assert(keys_unique(d));
        lemma_filter_keys_unique(d, keep);
        if keep(s.last()) {
            let f = d.filter(keep);
            assert forall|i: int| 0 <= i < f.len() implies (#[trigger] f[i]).0 != s.last().0 by {
                lemma_filter_subset(d, keep, i);
                let j = choose|j: int| 0 <= j < d.len() && #[trigger] d[j] == f[i];
                assert(s[j] == f[i]);
                assert(s[j].0 != s[s.len() - 1].0);
            }
            assert forall|a: int, b: int|
                0 <= a < b < s.filter(keep).len() implies (#[trigger] s.filter(keep)[a]).0 != (
            #[trigger] s.filter(keep)[b]).0 by {
                assert(s.filter(keep) =~= f.push(s.last()));
            }
        }
    }
}

} // verus!
