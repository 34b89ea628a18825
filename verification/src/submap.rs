//! The insertion-ordered subscriber map, backed by `indexmap`.
//!
//! A cell's subscribers form a mapping from callback identity to callback
//! handle whose insertion order is semantically meaningful: it governs
//! notification order. The map itself comes from the `indexmap` crate; this
//! module declares the type to the verifier, names its contents with
//! [`sub_entries`], and gives each operation the contract that the crate's
//! documentation states. A real map never holds the same key twice, so
//! where a contract speaks of [`key_index`], that chosen position is the
//! one place the key occurs.

use vstd::prelude::*;

verus! {

#[verifier::external_type_specification]
#[verifier::external_body]
#[verifier::reject_recursive_types(K)]
#[verifier::reject_recursive_types(V)]
#[verifier::reject_recursive_types(S)]
pub struct ExIndexMap<K, V, S>(indexmap::IndexMap<K, V, S>);

/// The entries of a subscriber map, as (key, value) pairs in insertion order.
pub uninterp spec fn sub_entries(m: indexmap::IndexMap<usize, usize>) -> Seq<(usize, usize)>;

/// Whether `k` occurs as a key in `s`.
pub open spec fn has_key(s: Seq<(usize, usize)>, k: usize) -> bool {
    exists|i: int| 0 <= i < s.len() && s[i].0 == k
}

/// The position of key `k` in `s` (meaningful when `k` occurs exactly once).
pub open spec fn key_index(s: Seq<(usize, usize)>, k: usize) -> int {
    choose|i: int| 0 <= i < s.len() && s[i].0 == k
}

/// The keys of `s`, in order.
pub open spec fn keys_of(s: Seq<(usize, usize)>) -> Seq<usize> {
    Seq::new(s.len(), |i: int| s[i].0)
}

/// No key occurs twice in `s`.
pub open spec fn unique_keys(s: Seq<(usize, usize)>) -> bool {
    forall|i: int, j: int| 0 <= i < j < s.len() ==> s[i].0 != s[j].0
}

/// A key occurs in the entries exactly when it occurs in the key sequence.
pub proof fn lemma_has_key_is_contains(s: Seq<(usize, usize)>, k: usize)
    ensures
        has_key(s, k) <==> keys_of(s).contains(k),
{
    if has_key(s, k) {
        let i = choose|i: int| 0 <= i < s.len() && s[i].0 == k;
        assert(keys_of(s)[i] == k);
    }
    if keys_of(s).contains(k) {
        let i = choose|i: int| 0 <= i < keys_of(s).len() && keys_of(s)[i] == k;
        assert(s[i].0 == k);
    }
}

/// Relies on indexmap's `IndexMap::new`: creates an empty map.
#[verifier::external_body]
pub(crate) fn map_new() -> (r: indexmap::IndexMap<usize, usize>)
    ensures
        sub_entries(r) == Seq::<(usize, usize)>::empty(),
{
    indexmap::IndexMap::new()
}

/// Relies on indexmap's `IndexMap::insert`: an existing equivalent key keeps
/// its place in the order and has its value replaced and the old one
/// returned; a new key is appended, last in order.
#[verifier::external_body]
pub(crate) fn map_insert(
    m: &mut indexmap::IndexMap<usize, usize>,
    k: usize,
    v: usize,
) -> (r: Option<usize>)
    ensures
        has_key(sub_entries(*old(m)), k) ==> ({
            let s = sub_entries(*old(m));
            let i = key_index(s, k);
            sub_entries(*final(m)) == s.update(i, (k, v)) && r == Some(s[i].1)
        }),
        !has_key(sub_entries(*old(m)), k) ==> ({
            sub_entries(*final(m)) == sub_entries(*old(m)).push((k, v)) && r == None::<usize>
        }),
{
    m.insert(k, v)
}

/// Relies on indexmap's `IndexMap::shift_remove`: the pair with the given
/// key is removed by shifting all of the pairs that follow it, preserving
/// their relative order; absent keys are a no-op.
#[verifier::external_body]
pub(crate) fn map_shift_remove(
    m: &mut indexmap::IndexMap<usize, usize>,
    k: usize,
) -> (r: Option<usize>)
    ensures
        has_key(sub_entries(*old(m)), k) ==> ({
            let s = sub_entries(*old(m));
            let i = key_index(s, k);
            sub_entries(*final(m)) == s.remove(i) && r == Some(s[i].1)
        }),
        !has_key(sub_entries(*old(m)), k) ==> ({
            sub_entries(*final(m)) == sub_entries(*old(m)) && r == None::<usize>
        }),
{
    m.shift_remove(&k)
}

/// Relies on indexmap's `IndexMap::values`: the values of the map, in their
/// insertion order.
#[verifier::external_body]
pub(crate) fn map_values(m: &indexmap::IndexMap<usize, usize>) -> (r: Vec<usize>)
    ensures
        r@ == Seq::new(sub_entries(*m).len(), |i: int| sub_entries(*m)[i].1),
{
    m.values().copied().collect()
}

} // verus!
