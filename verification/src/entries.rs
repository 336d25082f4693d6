//! The map of stored entries: a `BTreeMap` from `String` keys to `String`
//! values, whose contents are its `deep_view`.

use std::collections::BTreeMap;
use vstd::prelude::*;

verus! {

/// An empty map of entries.
pub fn empty_entries() -> (m: BTreeMap<String, String>)
    ensures
        m.deep_view() == Map::<Seq<char>, Seq<char>>::empty(),
{
    let m: BTreeMap<String, String> = BTreeMap::new();
    proof {
        broadcast use vstd::std_specs::btree::lemma_btree_map_deepview_dom;
        assert(m.deep_view().dom() == m@.dom().map(|k: String| k.deep_view()));
        assert(m.deep_view().dom() =~= Set::<Seq<char>>::empty());
        assert(m.deep_view() =~= Map::<Seq<char>, Seq<char>>::empty());
    }
    m
}

/// Calls `BTreeMap::insert` with a `String` key.
///
/// Claimed of it: afterwards the map's contents are the old contents with
/// `k` bound to `v` (`String`'s order compares the characters, so keys
/// with the same characters are the same key).
#[verifier::external_body]
pub(crate) fn insert_entry(m: &mut BTreeMap<String, String>, k: String, v: String)
    ensures
        final(m).deep_view() == old(m).deep_view().insert(k@, v@),
{
    m.insert(k, v);
}

/// Calls `BTreeMap::remove` with a `&str` key.
///
/// Claimed of it: it returns the value bound to `k`, if any, and afterwards
/// the map's contents are the old contents without `k`.
#[verifier::external_body]
pub(crate) fn remove_entry(m: &mut BTreeMap<String, String>, k: &str) -> (res: Option<String>)
    ensures
        final(m).deep_view() == old(m).deep_view().remove(k@),
        match res {
            Some(v) => old(m).deep_view().contains_key(k@) && v@ == old(m).deep_view()[k@],
            None => !old(m).deep_view().contains_key(k@),
        },
{
    m.remove(k)
}

} // verus!
