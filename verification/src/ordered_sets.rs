//! What the standard library's ordering gives the library's sets of pages:
//! `u32` keys are ordered as numbers, and a set's iterator yields its members
//! once each, in increasing order.
use std::collections::BTreeSet;
use vstd::prelude::*;
use vstd::std_specs::btree::spec_btree_keys_iter;
use vstd::std_specs::cmp::OrdSpec;
use vstd::std_specs::iter::IteratorSpec;

verus! {

/// The order of `u32` obeys the laws that the specifications of `BTreeSet`
/// rely on.
pub proof fn lemma_u32_keys_ordered()
    ensures
        vstd::laws_cmp::obeys_cmp::<u32>(),
{
    broadcast use vstd::laws_cmp::group_laws_cmp;
}

/// Two members of an increasing sequence, the earlier first, compare as less.
proof fn lemma_increasing_members<K: Ord>(s: Seq<K>, i: int, j: int)
    requires
        vstd::laws_cmp::obeys_cmp::<K>(),
        vstd::std_specs::btree::increasing_seq(s),
        0 <= i < j < s.len(),
    ensures
        s[i].cmp_spec(&s[j]) is Less,
{
}

/// The members of a set of pages, as its iterator yields them, are strictly
/// increasing and are exactly the set's members.
pub proof fn lemma_set_iteration_increasing(pages: &BTreeSet<u32>)
    ensures
        forall|i: int, j: int| 0 <= i < j < spec_btree_keys_iter(pages).remaining().len()
            ==> *spec_btree_keys_iter(pages).remaining()[i] < *spec_btree_keys_iter(pages).remaining()[j],
        spec_btree_keys_iter(pages).remaining().unref().to_set() == pages@,
{
    broadcast use vstd::laws_cmp::group_laws_cmp;

    let keys = spec_btree_keys_iter(pages).remaining();
    assert(vstd::laws_cmp::obeys_cmp::<u32>());
    assert(vstd::laws_cmp::obeys_cmp::<&u32>());
    assert(vstd::std_specs::btree::increasing_seq(keys));
    assert forall|i: int, j: int| 0 <= i < j < keys.len() implies *keys[i] < *keys[j] by {
        lemma_increasing_members(keys, i, j);
    }
}

} // verus!
