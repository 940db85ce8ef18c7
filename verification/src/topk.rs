//! Partial sorting of scored tokens, best first.

use std::cmp::Ordering;
use partial_sort::PartialSort;
use vstd::prelude::*;
use crate::token::TokenId;

verus! {

/// A token with the key of its logit.
pub type Scored = (i32, TokenId);

/// Orders scored tokens by falling key.
pub fn descending(a: &Scored, b: &Scored) -> (o: Ordering)
    ensures
        a.0 > b.0 ==> o is Less,
        a.0 == b.0 ==> o is Equal,
        a.0 < b.0 ==> o is Greater,
{
    if b.0 < a.0 {
        Ordering::Less
    } else if b.0 == a.0 {
        Ordering::Equal
    } else {
        Ordering::Greater
    }
}

/// What the partial sort of `items` by falling key, up to position `last`,
/// leaves in their place.
pub uninterp spec fn partial_sorted(items: Seq<Scored>, last: usize) -> Seq<Scored>;

/// Rearranges `items` so that its first `last` places hold the tokens with
/// the largest keys, by falling key.
///
/// Trusted: calls `partial_sort` of the crate `partial_sort` with
/// [`descending`] as the order. It builds a heap of the first `last` items,
/// exchanges its root with every later item that is ordered before it, and
/// sorts the heap: the items are permuted, the first `last` end sorted, and
/// no later item is ordered before any of them. It panics where `last`
/// exceeds the length, which the precondition excludes.
#[verifier::external_body]
pub(crate) fn partial_sort_descending(items: &mut Vec<Scored>, last: usize)
    requires
        last <= old(items).len(),
    ensures
        final(items)@ == partial_sorted(old(items)@, last),
        final(items)@.to_multiset() == old(items)@.to_multiset(),
        forall|i: int, j: int| 0 <= i < j < last ==> final(items)@[i].0 >= final(items)@[j].0,
        forall|i: int, j: int|
            0 <= i < last <= j < final(items)@.len() ==> final(items)@[i].0 >= final(items)@[j].0,
{
    items.partial_sort(last, |a, b| descending(a, b));
}

} // verus!
