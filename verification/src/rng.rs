//! The crate's only untrusted boundary: two thin wrappers around `rand`.
//! Every caller is verified against their contracts, which state only what
//! holds of every possible outcome of the random source.

use crate::card::Card;
use rand::seq::SliceRandom;
use rand::Rng;
use vstd::prelude::*;

verus! {

/// Relies on rand's `SliceRandom::shuffle`: a Fisher-Yates pass that permutes
/// the slice in place by swaps, so the cards afterwards are exactly the cards
/// before, as a multiset.
#[verifier::external_body]
pub(crate) fn shuffle_cards(cards: &mut Vec<Card>)
    ensures
        final(cards)@.to_multiset() == old(cards)@.to_multiset(),
{
    cards.shuffle(&mut rand::thread_rng());
}

/// Relies on rand's `Rng::gen_range` on `0..n`: it returns a value of that
/// range, and panics when the range is empty, hence the `requires`.
#[verifier::external_body]
pub(crate) fn random_below(n: usize) -> (r: usize)
    requires
        n > 0,
    ensures
        r < n,
{
    rand::thread_rng().gen_range(0..n)
}

} // verus!
