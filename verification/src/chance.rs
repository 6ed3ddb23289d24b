//! The two places where the engine draws on chance: the order of the cells
//! of a new board, and the key of each cell.

use rand::seq::SliceRandom;
use vstd::prelude::*;

verus! {

/// The bits of a cell's key that do not depend on chance: the version and
/// the variant of the identifier.
pub const KEY_FIXED_BITS: u128 = 0x0000_0000_0000_F000_C000_0000_0000_0000u128;

/// The value of those bits: version 4, variant 1.
pub const KEY_FIXED_VALUE: u128 = 0x0000_0000_0000_4000_8000_0000_0000_0000u128;

/// Shuffles `layout` in place with `rand::seq::SliceRandom::shuffle`, on
/// the generator that `rand::thread_rng` hands out.
///
/// Not proved: the shuffle only swaps elements, so what it leaves is a
/// rearrangement of what it found. Which one is left to chance. The call
/// panics where the operating system gives the generator no seed.
#[verifier::external_body]
pub(crate) fn shuffle_layout(layout: &mut Vec<bool>)
    ensures
        final(layout)@.to_multiset() == old(layout)@.to_multiset(),
{
    layout.shuffle(&mut rand::thread_rng());
}

/// Draws a key with `uuid::Uuid::new_v4` and hands it out as the number
/// that `uuid::Uuid::as_u128` gives.
///
/// Not proved: the bits for version and variant are those of a random
/// identifier; the other bits are left to chance. The call panics where
/// the operating system gives no random bytes.
#[verifier::external_body]
pub(crate) fn fresh_key() -> (key: u128)
    ensures
        key & KEY_FIXED_BITS == KEY_FIXED_VALUE,
{
    uuid::Uuid::new_v4().as_u128()
}

} // verus!
