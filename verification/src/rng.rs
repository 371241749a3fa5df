//! The seeded random number generator the game draws its chance from.
//!
//! The generator is `rand`'s `SmallRng`; callers seed it, so a whole game can be
//! replayed from its seed. Each function here makes one call of `rand::Rng`.

use rand::rngs::SmallRng;
use rand::Rng;
use rand::RngCore;
use vstd::prelude::*;

verus! {

/// `rand::rngs::SmallRng`, carried through the game logic as an opaque value.
#[verifier::external_type_specification]
#[verifier::external_body]
pub struct ExSmallRng(SmallRng);

/// `Rng::gen_range(lo..=hi)` on `usize`.
///
/// rand documents that the value is drawn from the inclusive range and that the call
/// panics only on an empty range, which `requires` rules out. Which value comes back
/// depends on the generator's state, so only the range is stated; the generator's new
/// state is left unsaid.
#[verifier::external_body]
pub(crate) fn gen_usize_inclusive(rng: &mut SmallRng, lo: usize, hi: usize) -> (r: usize)
    requires
        lo <= hi,
    ensures
        lo <= r <= hi,
{
    rng.gen_range(lo..=hi)
}

/// `Rng::gen_range(lo..=hi)` on `u8` (a die roll is `1..=6`).
///
/// Only the range of the result is stated: it depends on the generator's state.
#[verifier::external_body]
pub(crate) fn gen_u8_inclusive(rng: &mut SmallRng, lo: u8, hi: u8) -> (r: u8)
    requires
        lo <= hi,
    ensures
        lo <= r <= hi,
{
    rng.gen_range(lo..=hi)
}

/// `Rng::gen_range(0..bound)` on `u32`.
///
/// Only the range of the result is stated: it depends on the generator's state.
#[verifier::external_body]
pub(crate) fn gen_u32_below(rng: &mut SmallRng, bound: u32) -> (r: u32)
    requires
        0 < bound,
    ensures
        r < bound,
{
    rng.gen_range(0..bound)
}

/// `Rng::gen_range(0..bound)` on `i32`.
///
/// Only the range of the result is stated: it depends on the generator's state.
#[verifier::external_body]
pub(crate) fn gen_i32_below(rng: &mut SmallRng, bound: i32) -> (r: i32)
    requires
        0 < bound,
    ensures
        0 <= r < bound,
{
    rng.gen_range(0..bound)
}

/// `Rng::gen_ratio(numerator, denominator)`: `true` with chance numerator/denominator.
///
/// rand documents that the result is always `true` when the two are equal and always
/// `false` when the numerator is 0, and that the call panics when the denominator is 0
/// or below the numerator, which `requires` rules out. Otherwise the result depends on
/// the generator's state and is left unsaid.
#[verifier::external_body]
pub(crate) fn gen_ratio(rng: &mut SmallRng, numerator: u32, denominator: u32) -> (b: bool)
    requires
        0 < denominator,
        numerator <= denominator,
    ensures
        numerator == denominator ==> b,
        numerator == 0 ==> !b,
{
    rng.gen_ratio(numerator, denominator)
}

/// `Rng::gen_range(0..bound)` on `u16`.
///
/// Only the range of the result is stated: it depends on the generator's state.
#[verifier::external_body]
pub(crate) fn gen_u16_below(rng: &mut SmallRng, bound: u16) -> (r: u16)
    requires
        0 < bound,
    ensures
        r < bound,
{
    rng.gen_range(0..bound)
}

/// `RngCore::next_u64`: the next 64 random bits of the generator.
///
/// Any `u64` can come back: nothing is stated of the result, which depends on the
/// generator's state.
#[verifier::external_body]
pub(crate) fn next_u64(rng: &mut SmallRng) -> (r: u64) {
    rng.next_u64()
}

} // verus!
