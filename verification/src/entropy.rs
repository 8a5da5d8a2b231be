//! The pseudo-random source.
//!
//! Every operation that consumes entropy takes the generator as an argument,
//! so a run is fixed by the seed the generator was made from.  Nothing is
//! known in advance about a draw beyond the bounds stated here.

use crate::fixed::{Fixed, SCALE};
use rand::Rng;
use rand::RngCore;
use rand_chacha::ChaCha8Rng;
use vstd::prelude::*;

verus! {

/// The generator, `rand_chacha::ChaCha8Rng`: nothing is known of what it
/// holds.
#[verifier::external_type_specification]
#[verifier::external_body]
pub struct ExChaCha8Rng(ChaCha8Rng);

/// `Rng::gen_ratio`: a yes-or-no draw that is true with the chance
/// `numerator / denominator`.  Believed of it: no numerator but zero gives a
/// sure `false`, and none but the denominator itself a sure `true`.
#[verifier::external_body]
pub(crate) fn flip(rng: &mut ChaCha8Rng, numerator: u32, denominator: u32) -> (heads: bool)
    requires
        denominator > 0,
        numerator <= denominator,
    ensures
        numerator == 0 ==> !heads,
        numerator == denominator ==> heads,
{
    rng.gen_ratio(numerator, denominator)
}

/// `Rng::gen_range` on an inclusive range of integers.  Believed of it: the
/// draw lies within the bounds.
#[verifier::external_body]
pub(crate) fn draw(rng: &mut ChaCha8Rng, low: i64, high: i64) -> (value: i64)
    requires
        low <= high,
    ensures
        low <= value <= high,
{
    rng.gen_range(low..=high)
}

/// `RngCore::next_u32`: the next 32 bits of the generator.  Nothing is
/// believed of them.
#[verifier::external_body]
pub(crate) fn bits(rng: &mut ChaCha8Rng) -> (bits: u32) {
    rng.next_u32()
}

/// The raw value of the fraction that 32 drawn bits stand for.
pub open spec fn fraction_of(bits: int) -> int {
    (bits / 0x100) * SCALE / 0x100_0000
}

/// The raw value of the number between minus one and one that 32 drawn bits
/// stand for.
pub open spec fn signed_unit_of(bits: int) -> int {
    (bits / 0x200) * (2 * SCALE) / 0x7f_ffff - SCALE
}

/// The raw value of the part of a range of `span` that 32 drawn bits stand
/// for.
pub open spec fn part_of(bits: int, span: int) -> int {
    (bits / 0x200) * span / 0x80_0000
}

/// `value` is the fraction that some 32 bits stand for.
pub open spec fn is_fraction(value: Fixed) -> bool {
    exists|bits: u32| value@ == #[trigger] fraction_of(bits as int)
}

/// `value` is the number between minus one and one that some 32 bits stand
/// for.
pub open spec fn is_signed_unit(value: Fixed) -> bool {
    exists|bits: u32| value@ == #[trigger] signed_unit_of(bits as int)
}

/// `value` is the part of a range of `span` that some 32 bits stand for.
pub open spec fn is_part(value: Fixed, span: int) -> bool {
    exists|bits: u32| value@ == #[trigger] part_of(bits as int, span)
}

/// Every number of `genes` is one that 32 bits stand for between minus one
/// and one.
pub open spec fn signed_units(genes: Seq<Fixed>) -> bool {
    forall|i: int| 0 <= i < genes.len() ==> is_signed_unit(#[trigger] genes[i])
}

/// What 32 bits stand for as a fraction lies from zero up to, but not
/// including, one.
pub proof fn lemma_fraction_range(value: Fixed)
    requires
        is_fraction(value),
    ensures
        0 <= value@ < SCALE,
{
}

/// What 32 bits stand for between minus one and one lies there.
pub proof fn lemma_signed_unit_range(value: Fixed)
    requires
        is_signed_unit(value),
    ensures
        -SCALE <= value@ <= SCALE,
{
    let bits = choose|bits: u32| value@ == #[trigger] signed_unit_of(bits as int);
    let upper = bits as int / 0x200;
    assert(0 <= upper * (2 * SCALE) <= 0x7f_ffff * (2 * SCALE)) by (nonlinear_arith)
        requires
            0 <= upper <= 0x7f_ffff,
            SCALE == 1_000_000_000,
    ;
}

/// The part of a range of `span` that the upper 23 of 32 drawn bits stand
/// for: one of 8,388,608 evenly spread numbers from zero up to, but not
/// including, `span`.
pub fn part(bits: u32, span: Fixed) -> (value: Fixed)
    requires
        span@ > 0,
    ensures
        value@ == part_of(bits as int, span@),
        0 <= value@ < span@,
{
    let upper: u128 = (bits / 0x200) as u128;
    assert(0 <= upper * span.raw <= 0x7f_ffff * span.raw < 0x80_0000 * span.raw
        <= 0x80_0000 * 0x7fff_ffff_ffff_ffff) by (nonlinear_arith)
        requires
            0 <= upper <= 0x7f_ffff,
            0 < span.raw <= 0x7fff_ffff_ffff_ffff,
    ;
    let raw: u128 = upper * (span.raw as u128) / 0x80_0000;
    assert(raw < span.raw) by (nonlinear_arith)
        requires
            raw == (upper * span.raw) / 0x80_0000,
            0 <= upper * span.raw < 0x80_0000 * span.raw,
    ;
    Fixed { raw: raw as i64 }
}

/// The fraction that the upper 24 of 32 drawn bits stand for: one of
/// 16,777,216 evenly spread numbers from zero up to, but not including, one.
pub fn fraction(bits: u32) -> (share: Fixed)
    ensures
        share@ == fraction_of(bits as int),
        0 <= share@ < SCALE,
{
    let upper: u64 = (bits / 0x100) as u64;
    let raw: u64 = upper * 1_000_000_000 / 0x100_0000;
    Fixed { raw: raw as i64 }
}

/// The number that the upper 23 of 32 drawn bits stand for: one of 8,388,608
/// evenly spread numbers from minus one to one, both included.
pub fn signed_unit(bits: u32) -> (value: Fixed)
    ensures
        value@ == signed_unit_of(bits as int),
        -SCALE <= value@ <= SCALE,
{
    let upper: u64 = (bits / 0x200) as u64;
    let raw: u64 = upper * 2_000_000_000 / 0x7f_ffff;
    Fixed { raw: raw as i64 - 1_000_000_000 }
}

} // verus!
