//! Levels, gains and times as IEEE 754 bit patterns.
//!
//! Patterns that are not NaN are ordered like the numbers they stand for: by
//! magnitude, with the sign in front. The two zeros count as equal.

use vstd::prelude::*;

use crate::shared::FULL_VOLUME;

verus! {

/// The magnitude bits of an `f32`.
pub open spec fn magnitude(bits: u32) -> int {
    bits as int % 0x8000_0000
}

/// The pattern is not a number.
pub open spec fn is_nan(bits: u32) -> bool {
    magnitude(bits) > 0x7f80_0000
}

/// A number that orders patterns as the values they stand for.
pub open spec fn rank(bits: u32) -> int {
    if bits < 0x8000_0000 {
        magnitude(bits)
    } else {
        -magnitude(bits)
    }
}

/// The value of `bits`, moved into the range from `lo` to `hi`. What is not a
/// number stays as it is.
pub open spec fn clamped(bits: u32, lo: u32, hi: u32) -> u32 {
    if is_nan(bits) {
        bits
    } else if rank(bits) < rank(lo) {
        lo
    } else if rank(bits) > rank(hi) {
        hi
    } else {
        bits
    }
}

fn rank_of(bits: u32) -> (r: i64)
    ensures
        r == rank(bits),
{
    let m = (bits % 0x8000_0000) as i64;
    if bits < 0x8000_0000 {
        m
    } else {
        -m
    }
}

/// Moves a value into the range from `lo` to `hi`.
pub fn clamp(bits: u32, lo: u32, hi: u32) -> (c: u32)
    ensures
        c == clamped(bits, lo, hi),
{
    if bits % 0x8000_0000 > 0x7f80_0000 {
        bits
    } else if rank_of(bits) < rank_of(lo) {
        lo
    } else if rank_of(bits) > rank_of(hi) {
        hi
    } else {
        bits
    }
}

/// Clamping gives a value inside the range, and leaves one that is there.
pub proof fn law_clamp_stays_in_range(bits: u32, lo: u32, hi: u32)
    requires
        rank(lo) <= rank(hi),
        !is_nan(bits),
    ensures
        rank(lo) <= rank(clamped(bits, lo, hi)) <= rank(hi),
        rank(lo) <= rank(bits) <= rank(hi) ==> clamped(bits, lo, hi) == bits,
        clamped(clamped(bits, lo, hi), lo, hi) == clamped(bits, lo, hi) || is_nan(lo) || is_nan(hi),
{
}

/// The bit pattern of one `f32::EPSILON` below `1.0f32`.
pub const JUST_BELOW_FULL: u32 = 0x3f7f_fffe;

/// The bit pattern of one `f32::EPSILON` above `1.0f32`.
pub const JUST_ABOVE_FULL: u32 = 0x3f80_0001;

/// A volume that is more than one `f32::EPSILON` away from full.
pub open spec fn scales(volume: u32) -> bool {
    !is_nan(volume) && (rank(volume) < rank(JUST_BELOW_FULL) || rank(volume) > rank(
        JUST_ABOVE_FULL,
    ))
}

/// Whether samples are scaled at this volume, rather than left as they are.
pub fn volume_acts(volume: u32) -> (yes: bool)
    ensures
        yes == scales(volume),
{
    volume % 0x8000_0000 <= 0x7f80_0000 && (rank_of(volume) < rank_of(JUST_BELOW_FULL)
        || rank_of(volume) > rank_of(JUST_ABOVE_FULL))
}

/// A volume that was set to full, or beyond, leaves samples as they are.
pub proof fn law_full_volume_changes_nothing(volume: u32)
    requires
        !is_nan(volume),
        rank(volume) >= rank(FULL_VOLUME),
    ensures
        !scales(clamped(volume, 0, FULL_VOLUME)),
{
}

/// A time in seconds, as the bits of an `f64`, with anything below zero, or not
/// a number, taken as zero.
pub open spec fn from_zero(bits: u64) -> u64 {
    let m = bits as int % 0x8000_0000_0000_0000;
    if m > 0x7ff0_0000_0000_0000 || (bits >= 0x8000_0000_0000_0000 && m > 0) {
        0
    } else {
        bits
    }
}

/// Takes a time below zero, or one that is not a number, as zero.
pub fn at_least_zero(bits: u64) -> (b: u64)
    ensures
        b == from_zero(bits),
{
    let m = bits % 0x8000_0000_0000_0000;
    if m > 0x7ff0_0000_0000_0000 || (bits >= 0x8000_0000_0000_0000 && m > 0) {
        0
    } else {
        bits
    }
}

/// Patterns are ordered like the numbers they stand for: positive ones by their
/// bits, negative ones the other way round, and no negative one above a positive
/// one. The two zeros are equal.
pub proof fn law_patterns_are_ordered_like_numbers(a: u32, b: u32)
    ensures
        a < 0x8000_0000 && b < 0x8000_0000 ==> (a < b <==> rank(a) < rank(b)),
        a >= 0x8000_0000 && b >= 0x8000_0000 ==> (a < b <==> rank(b) < rank(a)),
        a >= 0x8000_0000 && b < 0x8000_0000 ==> rank(a) <= rank(b),
        rank(0) == 0 && rank(0x8000_0000) == 0,
{
}

/// What is not a number lies beyond either infinity.
pub proof fn law_nan_lies_beyond_infinity(bits: u32)
    ensures
        is_nan(bits) <==> 0x7f80_0000 < bits < 0x8000_0000 || bits > 0xff80_0000,
{
}

/// Clamping moves what lies outside of the range to the nearest end of it, and
/// nothing else; what is not a number stays.
pub proof fn law_clamp_moves_only_what_is_outside(bits: u32, lo: u32, hi: u32)
    requires
        rank(lo) <= rank(hi),
    ensures
        !is_nan(bits) && rank(bits) < rank(lo) ==> clamped(bits, lo, hi) == lo,
        !is_nan(bits) && rank(bits) > rank(hi) ==> clamped(bits, lo, hi) == hi,
        rank(lo) <= rank(bits) <= rank(hi) || is_nan(bits) ==> clamped(bits, lo, hi) == bits,
{
}

/// A louder setting never gives a quieter level.
pub proof fn law_clamp_keeps_the_order(a: u32, b: u32, lo: u32, hi: u32)
    requires
        rank(lo) <= rank(hi),
        !is_nan(a),
        !is_nan(b),
        rank(a) <= rank(b),
    ensures
        rank(clamped(a, lo, hi)) <= rank(clamped(b, lo, hi)),
{
}

/// Any volume that is set below full, by more than a rounding error, acts on the
/// samples: silence, the quietest and the loudest of them included.
pub proof fn law_lower_volumes_act(volume: u32)
    ensures
        volume < 0x3f7f_fffe ==> scales(volume),
        0x3f7f_fffe <= volume <= 0x3f80_0001 ==> !scales(volume),
        0x3f80_0001 < volume <= 0x7f80_0000 ==> scales(volume),
        0x8000_0000 <= volume <= 0xff80_0000 ==> scales(volume),
{
}

/// A time is never taken as one before the start: times from zero on stay as they
/// are, and everything else becomes zero.
pub proof fn law_times_start_at_zero(bits: u64)
    ensures
        bits <= 0x7ff0_0000_0000_0000 ==> from_zero(bits) == bits,
        0x7ff0_0000_0000_0000 < bits < 0x8000_0000_0000_0000 ==> from_zero(bits) == 0,
        bits > 0x8000_0000_0000_0000 ==> from_zero(bits) == 0,
        bits == 0x8000_0000_0000_0000 ==> from_zero(bits) == bits,
        from_zero(bits) <= 0x7ff0_0000_0000_0000 || from_zero(bits) == 0x8000_0000_0000_0000,
{
}

} // verus!
