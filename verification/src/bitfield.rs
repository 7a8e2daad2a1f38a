//! Named bit ranges inside a fixed-width unsigned register value.
//!
//! A field is the half-open bit range `[lo, hi)` of its parent value. Reading
//! a field shifts it down to bit 0; writing a field replaces exactly those
//! bits and silently truncates a value that is too wide for the range, the
//! way a hardware register drops the bits it has no room for.
//!
//! Everything here works on a 64-bit parent. Narrower register values widen
//! losslessly to `u64`, use the same functions with `hi` no larger than their
//! own width, and narrow back: the contracts below bound the result so that
//! the narrowing loses nothing.

use vstd::prelude::*;

verus! {

/// The `width` lowest bits set; every bit for a width of 64 or more.
pub open spec fn low_mask(width: u64) -> u64 {
    if width >= 64 {
        0xffff_ffff_ffff_ffffu64
    } else {
        ((1u64 << width) - 1) as u64
    }
}

/// The bits `[lo, hi)` set, in place.
pub open spec fn range_mask(lo: u64, hi: u64) -> u64 {
    low_mask((hi - lo) as u64) << lo
}

/// A range that lies inside a 64-bit parent and holds at least one bit.
pub open spec fn valid_range(lo: u64, hi: u64) -> bool {
    lo < hi <= 64
}

/// The field `[lo, hi)` of `raw`, shifted down to bit 0.
pub open spec fn field_of(raw: u64, lo: u64, hi: u64) -> u64 {
    (raw >> lo) & low_mask((hi - lo) as u64)
}

/// `raw` with the field `[lo, hi)` replaced by the low `hi - lo` bits of
/// `value`; every other bit of `raw` is kept.
pub open spec fn field_put(raw: u64, lo: u64, hi: u64, value: u64) -> u64 {
    (raw & !range_mask(lo, hi)) | ((value & low_mask((hi - lo) as u64)) << lo)
}

/// The single bit `bit` of `raw`.
pub open spec fn flag_of(raw: u64, bit: u64) -> bool {
    field_of(raw, bit, (bit + 1) as u64) != 0
}

/// `raw` with the single bit `bit` set to `value`.
pub open spec fn flag_put(raw: u64, bit: u64, value: bool) -> u64 {
    field_put(raw, bit, (bit + 1) as u64, if value { 1u64 } else { 0u64 })
}

/// The mask of the `hi - lo` lowest bits, computed.
fn mask_of_width(lo: u32, hi: u32) -> (mask: u64)
    requires
        valid_range(lo as u64, hi as u64),
    ensures
        mask == low_mask((hi - lo) as u64),
{
    let width: u32 = hi - lo;
    if width >= 64 {
        0xffff_ffff_ffff_ffffu64
    } else {
        assert((1u64 << width) >= 1) by (bit_vector)
            requires
                width < 64,
        ;
        (1u64 << width) - 1
    }
}

/// Reads the field `[lo, hi)` of `raw`.
///
/// The result fits in `hi - lo` bits, so it narrows without loss to any type
/// at least that wide.
pub fn get_field(raw: u64, lo: u32, hi: u32) -> (r: u64)
    requires
        valid_range(lo as u64, hi as u64),
    ensures
        r == field_of(raw, lo as u64, hi as u64),
        r <= low_mask((hi - lo) as u64),
        hi - lo == 1 ==> r <= 1,
        hi - lo <= 8 ==> r <= 0xff,
        hi - lo <= 16 ==> r <= 0xffff,
        hi - lo <= 32 ==> r <= 0xffff_ffff,
{
    let mask = mask_of_width(lo, hi);
    let r = (raw >> lo) & mask;
    proof {
        let (l, h) = (lo as u64, hi as u64);
        lemma_field_bounded(raw, l, h);
        assert(h - l == 1 ==> low_mask((h - l) as u64) == 1) by (bit_vector)
            requires
                l < h <= 64,
        ;
        assert(h - l <= 8 ==> low_mask((h - l) as u64) <= 0xff) by (bit_vector)
            requires
                l < h <= 64,
        ;
        assert(h - l <= 16 ==> low_mask((h - l) as u64) <= 0xffff) by (bit_vector)
            requires
                l < h <= 64,
        ;
        assert(h - l <= 32 ==> low_mask((h - l) as u64) <= 0xffff_ffff) by (bit_vector)
            requires
                l < h <= 64,
        ;
    }
    r
}

/// Returns `raw` with the field `[lo, hi)` replaced by `value`, truncated to
/// the field's width. `raw` itself is not changed.
///
/// No bit at or above `hi` is touched, so a parent that fits in 8, 16 or 32
/// bits still does after a field below that width was written.
pub fn with_field(raw: u64, lo: u32, hi: u32, value: u64) -> (r: u64)
    requires
        valid_range(lo as u64, hi as u64),
    ensures
        r == field_put(raw, lo as u64, hi as u64, value),
        hi <= 8 && raw <= 0xff ==> r <= 0xff,
        hi <= 16 && raw <= 0xffff ==> r <= 0xffff,
        hi <= 32 && raw <= 0xffff_ffff ==> r <= 0xffff_ffff,
{
    let mask = mask_of_width(lo, hi);
    let r = (raw & !(mask << lo)) | ((value & mask) << lo);
    proof {
        let (l, h) = (lo as u64, hi as u64);
        assert(h <= 8 && raw <= 0xff ==> field_put(raw, l, h, value) <= 0xff) by (bit_vector)
            requires
                l < h <= 64,
        ;
        assert(h <= 16 && raw <= 0xffff ==> field_put(raw, l, h, value) <= 0xffff)
            by (bit_vector)
            requires
                l < h <= 64,
        ;
        assert(h <= 32 && raw <= 0xffff_ffff ==> field_put(raw, l, h, value) <= 0xffff_ffff)
            by (bit_vector)
            requires
                l < h <= 64,
        ;
    }
    r
}

/// Reads the single bit `bit` of `raw`.
pub fn get_flag(raw: u64, bit: u32) -> (r: bool)
    requires
        bit < 64,
    ensures
        r == flag_of(raw, bit as u64),
{
    get_field(raw, bit, bit + 1) != 0
}

/// Returns `raw` with the single bit `bit` set to `value`.
pub fn with_flag(raw: u64, bit: u32, value: bool) -> (r: u64)
    requires
        bit < 64,
    ensures
        r == flag_put(raw, bit as u64, value),
        bit < 8 && raw <= 0xff ==> r <= 0xff,
        bit < 16 && raw <= 0xffff ==> r <= 0xffff,
        bit < 32 && raw <= 0xffff_ffff ==> r <= 0xffff_ffff,
{
    with_field(raw, bit, bit + 1, if value { 1 } else { 0 })
}

/// A field never exceeds the largest value of its width.
pub proof fn lemma_field_bounded(raw: u64, lo: u64, hi: u64)
    requires
        valid_range(lo, hi),
    ensures
        field_of(raw, lo, hi) <= low_mask((hi - lo) as u64),
{
    assert(field_of(raw, lo, hi) <= low_mask((hi - lo) as u64)) by (bit_vector)
        requires
            lo < hi <= 64,
    ;
}

/// Writing a field and reading it back gives the value written, for every
/// value that fits the field's width.
pub proof fn lemma_round_trip(raw: u64, lo: u64, hi: u64, value: u64)
    requires
        valid_range(lo, hi),
        value <= low_mask((hi - lo) as u64),
    ensures
        field_of(field_put(raw, lo, hi, value), lo, hi) == value,
{
    assert(field_of(field_put(raw, lo, hi, value), lo, hi) == value) by (bit_vector)
        requires
            lo < hi <= 64,
            value <= low_mask((hi - lo) as u64),
    ;
}

/// Writing a field and reading it back gives the value written cut down to
/// the field's width: a value that is too wide is masked, never refused.
pub proof fn lemma_truncation(raw: u64, lo: u64, hi: u64, value: u64)
    requires
        valid_range(lo, hi),
    ensures
        field_of(field_put(raw, lo, hi, value), lo, hi) == value & low_mask((hi - lo) as u64),
{
    assert(field_of(field_put(raw, lo, hi, value), lo, hi) == value & low_mask((hi - lo) as u64))
        by (bit_vector)
        requires
            lo < hi <= 64,
    ;
}

/// Writing a field leaves every bit outside its range as it was.
pub proof fn lemma_outside_kept(raw: u64, lo: u64, hi: u64, value: u64)
    requires
        valid_range(lo, hi),
    ensures
        field_put(raw, lo, hi, value) & !range_mask(lo, hi) == raw & !range_mask(lo, hi),
        forall|bit: u64|
            bit < 64 && !(lo <= bit < hi) ==> #[trigger] flag_of(
                field_put(raw, lo, hi, value),
                bit,
            ) == flag_of(raw, bit),
{
    assert(field_put(raw, lo, hi, value) & !range_mask(lo, hi) == raw & !range_mask(lo, hi))
        by (bit_vector)
        requires
            lo < hi <= 64,
    ;
    assert forall|bit: u64| bit < 64 && !(lo <= bit < hi) implies #[trigger] flag_of(
        field_put(raw, lo, hi, value),
        bit,
    ) == flag_of(raw, bit) by {
        assert(flag_of(field_put(raw, lo, hi, value), bit) == flag_of(raw, bit)) by (bit_vector)
            requires
                lo < hi <= 64,
                bit < 64,
                !(lo <= bit < hi),
        ;
    }
}

/// Writing one field does not change what any field disjoint from it reads.
pub proof fn lemma_other_field_kept(raw: u64, lo: u64, hi: u64, value: u64, lo2: u64, hi2: u64)
    requires
        valid_range(lo, hi),
        valid_range(lo2, hi2),
        hi2 <= lo || hi <= lo2,
    ensures
        field_of(field_put(raw, lo, hi, value), lo2, hi2) == field_of(raw, lo2, hi2),
{
    assert(field_of(field_put(raw, lo, hi, value), lo2, hi2) == field_of(raw, lo2, hi2))
        by (bit_vector)
        requires
            lo < hi <= 64,
            lo2 < hi2 <= 64,
            hi2 <= lo || hi <= lo2,
    ;
}

/// Writing a field twice is the same as writing the second value once.
pub proof fn lemma_last_write_wins(raw: u64, lo: u64, hi: u64, first: u64, second: u64)
    requires
        valid_range(lo, hi),
    ensures
        field_put(field_put(raw, lo, hi, first), lo, hi, second) == field_put(raw, lo, hi, second),
{
    assert(field_put(field_put(raw, lo, hi, first), lo, hi, second) == field_put(
        raw,
        lo,
        hi,
        second,
    )) by (bit_vector)
        requires
            lo < hi <= 64,
    ;
}

} // verus!
