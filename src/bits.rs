//! Helpers for packing small fields into a shared 32-bit word.
use core::ops::RangeInclusive;
use vstd::prelude::*;

verus! {

/// Relies on `RangeInclusive::start`: it returns the range's lower bound.
pub assume_specification<Idx>[ RangeInclusive::<Idx>::start ](r: &RangeInclusive<Idx>) -> (s: &Idx)
    ensures
        *s == r@.start,
;

/// Relies on `RangeInclusive::end`: it returns the range's upper bound.
pub assume_specification<Idx>[ RangeInclusive::<Idx>::end ](r: &RangeInclusive<Idx>) -> (e: &Idx)
    ensures
        *e == r@.end,
;

/// The word whose lowest `n` bits are set and all others clear.
pub open spec fn low_ones(n: nat) -> u32 {
    if n == 0 {
        0
    } else if n >= 32 {
        u32::MAX
    } else {
        u32::MAX >> ((32 - n) as u32)
    }
}

/// The mask of the inclusive bit range `start..=end` (empty when `start > end`).
pub open spec fn range_mask(start: u32, end: u32) -> u32 {
    if start <= end {
        low_ones((end - start + 1) as nat)
    } else {
        0
    }
}

/// `x` rotated left by `s` bits.
pub open spec fn rotl(x: u32, s: u32) -> u32 {
    if s == 0 {
        x
    } else {
        (x << s) | (x >> ((32 - s) as u32))
    }
}

/// The word `bits` with the field `(shift, mask)` set to `value & mask`, every
/// other bit kept.
pub open spec fn inserted(bits: u32, pair: (u32, u32), value: u32) -> u32 {
    (bits & !rotl(pair.1, pair.0)) | rotl(value & pair.1, pair.0)
}

/// The field `(shift, mask)` read from `bits`.
pub open spec fn extracted(bits: u32, pair: (u32, u32)) -> u32 {
    (bits >> pair.0) & pair.1
}

proof fn lemma_low_ones_step(n: nat)
    requires
        n < 32,
    ensures
        ((low_ones(n) << 1u32) | 1u32) == low_ones(n + 1),
{
    if n == 0 {
        assert(((0u32 << 1u32) | 1u32) == u32::MAX >> 31u32) by (bit_vector);
    } else if n == 31 {
        let m = low_ones(n);
        assert(m == u32::MAX >> 1u32);
        assert(((m << 1u32) | 1u32) == u32::MAX) by (bit_vector)
            requires
                m == u32::MAX >> 1u32,
        ;
    } else {
        let k: u32 = (32 - n) as u32;
        let m = low_ones(n);
        assert(m == u32::MAX >> k);
        assert(((m << 1u32) | 1u32) == u32::MAX >> ((k - 1) as u32)) by (bit_vector)
            requires
                m == u32::MAX >> k,
                2u32 <= k <= 31u32,
        ;
    }
}

/// Statically define a shift/mask pair as an inclusive range of bits.
pub fn bits(range: RangeInclusive<u32>) -> (r: (u32, u32))
    requires
        range@.start > range@.end || range@.end < 32,
    ensures
        r.0 == range@.start,
        r.1 == range_mask(range@.start, range@.end),
{
    let mut start: u32 = *range.start();
    let end: u32 = *range.end();
    let first: u32 = start;
    let mut mask: u32 = 0;
    if first > end {
        return (first, mask);
    }
    while start <= end
        invariant
            first == range@.start,
            end == range@.end,
            end < 32,
            first <= start <= end + 1,
            mask == low_ones((start - first) as nat),
        decreases end + 1 - start,
    {
        proof {
            lemma_low_ones_step((start - first) as nat);
        }
        mask = (mask << 1u32) | 1;
        start += 1;
    }
    (first, mask)
}

/// Insert the value of the bits defined by the shift/mask pair.
pub fn insert(bits: &mut u32, pair: (u32, u32), value: u32)
    requires
        pair.0 < 32,
    ensures
        *final(bits) == inserted(*old(bits), pair, value),
{
    let (shift, mask) = pair;
    let b0: u32 = *bits;
    // rotate right
    if shift >= 1 {
        *bits = (*bits >> shift) | (*bits << (32 - shift));
    }
    // unset
    *bits &= !mask;
    // set
    *bits |= value & mask;
    // unrotate (rotate left)
    if shift >= 1 {
        *bits = (*bits << shift) | (*bits >> (32 - shift));
    }
    proof {
        let b1 = *bits;
        if shift == 0 {
            assert(b1 == (b0 & !mask) | (value & mask));
        } else {
            assert(b1 == (((((b0 >> shift) | (b0 << ((32 - shift) as u32))) & !mask) | (value
                & mask)) << shift) | (((((b0 >> shift) | (b0 << ((32 - shift) as u32))) & !mask)
                | (value & mask)) >> ((32 - shift) as u32)));
            assert(b1 == (b0 & !((mask << shift) | (mask >> ((32 - shift) as u32)))) | (((value
                & mask) << shift) | ((value & mask) >> ((32 - shift) as u32)))) by (bit_vector)
                requires
                    1u32 <= shift < 32u32,
                    b1 == (((((b0 >> shift) | (b0 << ((32 - shift) as u32))) & !mask) | (value
                        & mask)) << shift) | (((((b0 >> shift) | (b0 << ((32 - shift) as u32)))
                        & !mask) | (value & mask)) >> ((32 - shift) as u32)),
            ;
        }
    }
}

/// Extract the value of the bits defined by the shift/mask pair.
pub fn extract(bits: u32, pair: (u32, u32)) -> (r: u32)
    requires
        pair.0 < 32,
    ensures
        r == extracted(bits, pair),
{
    let (shift, mask) = pair;
    (bits >> shift) & mask
}

/// Round trip of a field: for a pair made from a bit range of the word,
/// reading back a field just written gives the written value masked to the
/// field, and writing it leaves every bit outside the field as it was.
pub proof fn lemma_insert_extract(bits: u32, start: u32, end: u32, value: u32)
    requires
        start <= end < 32,
    ensures
        extracted(inserted(bits, (start, range_mask(start, end)), value), (start, range_mask(start, end)))
            == value & range_mask(start, end),
        (inserted(bits, (start, range_mask(start, end)), value) ^ bits) & !(range_mask(start, end)
            << start) == 0,
{
    let m = range_mask(start, end);
    let r = inserted(bits, (start, m), value);
    let k: u32 = (31 - end + start) as u32;
    if k == 0 {
        assert(u32::MAX == u32::MAX >> 0u32) by (bit_vector);
    }
    assert(m == u32::MAX >> k);
    if start == 0 {
        assert(r == (bits & !m) | (value & m));
        assert(((((bits & !m) | (value & m)) >> 0u32) & m) == value & m) by (bit_vector);
        assert(((((bits & !m) | (value & m)) ^ bits) & !(m << 0u32)) == 0u32) by (bit_vector);
    } else {
        assert(r == (bits & !((m << start) | (m >> ((32 - start) as u32)))) | (((value & m)
            << start) | ((value & m) >> ((32 - start) as u32))));
        assert((((bits & !((m << start) | (m >> ((32 - start) as u32)))) | (((value & m)
            << start) | ((value & m) >> ((32 - start) as u32)))) >> start) & m == value & m)
            by (bit_vector)
            requires
                m == u32::MAX >> k,
                1u32 <= start < 32u32,
                start <= k < 32u32,
        ;
        assert(((((bits & !((m << start) | (m >> ((32 - start) as u32)))) | (((value & m)
            << start) | ((value & m) >> ((32 - start) as u32)))) ^ bits) & !(m << start))
            == 0u32) by (bit_vector)
            requires
                m == u32::MAX >> k,
                1u32 <= start < 32u32,
                start <= k < 32u32,
        ;
    }
}

} // verus!
