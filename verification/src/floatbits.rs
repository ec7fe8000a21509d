//! IEEE-754 doubles as bit patterns, ordered and sampled without ever
//! holding a native float.
//!
//! A double's bit pattern maps monotonically onto a `u64` key (the
//! IEEE-754 total order): flip all bits of a negative, set the sign bit
//! of a non-negative.  Bounds checking and range sampling then work on
//! keys with plain integer arithmetic, so the whole path is verified;
//! only the uniform integer draw is trusted.  This orders `-0.0` just
//! below `+0.0` where the native comparison calls them equal.

use vstd::prelude::*;

use crate::rng::rand_u64_in;

verus! {

/// The sign bit of a double's bit pattern.
pub open spec fn f64_sign_mask() -> u64 {
    0x8000_0000_0000_0000u64
}

/// Whether the bit pattern encodes a finite double: its exponent field
/// is not all ones (which would mean an infinity or a NaN).
pub open spec fn f64_bits_finite(a: u64) -> bool {
    (a >> 52u64) & 0x7FFu64 != 0x7FFu64
}

/// The total-order key of a double's bit pattern.
pub open spec fn f64_order_key(a: u64) -> u64 {
    if a & f64_sign_mask() != 0u64 {
        !a
    } else {
        a | f64_sign_mask()
    }
}

/// Whether the first double sorts strictly below the second in the
/// total order.
pub open spec fn f64_bits_lt(a: u64, b: u64) -> bool {
    f64_order_key(a) < f64_order_key(b)
}

/// Whether the bit pattern encodes a finite double.
pub fn f64_bits_is_finite(a: u64) -> (r: bool)
    ensures
        r == f64_bits_finite(a),
{
    (a >> 52u64) & 0x7FFu64 != 0x7FFu64
}

/// Whether the first double sorts strictly below the second.
pub fn f64_bits_less(a: u64, b: u64) -> (r: bool)
    ensures
        r == f64_bits_lt(a, b),
{
    let ka = if a & 0x8000_0000_0000_0000u64 != 0u64 {
        !a
    } else {
        a | 0x8000_0000_0000_0000u64
    };
    let kb = if b & 0x8000_0000_0000_0000u64 != 0u64 {
        !b
    } else {
        b | 0x8000_0000_0000_0000u64
    };
    ka < kb
}

/// The bit pattern whose total-order key is `k`.
fn f64_from_key(k: u64) -> (r: u64)
    ensures
        f64_order_key(r) == k,
{
    let r = if k & 0x8000_0000_0000_0000u64 != 0u64 {
        k & 0x7FFF_FFFF_FFFF_FFFFu64
    } else {
        !k
    };
    proof {
        assert(f64_order_key(if k & 0x8000_0000_0000_0000u64 != 0u64 {
            k & 0x7FFF_FFFF_FFFF_FFFFu64
        } else {
            !k
        }) == k) by (bit_vector);
    }
    r
}

/// Between two finite doubles lie only finite doubles.
proof fn lemma_key_range_finite(lo: u64, hi: u64, k: u64, r: u64)
    requires
        f64_bits_finite(lo),
        f64_bits_finite(hi),
        f64_order_key(lo) <= k < f64_order_key(hi),
        f64_order_key(r) == k,
    ensures
        f64_bits_finite(r),
{
    assert({
        let klo = f64_order_key(lo);
        let khi = f64_order_key(hi);
        let kr = f64_order_key(r);
        (f64_bits_finite(lo) && f64_bits_finite(hi) && klo <= kr < khi) ==> f64_bits_finite(r)
    }) by (bit_vector);
}

/// Between two finite doubles, inclusive, lie only finite doubles.
proof fn lemma_key_range_finite_to(lo: u64, hi: u64, k: u64, r: u64)
    requires
        f64_bits_finite(lo),
        f64_bits_finite(hi),
        f64_order_key(lo) <= k <= f64_order_key(hi),
        f64_order_key(r) == k,
    ensures
        f64_bits_finite(r),
{
    assert({
        let klo = f64_order_key(lo);
        let khi = f64_order_key(hi);
        let kr = f64_order_key(r);
        (f64_bits_finite(lo) && f64_bits_finite(hi) && klo <= kr <= khi) ==> f64_bits_finite(r)
    }) by (bit_vector);
}

/// A double drawn from `[lo, hi]` in the total order, both ends
/// included: uniform over the representable doubles of the range.
pub fn sample_f64_bits_to(lo: u64, hi: u64) -> (r: u64)
    requires
        f64_bits_finite(lo),
        f64_bits_finite(hi),
        !f64_bits_lt(hi, lo),
    ensures
        !f64_bits_lt(r, lo),
        !f64_bits_lt(hi, r),
        f64_bits_finite(r),
{
    let klo = if lo & 0x8000_0000_0000_0000u64 != 0u64 {
        !lo
    } else {
        lo | 0x8000_0000_0000_0000u64
    };
    let khi = if hi & 0x8000_0000_0000_0000u64 != 0u64 {
        !hi
    } else {
        hi | 0x8000_0000_0000_0000u64
    };
    proof {
        assert({
            let k = f64_order_key(hi);
            f64_bits_finite(hi) ==> k < 0xFFFF_FFFF_FFFF_FFFFu64
        }) by (bit_vector);
    }
    let k = rand_u64_in(klo, khi + 1);
    let r = f64_from_key(k);
    proof {
        lemma_key_range_finite_to(lo, hi, k, r);
    }
    r
}

/// A double drawn from `[lo, hi)` in the total order: uniform over the
/// representable doubles of the range.
pub fn sample_f64_bits(lo: u64, hi: u64) -> (r: u64)
    requires
        f64_bits_finite(lo),
        f64_bits_finite(hi),
        f64_bits_lt(lo, hi),
    ensures
        !f64_bits_lt(r, lo),
        f64_bits_lt(r, hi),
        f64_bits_finite(r),
{
    let klo = if lo & 0x8000_0000_0000_0000u64 != 0u64 {
        !lo
    } else {
        lo | 0x8000_0000_0000_0000u64
    };
    let khi = if hi & 0x8000_0000_0000_0000u64 != 0u64 {
        !hi
    } else {
        hi | 0x8000_0000_0000_0000u64
    };
    let k = rand_u64_in(klo, khi);
    let r = f64_from_key(k);
    proof {
        lemma_key_range_finite(lo, hi, k, r);
    }
    r
}

} // verus!
