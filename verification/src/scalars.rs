//! Stateless generators for randomized scalar leaves.

use vstd::prelude::*;

use crate::error::ErrorKind;
use crate::error::EvalError;
use crate::error::err0;
use crate::floatbits::f64_bits_finite;
use crate::floatbits::f64_bits_is_finite;
use crate::floatbits::f64_bits_less;
use crate::floatbits::f64_bits_lt;
use crate::floatbits::sample_f64_bits;
use crate::floatbits::sample_f64_bits_to;
use crate::rng::is_alphanumeric_char;
use crate::rng::rand_alphanumeric_char;
use crate::rng::rand_i64_full;
use crate::rng::rand_i64_in;
use crate::rng::rand_usize_between;

verus! {

/// The bit pattern of the most negative finite double, the default lower
/// float bound.
pub const F64_MIN_BITS: u64 = 0xFFEF_FFFF_FFFF_FFFFu64;

/// The bit pattern of the largest finite double, the default upper float
/// bound.
pub const F64_MAX_BITS: u64 = 0x7FEF_FFFF_FFFF_FFFFu64;

/// Whether declared integer bounds leave a non-empty sampling range:
/// `[min, max)` with both, `[min, MAX)` with only a lower bound,
/// `(MIN, max)` with only an upper bound, the full range with neither.
pub open spec fn int_bounds_ok(min: Option<i64>, max: Option<i64>) -> bool {
    match (min, max) {
        (Option::Some(lo), Option::Some(hi)) => lo < hi,
        (Option::Some(lo), Option::None) => lo < i64::MAX,
        (Option::None, Option::Some(hi)) => i64::MIN + 1 < hi,
        (Option::None, Option::None) => true,
    }
}

/// Whether `v` lies in the range the declared integer bounds leave open.
pub open spec fn int_in_bounds(v: i64, min: Option<i64>, max: Option<i64>) -> bool {
    match (min, max) {
        (Option::Some(lo), Option::Some(hi)) => lo <= v < hi,
        (Option::Some(lo), Option::None) => lo <= v < i64::MAX,
        (Option::None, Option::Some(hi)) => i64::MIN < v < hi,
        (Option::None, Option::None) => true,
    }
}

/// A random integer within the declared bounds; `InvalidRange` when the
/// bounds leave an empty range, checked before any sampling.
pub fn generate_integer(min: Option<i64>, max: Option<i64>) -> (r: Result<i64, EvalError>)
    ensures
        match r {
            Result::Ok(v) => int_bounds_ok(min, max) && int_in_bounds(v, min, max),
            Result::Err(e) => !int_bounds_ok(min, max) && e@ == err0(ErrorKind::InvalidRange),
        },
{
    match (min, max) {
        (Option::Some(lo), Option::Some(hi)) => {
            if lo >= hi {
                Result::Err(EvalError::new(ErrorKind::InvalidRange))
            } else {
                Result::Ok(rand_i64_in(lo, hi))
            }
        },
        (Option::Some(lo), Option::None) => {
            if lo == i64::MAX {
                Result::Err(EvalError::new(ErrorKind::InvalidRange))
            } else {
                Result::Ok(rand_i64_in(lo, i64::MAX))
            }
        },
        (Option::None, Option::Some(hi)) => {
            if hi <= i64::MIN + 1 {
                Result::Err(EvalError::new(ErrorKind::InvalidRange))
            } else {
                Result::Ok(rand_i64_in(i64::MIN + 1, hi))
            }
        },
        (Option::None, Option::None) => Result::Ok(rand_i64_full()),
    }
}

/// The effective float bounds: a declared bit pattern, or the widest
/// finite double on the absent side.
pub open spec fn float_lo_of(min: Option<u64>) -> u64 {
    match min {
        Option::Some(b) => b,
        Option::None => F64_MIN_BITS,
    }
}

pub open spec fn float_hi_of(max: Option<u64>) -> u64 {
    match max {
        Option::Some(b) => b,
        Option::None => F64_MAX_BITS,
    }
}

/// Whether the effective float bounds are finite and leave a non-empty
/// range in the total order.
pub open spec fn float_bounds_ok(min: Option<u64>, max: Option<u64>) -> bool {
    &&& f64_bits_finite(float_lo_of(min))
    &&& f64_bits_finite(float_hi_of(max))
    &&& f64_bits_lt(float_lo_of(min), float_hi_of(max))
}

/// Whether the double `v` encodes lies in the range the declared float
/// bounds leave open: `[lo, hi)` in the total order, except that with
/// neither bound declared the whole finite range is open, its largest
/// double included.
pub open spec fn float_in_bounds(v: u64, min: Option<u64>, max: Option<u64>) -> bool {
    if min is None && max is None {
        !f64_bits_lt(v, F64_MIN_BITS) && !f64_bits_lt(F64_MAX_BITS, v)
    } else {
        !f64_bits_lt(v, float_lo_of(min)) && f64_bits_lt(v, float_hi_of(max))
    }
}

/// A random finite double (as its bit pattern) within the declared
/// bounds; `InvalidRange` when the bounds are not finite or leave an
/// empty range, checked before any sampling.
pub fn generate_float(min: Option<u64>, max: Option<u64>) -> (r: Result<u64, EvalError>)
    ensures
        match r {
            Result::Ok(v) => float_bounds_ok(min, max) && float_in_bounds(v, min, max)
                && f64_bits_finite(v),
            Result::Err(e) => !float_bounds_ok(min, max) && e@ == err0(ErrorKind::InvalidRange),
        },
{
    if min.is_none() && max.is_none() {
        if !f64_bits_is_finite(F64_MIN_BITS) || !f64_bits_is_finite(F64_MAX_BITS)
            || f64_bits_less(F64_MAX_BITS, F64_MIN_BITS) {
            return Result::Err(EvalError::new(ErrorKind::InvalidRange));
        }
        proof {
            assert(f64_bits_lt(0xFFEF_FFFF_FFFF_FFFFu64, 0x7FEF_FFFF_FFFF_FFFFu64))
                by (bit_vector);
        }
        return Result::Ok(sample_f64_bits_to(F64_MIN_BITS, F64_MAX_BITS));
    }
    let lo = match min {
        Option::Some(b) => b,
        Option::None => F64_MIN_BITS,
    };
    let hi = match max {
        Option::Some(b) => b,
        Option::None => F64_MAX_BITS,
    };
    if !f64_bits_is_finite(lo) || !f64_bits_is_finite(hi) || !f64_bits_less(lo, hi) {
        Result::Err(EvalError::new(ErrorKind::InvalidRange))
    } else {
        Result::Ok(sample_f64_bits(lo, hi))
    }
}

/// A random string of ASCII letters and digits whose length is drawn
/// uniformly from `[min_length, max_length]`, both ends included.
pub fn generate_random_string(min_length: usize, max_length: usize) -> (r: String)
    requires
        min_length <= max_length,
    ensures
        min_length <= r@.len() <= max_length,
        forall|i: int| 0 <= i < r@.len() ==> is_alphanumeric_char(#[trigger] r@[i]),
{
    let len = rand_usize_between(min_length, max_length);
    let mut s = String::new();
    let mut k: usize = 0;
    while k < len
        invariant
            k <= len,
            s@.len() == k,
            forall|i: int| 0 <= i < k ==> is_alphanumeric_char(#[trigger] s@[i]),
        decreases len - k,
    {
        let c = rand_alphanumeric_char();
        crate::strutil::push_char(&mut s, c);
        k = k + 1;
    }
    s
}

/// The effective length bounds of a string scalar: an absent bound is
/// taken as zero, so an unconstrained string scalar generates only its
/// prefix and suffix.
pub open spec fn len_lo_of(min_length: Option<usize>) -> usize {
    match min_length {
        Option::Some(n) => n,
        Option::None => 0usize,
    }
}

pub open spec fn len_hi_of(max_length: Option<usize>) -> usize {
    match max_length {
        Option::Some(n) => n,
        Option::None => 0usize,
    }
}

/// Whether `t` is a declared prefix, then a random portion of a length
/// within the declared bounds, then a declared suffix.
pub open spec fn string_scalar_shape(
    t: Seq<char>,
    min_length: Option<usize>,
    max_length: Option<usize>,
    prefix: Seq<char>,
    suffix: Seq<char>,
) -> bool {
    exists|mid: Seq<char>|
        {
            &&& t == prefix + mid + suffix
            &&& len_lo_of(min_length) <= mid.len() <= len_hi_of(max_length)
            &&& forall|i: int| 0 <= i < mid.len() ==> is_alphanumeric_char(#[trigger] mid[i])
        }
}

/// A random string within the declared length bounds, wrapped with the
/// declared literal prefix and suffix; `InvalidRange` when the length
/// bounds are inverted, checked before any sampling.
pub fn generate_string_scalar(
    min_length: Option<usize>,
    max_length: Option<usize>,
    prefix: &String,
    suffix: &String,
) -> (r: Result<String, EvalError>)
    ensures
        match r {
            Result::Ok(t) => len_lo_of(min_length) <= len_hi_of(max_length)
                && string_scalar_shape(t@, min_length, max_length, prefix@, suffix@),
            Result::Err(e) => len_lo_of(min_length) > len_hi_of(max_length) && e@ == err0(
                ErrorKind::InvalidRange,
            ),
        },
{
    let lo = match min_length {
        Option::Some(n) => n,
        Option::None => 0usize,
    };
    let hi = match max_length {
        Option::Some(n) => n,
        Option::None => 0usize,
    };
    if lo > hi {
        return Result::Err(EvalError::new(ErrorKind::InvalidRange));
    }
    let portion = generate_random_string(lo, hi);
    let mut out = prefix.clone();
    out.append(portion.as_str());
    out.append(suffix.as_str());
    proof {
        assert(out@ == prefix@ + portion@ + suffix@);
        assert(string_scalar_shape(out@, min_length, max_length, prefix@, suffix@));
    }
    Result::Ok(out)
}

/// Whether a character is a lower-case hexadecimal digit.
pub open spec fn is_hex_lower(c: char) -> bool {
    ('0' <= c && c <= '9') || ('a' <= c && c <= 'f')
}

/// Whether the text has the shape of a version-4 UUID: five hyphenated
/// groups of lower-case hex digits, the version nibble `4`, and a
/// variant nibble in `8`, `9`, `a`, `b`.
pub open spec fn is_uuid_v4(t: Seq<char>) -> bool {
    &&& t.len() == 36
    &&& t[8] == '-' && t[13] == '-' && t[18] == '-' && t[23] == '-'
    &&& t[14] == '4'
    &&& (t[19] == '8' || t[19] == '9' || t[19] == 'a' || t[19] == 'b')
    &&& forall|i: int|
        0 <= i < 36 && i != 8 && i != 13 && i != 18 && i != 23 ==> is_hex_lower(#[trigger] t[i])
}

/// The character for one hexadecimal digit, lower case.
fn hex_char(d: usize) -> (c: char)
    requires
        d < 16,
    ensures
        is_hex_lower(c),
        d < 10 ==> c as int == '0' as int + d,
        d >= 10 ==> c as int == 'a' as int + d - 10,
{
    if d < 10 {
        (48u8 + d as u8) as char
    } else {
        (87u8 + d as u8) as char
    }
}

/// Append `n` random lower-case hex digits.
fn push_hex_n(s: &mut String, n: usize)
    ensures
        final(s)@.len() == old(s)@.len() + n,
        forall|i: int| 0 <= i < old(s)@.len() ==> #[trigger] final(s)@[i] == old(s)@[i],
        forall|i: int|
            old(s)@.len() <= i < final(s)@.len() ==> is_hex_lower(#[trigger] final(s)@[i]),
{
    let mut k: usize = 0;
    while k < n
        invariant
            k <= n,
            s@.len() == old(s)@.len() + k,
            forall|i: int| 0 <= i < old(s)@.len() ==> #[trigger] s@[i] == old(s)@[i],
            forall|i: int| old(s)@.len() <= i < s@.len() ==> is_hex_lower(#[trigger] s@[i]),
        decreases n - k,
    {
        let d = rand_usize_between(0, 15);
        let c = hex_char(d);
        crate::strutil::push_char(s, c);
        k = k + 1;
    }
}

/// A fresh random version-4 UUID in its canonical textual form.
pub fn uuid_v4() -> (r: String)
    ensures
        is_uuid_v4(r@),
{
    let mut s = String::new();
    push_hex_n(&mut s, 8);
    crate::strutil::push_char(&mut s, '-');
    push_hex_n(&mut s, 4);
    crate::strutil::push_char(&mut s, '-');
    crate::strutil::push_char(&mut s, '4');
    push_hex_n(&mut s, 3);
    crate::strutil::push_char(&mut s, '-');
    let variant = rand_usize_between(0, 3);
    let vc: char = if variant == 0 {
        '8'
    } else if variant == 1 {
        '9'
    } else if variant == 2 {
        'a'
    } else {
        'b'
    };
    crate::strutil::push_char(&mut s, vc);
    push_hex_n(&mut s, 3);
    crate::strutil::push_char(&mut s, '-');
    push_hex_n(&mut s, 12);
    proof {
        assert(is_uuid_v4(s@));
    }
    s
}

} // verus!
