//! Randomness and the clock, behind trusted wrappers.
//!
//! Everything here draws from the thread-local random generator or reads
//! the clock, which Verus cannot see into; each wrapper's contract states
//! only what the wrapped function's documentation promises.

use vstd::prelude::*;

verus! {

/// Whether a character is an ASCII letter or digit.
pub open spec fn is_alphanumeric_char(c: char) -> bool {
    ('0' <= c && c <= '9') || ('A' <= c && c <= 'Z') || ('a' <= c && c <= 'z')
}

/// Relies on rand's `Rng::gen_range` over `lo..hi`: a uniform draw from
/// the half-open range, which panics only when the range is empty.
#[verifier::external_body]
pub(crate) fn rand_i64_in(lo: i64, hi: i64) -> (r: i64)
    requires
        lo < hi,
    ensures
        lo <= r < hi,
{
    rand::Rng::gen_range(&mut rand::thread_rng(), lo..hi)
}

/// Relies on rand's `Rng::gen_range` over `lo..=hi`: a uniform draw from
/// the closed range, which panics only when the range is empty.
#[verifier::external_body]
pub(crate) fn rand_usize_between(lo: usize, hi: usize) -> (r: usize)
    requires
        lo <= hi,
    ensures
        lo <= r <= hi,
{
    rand::Rng::gen_range(&mut rand::thread_rng(), lo..=hi)
}

/// Relies on rand's `Rng::gen`: an unconstrained draw over the whole of
/// `i64`.  Nothing can be promised of the value.
#[verifier::external_body]
pub(crate) fn rand_i64_full() -> i64 {
    rand::Rng::gen(&mut rand::thread_rng())
}

/// Relies on rand's `Rng::gen`: an unconstrained draw over the whole of
/// `u64`.  Nothing can be promised of the value.
#[verifier::external_body]
pub(crate) fn rand_u64_full() -> u64 {
    rand::Rng::gen(&mut rand::thread_rng())
}

/// Relies on rand's `Rng::gen_range` over `lo..hi`: a uniform draw from
/// the half-open range, which panics only when the range is empty.
#[verifier::external_body]
pub(crate) fn rand_u64_in(lo: u64, hi: u64) -> (r: u64)
    requires
        lo < hi,
    ensures
        lo <= r < hi,
{
    rand::Rng::gen_range(&mut rand::thread_rng(), lo..hi)
}

/// Relies on rand's `Alphanumeric` distribution: a uniform draw from the
/// ASCII letters and digits.
#[verifier::external_body]
pub(crate) fn rand_alphanumeric_char() -> (c: char)
    ensures
        is_alphanumeric_char(c),
{
    rand::Rng::sample(&mut rand::thread_rng(), rand::distributions::Alphanumeric) as char
}

/// Relies on std's `SystemTime::now`, `duration_since` and `as_secs`:
/// whole seconds between the Unix epoch and now, or `None` for a clock
/// before the epoch.  Nothing can be promised of the value.  The three
/// calls stand in one body because the values between them (a
/// `SystemTime`, a `Duration`) are opaque std types that nothing here
/// could state anything about; the body only composes and converts.
#[verifier::external_body]
pub(crate) fn now_epoch_secs() -> Option<u64> {
    match std::time::SystemTime::now().duration_since(std::time::UNIX_EPOCH) {
        Ok(d) => Some(d.as_secs()),
        Err(_) => None,
    }
}

} // verus!
