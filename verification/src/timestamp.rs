//! The current instant rendered as `YYYY-MM-DDTHH:MM:SSZ` (UTC).
//!
//! Only the clock read is trusted; the proleptic-Gregorian conversion
//! from epoch seconds to calendar fields and the rendering are verified
//! against the spec-level calendar below.

use vstd::prelude::*;

use crate::rng::now_epoch_secs;
use crate::strutil::dec_digits;
use crate::strutil::push_char;
use crate::strutil::push_dec;

verus! {

pub open spec fn is_leap(y: nat) -> bool {
    y % 4 == 0 && (y % 100 != 0 || y % 400 == 0)
}

pub open spec fn days_in_year(y: nat) -> nat {
    if is_leap(y) {
        366
    } else {
        365
    }
}

pub open spec fn days_in_month(y: nat, m: nat) -> nat {
    if m == 2 {
        if is_leap(y) {
            29
        } else {
            28
        }
    } else if m == 4 || m == 6 || m == 9 || m == 11 {
        30
    } else {
        31
    }
}

/// The year holding the day `rem` days after the start of year `y`, and
/// the day's offset within that year.
pub open spec fn year_of(y: nat, rem: nat) -> (nat, nat)
    decreases rem,
{
    if rem >= days_in_year(y) {
        year_of(y + 1, (rem - days_in_year(y)) as nat)
    } else {
        (y, rem)
    }
}

/// The month holding the day `rem` days after the start of month `m` of
/// year `y`, and the day's offset within that month.
pub open spec fn month_of(y: nat, m: nat, rem: nat) -> (nat, nat)
    decreases 12 - m,
{
    if m < 12 && rem >= days_in_month(y, m) {
        month_of(y, m + 1, (rem - days_in_month(y, m)) as nat)
    } else {
        (m, rem)
    }
}

/// A number rendered with at least two digits.
pub open spec fn pad2(n: nat) -> Seq<char> {
    if n < 10 {
        seq!['0'] + dec_digits(n)
    } else {
        dec_digits(n)
    }
}

/// A number rendered with at least four digits.
pub open spec fn pad4(n: nat) -> Seq<char> {
    if n < 10 {
        seq!['0', '0', '0'] + dec_digits(n)
    } else if n < 100 {
        seq!['0', '0'] + dec_digits(n)
    } else if n < 1000 {
        seq!['0'] + dec_digits(n)
    } else {
        dec_digits(n)
    }
}

/// The textual timestamp of a count of seconds since the Unix epoch.
pub open spec fn ts_of_secs(secs: nat) -> Seq<char> {
    let days = secs / 86400;
    let daysecs = secs % 86400;
    let yp = year_of(1970, days);
    let mp = month_of(yp.0, 1, yp.1);
    let d = mp.1 + 1;
    let h = daysecs / 3600;
    let mi = (daysecs / 60) % 60;
    let s = daysecs % 60;
    pad4(yp.0) + seq!['-'] + pad2(mp.0) + seq!['-'] + pad2(d) + seq!['T'] + pad2(h) + seq![':']
        + pad2(mi) + seq![':'] + pad2(s) + seq!['Z']
}

/// Whether the text is the timestamp of some instant.
pub open spec fn is_timestamp_text(t: Seq<char>) -> bool {
    exists|secs: nat| t == ts_of_secs(secs)
}

fn days_in_year_x(y: u64) -> (r: u64)
    ensures
        r == days_in_year(y as nat),
{
    let leap = y % 4 == 0 && (y % 100 != 0 || y % 400 == 0);
    if leap {
        366
    } else {
        365
    }
}

fn days_in_month_x(y: u64, m: u64) -> (r: u64)
    ensures
        r == days_in_month(y as nat, m as nat),
{
    if m == 2 {
        let leap = y % 4 == 0 && (y % 100 != 0 || y % 400 == 0);
        if leap {
            29
        } else {
            28
        }
    } else if m == 4 || m == 6 || m == 9 || m == 11 {
        30
    } else {
        31
    }
}

fn push_pad2(s: &mut String, n: u64)
    ensures
        final(s)@ == old(s)@ + pad2(n as nat),
{
    if n < 10 {
        push_char(s, '0');
    }
    push_dec(s, n);
    proof {
        assert(s@ =~= old(s)@ + pad2(n as nat));
    }
}

fn push_pad4(s: &mut String, n: u64)
    ensures
        final(s)@ == old(s)@ + pad4(n as nat),
{
    if n < 10 {
        push_char(s, '0');
        push_char(s, '0');
        push_char(s, '0');
    } else if n < 100 {
        push_char(s, '0');
        push_char(s, '0');
    } else if n < 1000 {
        push_char(s, '0');
    }
    push_dec(s, n);
    proof {
        assert(s@ =~= old(s)@ + pad4(n as nat));
    }
}

/// Render a count of seconds since the Unix epoch, exactly as the
/// spec-level calendar says.
pub fn render_timestamp(secs: u64) -> (r: String)
    ensures
        r@ == ts_of_secs(secs as nat),
{
    let days: u64 = secs / 86400;
    let daysecs: u64 = secs % 86400;
    let mut y: u64 = 1970;
    let mut rem: u64 = days;
    while rem >= days_in_year_x(y)
        invariant
            1970 <= y,
            y - 1970 <= days - rem,
            rem <= days,
            days <= u64::MAX / 86400 + 1,
            year_of(1970, days as nat) == year_of(y as nat, rem as nat),
        decreases rem,
    {
        let diy = days_in_year_x(y);
        rem = rem - diy;
        y = y + 1;
    }
    let ghost yrem = rem as nat;
    proof {
        assert(year_of(y as nat, yrem) == (y as nat, yrem));
        assert(rem < 366);
    }
    let mut m: u64 = 1;
    while m < 12 && rem >= days_in_month_x(y, m)
        invariant
            1 <= m <= 12,
            rem < 366,
            month_of(y as nat, 1, yrem) == month_of(y as nat, m as nat, rem as nat),
        decreases 12 - m,
    {
        let dim = days_in_month_x(y, m);
        rem = rem - dim;
        m = m + 1;
    }
    proof {
        assert(month_of(y as nat, m as nat, rem as nat) == (m as nat, rem as nat));
    }
    let d: u64 = rem + 1;
    let h: u64 = daysecs / 3600;
    let mi: u64 = (daysecs / 60) % 60;
    let sec: u64 = daysecs % 60;
    let mut out = String::new();
    push_pad4(&mut out, y);
    push_char(&mut out, '-');
    push_pad2(&mut out, m);
    push_char(&mut out, '-');
    push_pad2(&mut out, d);
    push_char(&mut out, 'T');
    push_pad2(&mut out, h);
    push_char(&mut out, ':');
    push_pad2(&mut out, mi);
    push_char(&mut out, ':');
    push_pad2(&mut out, sec);
    push_char(&mut out, 'Z');
    proof {
        assert(out@ =~= ts_of_secs(secs as nat));
    }
    out
}

/// The current instant as text; an epoch clock fault falls back to the
/// epoch itself.
pub fn now_timestamp() -> (r: String)
    ensures
        is_timestamp_text(r@),
{
    let secs: u64 = match now_epoch_secs() {
        Option::Some(s) => s,
        Option::None => 0,
    };
    let r = render_timestamp(secs);
    proof {
        assert(r@ == ts_of_secs(secs as nat));
    }
    r
}

} // verus!
