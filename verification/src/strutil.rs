//! Verified text helpers: decimal rendering, digit parsing, splitting.

use vstd::prelude::*;

verus! {

/// Relies on std's `String::push`: appends exactly the one character.
#[verifier::external_body]
pub(crate) fn push_char(s: &mut String, c: char)
    ensures
        final(s)@ == old(s)@.push(c),
{
    s.push(c);
}

/// The character for one decimal digit.
pub open spec fn digit_char(d: int) -> char {
    (('0' as int) + d) as char
}

/// The decimal digits of a natural number, most significant first.
pub open spec fn dec_digits(n: nat) -> Seq<char>
    decreases n,
{
    if n < 10 {
        seq![digit_char(n as int)]
    } else {
        dec_digits(n / 10).push(digit_char((n % 10) as int))
    }
}

/// The decimal rendering of an integer: a minus sign for negatives,
/// then the digits of the magnitude.
pub open spec fn int_str(i: int) -> Seq<char> {
    if i < 0 {
        seq!['-'] + dec_digits((-i) as nat)
    } else {
        dec_digits(i as nat)
    }
}

/// Append the decimal digits of `n`.
pub fn push_dec(s: &mut String, n: u64)
    ensures
        final(s)@ == old(s)@ + dec_digits(n as nat),
    decreases n,
{
    if n >= 10 {
        push_dec(s, n / 10);
        let d: u8 = (n % 10) as u8;
        push_char(s, (48u8 + d) as char);
        proof {
            assert(s@ =~= old(s)@ + dec_digits(n as nat));
        }
    } else {
        let d: u8 = n as u8;
        push_char(s, (48u8 + d) as char);
        proof {
            assert(s@ =~= old(s)@ + dec_digits(n as nat));
        }
    }
}

/// Append the decimal rendering of `v`, minus sign included.
pub fn push_i64(s: &mut String, v: i64)
    ensures
        final(s)@ == old(s)@ + int_str(v as int),
{
    if v < 0 {
        push_char(s, '-');
        let mag: u64 = if v == i64::MIN {
            9223372036854775808u64
        } else {
            (-v) as u64
        };
        proof {
            assert(mag as nat == (-(v as int)) as nat);
        }
        push_dec(s, mag);
        proof {
            assert(s@ =~= old(s)@ + int_str(v as int));
        }
    } else {
        push_dec(s, v as u64);
    }
}

/// The decimal rendering of `v` on its own.
pub fn i64_to_string(v: i64) -> (r: String)
    ensures
        r@ == int_str(v as int),
{
    let mut s = String::new();
    push_i64(&mut s, v);
    proof {
        assert(s@ =~= int_str(v as int));
    }
    s
}

/// The segments of `s` split on `sep`: always one more segment than
/// there are separators, in order, separators dropped.
pub open spec fn split_char(s: Seq<char>, sep: char) -> Seq<Seq<char>>
    decreases s.len(),
{
    if s.len() == 0 {
        seq![Seq::empty()]
    } else {
        let r = split_char(s.drop_last(), sep);
        if s.last() == sep {
            r.push(Seq::empty())
        } else {
            r.update(r.len() - 1, r.last().push(s.last()))
        }
    }
}

pub broadcast proof fn lemma_split_char_len(s: Seq<char>, sep: char)
    ensures
        #[trigger] split_char(s, sep).len() >= 1,
    decreases s.len(),
{
    if s.len() > 0 {
        lemma_split_char_len(s.drop_last(), sep);
    }
}

/// The views of a vector of strings.
pub open spec fn seg_views(v: Seq<String>) -> Seq<Seq<char>> {
    Seq::new(v.len(), |i: int| v[i]@)
}

/// Split `s` on `sep`, matching `split_char` exactly.
pub fn split_string(s: &str, sep: char) -> (r: Vec<String>)
    ensures
        seg_views(r@) == split_char(s@, sep),
        r@.len() >= 1,
{
    let n = s.unicode_len();
    let mut segs: Vec<String> = Vec::new();
    segs.push(String::new());
    let mut k: usize = 0;
    proof {
        assert(s@.subrange(0, 0) =~= Seq::<char>::empty());
        assert(seg_views(segs@) =~= split_char(s@.subrange(0, 0), sep));
    }
    while k < n
        invariant
            n == s@.len(),
            k <= n,
            segs@.len() >= 1,
            seg_views(segs@) == split_char(s@.subrange(0, k as int), sep),
        decreases n - k,
    {
        let c = s.get_char(k);
        let ghost prefix = s@.subrange(0, k as int);
        let ghost prefix1 = s@.subrange(0, k as int + 1);
        proof {
            assert(prefix1.drop_last() =~= prefix);
            assert(prefix1.last() == s@[k as int]);
            lemma_split_char_len(prefix, sep);
        }
        if c == sep {
            segs.push(String::new());
            proof {
                assert(seg_views(segs@) =~= split_char(prefix1, sep));
            }
        } else {
            let mut last = match segs.pop() {
                Option::Some(t) => t,
                Option::None => String::new(),
            };
            push_char(&mut last, c);
            segs.push(last);
            proof {
                assert(seg_views(segs@) =~= split_char(prefix1, sep));
            }
        }
        k = k + 1;
    }
    proof {
        assert(s@.subrange(0, n as int) =~= s@);
        lemma_split_char_len(s@, sep);
        assert(seg_views(segs@).len() == split_char(s@, sep).len());
    }
    segs
}

/// Whether the text is one or more decimal digits.
pub open spec fn is_dec_digits(t: Seq<char>) -> bool {
    t.len() > 0 && forall|i: int| 0 <= i < t.len() ==> '0' <= #[trigger] t[i] && t[i] <= '9'
}

/// The number the decimal digits denote.
pub open spec fn dec_val(t: Seq<char>) -> nat
    decreases t.len(),
{
    if t.len() == 0 {
        0
    } else {
        dec_val(t.drop_last()) * 10 + (t.last() as int - '0' as int) as nat
    }
}

/// Parse an unsigned decimal number; `None` on empty text, a non-digit,
/// or a value above `usize::MAX`.
pub fn parse_usize(s: &String) -> (r: Option<usize>)
    ensures
        match r {
            Option::Some(v) => is_dec_digits(s@) && dec_val(s@) == v as nat,
            Option::None => !(is_dec_digits(s@) && dec_val(s@) <= usize::MAX),
        },
{
    let n = s.as_str().unicode_len();
    if n == 0 {
        return Option::None;
    }
    let mut acc: usize = 0;
    let mut k: usize = 0;
    proof {
        assert(s@.subrange(0, 0) =~= Seq::<char>::empty());
    }
    while k < n
        invariant
            n == s@.len(),
            k <= n,
            acc as nat == dec_val(s@.subrange(0, k as int)),
            k > 0 ==> is_dec_digits(s@.subrange(0, k as int)),
        decreases n - k,
    {
        let c = s.as_str().get_char(k);
        let ghost prefix = s@.subrange(0, k as int);
        let ghost prefix1 = s@.subrange(0, k as int + 1);
        proof {
            assert(prefix1.drop_last() =~= prefix);
        }
        if !('0' <= c && c <= '9') {
            proof {
                assert(!is_dec_digits(s@));
            }
            return Option::None;
        }
        let d: usize = (c as u8 - 48u8) as usize;
        if acc > (usize::MAX - d) / 10 {
            proof {
                assert(acc * 10 + d > usize::MAX) by (nonlinear_arith)
                    requires
                        acc > (usize::MAX - d) / 10,
                        0 <= d <= 9,
                ;
                assert(dec_val(prefix1) > usize::MAX);
                lemma_dec_val_monotone(s@, k as int + 1);
            }
            return Option::None;
        }
        proof {
            assert(acc * 10 + d <= usize::MAX) by (nonlinear_arith)
                requires
                    acc <= (usize::MAX - d) / 10,
                    0 <= d <= 9,
            ;
        }
        acc = acc * 10 + d;
        k = k + 1;
    }
    proof {
        assert(s@.subrange(0, n as int) =~= s@);
    }
    Option::Some(acc)
}

/// A longer run of digits never denotes a smaller number.
proof fn lemma_dec_val_monotone(t: Seq<char>, k: int)
    requires
        0 <= k <= t.len(),
    ensures
        dec_val(t.subrange(0, k)) <= dec_val(t),
    decreases t.len() - k,
{
    if k < t.len() {
        lemma_dec_val_monotone(t, k + 1);
        let p = t.subrange(0, k + 1);
        assert(p.drop_last() =~= t.subrange(0, k));
        assert(dec_val(t.subrange(0, k)) <= dec_val(p)) by (nonlinear_arith)
            requires
                dec_val(p) == dec_val(t.subrange(0, k)) * 10 + (p.last() as int - '0' as int) as nat,
        ;
    } else {
        assert(t.subrange(0, k) =~= t);
    }
}

} // verus!
