//! The inline string-function form: a string leaf of the literal shape
//! `string(minLength, maxLength, prefix, suffix)` is expanded into a
//! randomized string; any other string leaf passes through unchanged.
//!
//! A leaf that is not recognized, or whose interior does not hold exactly
//! four comma-separated arguments, falls back to its raw text.  A
//! recognized four-argument form whose length bounds are non-numeric or
//! inverted fails the whole walk with `InvalidRange`, annotated with the
//! path to the failing leaf; it never samples and never falls back.

use vstd::prelude::*;

use crate::error::ErrV;
use crate::error::ErrorKind;
use crate::error::EvalError;
use crate::error::PathSeg;
use crate::error::SegV;
use crate::error::err0;
use crate::error::err_in;
use crate::eval::arr_out;
use crate::eval::fields_view;
use crate::eval::fields_witness;
use crate::eval::lemma_jfields_insert_front;
use crate::eval::lemma_jvals_insert_front;
use crate::eval::obj_out;
use crate::eval::res_view;
use crate::eval::vals_view;
use crate::eval::vals_witness;
use crate::rng::is_alphanumeric_char;
use crate::scalars::generate_random_string;
use crate::strutil::dec_val;
use crate::strutil::is_dec_digits;
use crate::strutil::parse_usize;
use crate::strutil::push_char;
use crate::strutil::split_char;
use crate::strutil::split_string;
use crate::strutil::seg_views;
use crate::value::JVal;
use crate::value::JsonValue;
use crate::value::jfields_of;
use crate::value::jval_of;
use crate::value::jvals_of;
use crate::value::lemma_jfields_of_len;
use crate::value::lemma_jvals_of_len;
use vstd::string::StrSliceExecFns;
use vstd::string::StringExecFns;

verus! {

/// The whitespace that argument trimming removes: the Unicode
/// white-space characters.
pub open spec fn is_space(c: char) -> bool {
    ||| c == ' '
    ||| ('\u{09}' <= c && c <= '\u{0D}')
    ||| c == '\u{85}'
    ||| c == '\u{A0}'
    ||| c == '\u{1680}'
    ||| ('\u{2000}' <= c && c <= '\u{200A}')
    ||| c == '\u{2028}'
    ||| c == '\u{2029}'
    ||| c == '\u{202F}'
    ||| c == '\u{205F}'
    ||| c == '\u{3000}'
}

fn space_char(c: char) -> (b: bool)
    ensures
        b == is_space(c),
{
    c == ' ' || ('\u{09}' <= c && c <= '\u{0D}') || c == '\u{85}' || c == '\u{A0}' || c
        == '\u{1680}' || ('\u{2000}' <= c && c <= '\u{200A}') || c == '\u{2028}' || c == '\u{2029}'
        || c == '\u{202F}' || c == '\u{205F}' || c == '\u{3000}'
}

pub open spec fn trim_front(s: Seq<char>) -> Seq<char>
    decreases s.len(),
{
    if s.len() > 0 && is_space(s[0]) {
        trim_front(s.drop_first())
    } else {
        s
    }
}

pub open spec fn trim_back(s: Seq<char>) -> Seq<char>
    decreases s.len(),
{
    if s.len() > 0 && is_space(s.last()) {
        trim_back(s.drop_last())
    } else {
        s
    }
}

/// The text with leading and trailing whitespace removed.
pub open spec fn trim_of(s: Seq<char>) -> Seq<char> {
    trim_back(trim_front(s))
}

/// Whether a string leaf is recognized as the inline form: it opens
/// with `string(` and closes with `)`.
pub open spec fn strfn_applies(s: Seq<char>) -> bool {
    s.len() >= 8 && s.subrange(0, 7) == "string("@ && s.last() == ')'
}

/// The text between the recognized opening and closing.
pub open spec fn strfn_interior(s: Seq<char>) -> Seq<char> {
    s.subrange(7, s.len() - 1)
}

/// Whether the four trimmed arguments of a recognized leaf carry usable
/// length bounds: both numeric, both representable, and ordered.
pub open spec fn strfn_bounds_ok(args: Seq<Seq<char>>) -> bool {
    let a0 = trim_of(args[0]);
    let a1 = trim_of(args[1]);
    &&& is_dec_digits(a0)
    &&& is_dec_digits(a1)
    &&& dec_val(a0) <= usize::MAX
    &&& dec_val(a1) <= usize::MAX
    &&& dec_val(a0) <= dec_val(a1)
}

/// What one string leaf becomes: unrecognized text or a wrong arity
/// passes through raw; bad length bounds fail with `InvalidRange`; a
/// well-formed form expands into prefix, random portion, suffix.
pub open spec fn strfn_text(s: Seq<char>, r: Result<Seq<char>, ErrV>) -> bool {
    if !strfn_applies(s) {
        r == Result::<Seq<char>, ErrV>::Ok(s)
    } else {
        let args = split_char(strfn_interior(s), ',');
        if args.len() != 4 {
            r == Result::<Seq<char>, ErrV>::Ok(s)
        } else if strfn_bounds_ok(args) {
            r matches Result::Ok(t) && (exists|mid: Seq<char>|
                {
                    &&& t == trim_of(args[2]) + mid + trim_of(args[3])
                    &&& dec_val(trim_of(args[0])) <= mid.len() <= dec_val(trim_of(args[1]))
                    &&& forall|i: int| 0 <= i < mid.len() ==> is_alphanumeric_char(#[trigger] mid[i])
                })
        } else {
            r == Result::<Seq<char>, ErrV>::Err(err0(ErrorKind::InvalidRange))
        }
    }
}

/// What an expansion of one leaf handed back, mathematically.
pub open spec fn text_res_view(r: Result<String, EvalError>) -> Result<Seq<char>, ErrV> {
    match r {
        Result::Ok(t) => Result::Ok(t@),
        Result::Err(e) => Result::Err(e@),
    }
}

/// Trigger marker for the existential witness of one walked child.
pub open spec fn val_witness(r: Result<JVal, ErrV>) -> bool {
    true
}

/// How a whole generated value relates to its walked copy: string
/// leaves expand per `strfn_text`, structure and field names are kept,
/// and the first failing leaf aborts the walk with its location.
pub open spec fn strfn_val(v: JVal, r: Result<JVal, ErrV>) -> bool
    decreases v, 0nat, 0nat,
{
    match v {
        JVal::Text(s) => (match r {
            Result::Ok(rv) => rv matches JVal::Text(t) && strfn_text(
                s,
                Result::<Seq<char>, ErrV>::Ok(t),
            ),
            Result::Err(e) => strfn_text(s, Result::<Seq<char>, ErrV>::Err(e)),
        }),
        JVal::Array(vs) => exists|fr: Result<Seq<JVal>, ErrV>|
            #[trigger] vals_witness(fr) && strfn_items(vs, 0, fr) && arr_out(fr, r),
        JVal::Object(fs) => exists|fr: Result<Seq<(Seq<char>, JVal)>, ErrV>|
            #[trigger] fields_witness(fr) && strfn_flds(fs, fr) && obj_out(fr, r),
        _ => r == Result::<JVal, ErrV>::Ok(v),
    }
}

/// The walk over array items from position `pos` on, in order; a
/// child's failure is annotated with its index and aborts the walk.
pub open spec fn strfn_items(vs: Seq<JVal>, pos: int, r: Result<Seq<JVal>, ErrV>) -> bool
    decreases vs, 1nat, vs.len(),
{
    if vs.len() == 0 {
        r == Result::<Seq<JVal>, ErrV>::Ok(Seq::empty())
    } else {
        exists|r0: Result<JVal, ErrV>|
            {
                &&& #[trigger] val_witness(r0)
                &&& strfn_val(vs[0], r0)
                &&& match r0 {
                    Result::Err(e) => r == Result::<Seq<JVal>, ErrV>::Err(
                        err_in(SegV::Index(pos), e),
                    ),
                    Result::Ok(v) => exists|rr: Result<Seq<JVal>, ErrV>|
                        {
                            &&& #[trigger] vals_witness(rr)
                            &&& strfn_items(vs.drop_first(), pos + 1, rr)
                            &&& match rr {
                                Result::Ok(rest) => r == Result::<Seq<JVal>, ErrV>::Ok(
                                    seq![v] + rest,
                                ),
                                Result::Err(e) => r == Result::<Seq<JVal>, ErrV>::Err(e),
                            }
                        },
                }
            }
    }
}

/// The walk over object fields, in declared order; a child's failure is
/// annotated with its property name and aborts the walk.
pub open spec fn strfn_flds(
    fs: Seq<(Seq<char>, JVal)>,
    r: Result<Seq<(Seq<char>, JVal)>, ErrV>,
) -> bool
    decreases fs, 1nat, fs.len(),
{
    if fs.len() == 0 {
        r == Result::<Seq<(Seq<char>, JVal)>, ErrV>::Ok(Seq::empty())
    } else {
        exists|r0: Result<JVal, ErrV>|
            {
                &&& #[trigger] val_witness(r0)
                &&& strfn_val(fs[0].1, r0)
                &&& match r0 {
                    Result::Err(e) => r == Result::<Seq<(Seq<char>, JVal)>, ErrV>::Err(
                        err_in(SegV::Prop(fs[0].0), e),
                    ),
                    Result::Ok(v) => exists|rr: Result<Seq<(Seq<char>, JVal)>, ErrV>|
                        {
                            &&& #[trigger] fields_witness(rr)
                            &&& strfn_flds(fs.drop_first(), rr)
                            &&& match rr {
                                Result::Ok(rest) => r == Result::<
                                    Seq<(Seq<char>, JVal)>,
                                    ErrV,
                                >::Ok(seq![(fs[0].0, v)] + rest),
                                Result::Err(e) => r == Result::<
                                    Seq<(Seq<char>, JVal)>,
                                    ErrV,
                                >::Err(e),
                            }
                        },
                }
            }
    }
}

proof fn strfn_items_intro_err(
    vs: Seq<JVal>,
    pos: int,
    r0: Result<JVal, ErrV>,
    e: ErrV,
    r: Result<Seq<JVal>, ErrV>,
)
    requires
        vs.len() > 0,
        strfn_val(vs[0], r0),
        r0 == Result::<JVal, ErrV>::Err(e),
        r == Result::<Seq<JVal>, ErrV>::Err(err_in(SegV::Index(pos), e)),
    ensures
        strfn_items(vs, pos, r),
{
    assert(val_witness(r0));
}

proof fn strfn_items_intro_ok(
    vs: Seq<JVal>,
    pos: int,
    v: JVal,
    rr: Result<Seq<JVal>, ErrV>,
    r: Result<Seq<JVal>, ErrV>,
)
    requires
        vs.len() > 0,
        strfn_val(vs[0], Result::<JVal, ErrV>::Ok(v)),
        strfn_items(vs.drop_first(), pos + 1, rr),
        match rr {
            Result::Ok(rest) => r == Result::<Seq<JVal>, ErrV>::Ok(seq![v] + rest),
            Result::Err(e) => r == Result::<Seq<JVal>, ErrV>::Err(e),
        },
    ensures
        strfn_items(vs, pos, r),
{
    assert(val_witness(Result::<JVal, ErrV>::Ok(v)));
    assert(vals_witness(rr));
}

proof fn strfn_flds_intro_err(
    fs: Seq<(Seq<char>, JVal)>,
    r0: Result<JVal, ErrV>,
    e: ErrV,
    r: Result<Seq<(Seq<char>, JVal)>, ErrV>,
)
    requires
        fs.len() > 0,
        strfn_val(fs[0].1, r0),
        r0 == Result::<JVal, ErrV>::Err(e),
        r == Result::<Seq<(Seq<char>, JVal)>, ErrV>::Err(err_in(SegV::Prop(fs[0].0), e)),
    ensures
        strfn_flds(fs, r),
{
    assert(val_witness(r0));
}

proof fn strfn_flds_intro_ok(
    fs: Seq<(Seq<char>, JVal)>,
    v: JVal,
    rr: Result<Seq<(Seq<char>, JVal)>, ErrV>,
    r: Result<Seq<(Seq<char>, JVal)>, ErrV>,
)
    requires
        fs.len() > 0,
        strfn_val(fs[0].1, Result::<JVal, ErrV>::Ok(v)),
        strfn_flds(fs.drop_first(), rr),
        match rr {
            Result::Ok(rest) => r == Result::<Seq<(Seq<char>, JVal)>, ErrV>::Ok(
                seq![(fs[0].0, v)] + rest,
            ),
            Result::Err(e) => r == Result::<Seq<(Seq<char>, JVal)>, ErrV>::Err(e),
        },
    ensures
        strfn_flds(fs, r),
{
    assert(val_witness(Result::<JVal, ErrV>::Ok(v)));
    assert(fields_witness(rr));
}

proof fn strfn_val_arr_intro(
    v: JVal,
    vs: Seq<JVal>,
    fr: Result<Seq<JVal>, ErrV>,
    r: Result<JVal, ErrV>,
)
    requires
        v == JVal::Array(vs),
        strfn_items(vs, 0, fr),
        arr_out(fr, r),
    ensures
        strfn_val(v, r),
{
    assert(vals_witness(fr));
}

proof fn strfn_val_obj_intro(
    v: JVal,
    fs: Seq<(Seq<char>, JVal)>,
    fr: Result<Seq<(Seq<char>, JVal)>, ErrV>,
    r: Result<JVal, ErrV>,
)
    requires
        v == JVal::Object(fs),
        strfn_flds(fs, fr),
        obj_out(fr, r),
    ensures
        strfn_val(v, r),
{
    assert(fields_witness(fr));
}

/// Recognizes string leaves written in the inline function form.
pub struct JsonParser;

impl JsonParser {
    /// Whether a string leaf opens with `string(` and closes with `)`.
    pub fn recognizes(s: &String) -> (b: bool)
        ensures
            b == strfn_applies(s@),
    {
        let n = s.as_str().unicode_len();
        if n < 8 {
            return false;
        }
        proof {
            reveal_strlit("string(");
        }
        let ok = s.as_str().get_char(0) == 's' && s.as_str().get_char(1) == 't' && s.as_str()
            .get_char(2) == 'r' && s.as_str().get_char(3) == 'i' && s.as_str().get_char(4) == 'n'
            && s.as_str().get_char(5) == 'g' && s.as_str().get_char(6) == '(' && s.as_str()
            .get_char(n - 1) == ')';
        proof {
            if ok {
                assert(s@.subrange(0, 7) =~= "string("@);
            } else {
                if s@.subrange(0, 7) =~= "string("@ && s@.last() == ')' {
                    assert(s@.subrange(0, 7)[0] == s@[0]);
                    assert(s@.subrange(0, 7)[1] == s@[1]);
                    assert(s@.subrange(0, 7)[2] == s@[2]);
                    assert(s@.subrange(0, 7)[3] == s@[3]);
                    assert(s@.subrange(0, 7)[4] == s@[4]);
                    assert(s@.subrange(0, 7)[5] == s@[5]);
                    assert(s@.subrange(0, 7)[6] == s@[6]);
                    assert(false);
                }
            }
        }
        ok
    }
}

/// Trim leading and trailing whitespace.
fn trim_string(s: &String) -> (r: String)
    ensures
        r@ == trim_of(s@),
{
    let n = s.as_str().unicode_len();
    proof {
        assert(s@.subrange(0, n as int) =~= s@);
    }
    let mut i: usize = 0;
    while i < n
        invariant_except_break
            n == s@.len(),
            i <= n,
            trim_front(s@) == trim_front(s@.subrange(i as int, n as int)),
        ensures
            n == s@.len(),
            i <= n,
            trim_front(s@) == s@.subrange(i as int, n as int),
        decreases n - i,
    {
        let c = s.as_str().get_char(i);
        if !space_char(c) {
            break;
        }
        proof {
            let cur = s@.subrange(i as int, n as int);
            assert(cur.drop_first() =~= s@.subrange(i as int + 1, n as int));
        }
        i = i + 1;
    }
    let mut j: usize = n;
    while j > i
        invariant_except_break
            n == s@.len(),
            i <= j <= n,
            trim_front(s@) == s@.subrange(i as int, n as int),
            trim_back(s@.subrange(i as int, n as int)) == trim_back(
                s@.subrange(i as int, j as int),
            ),
        ensures
            n == s@.len(),
            i <= j <= n,
            trim_front(s@) == s@.subrange(i as int, n as int),
            trim_back(s@.subrange(i as int, n as int)) == s@.subrange(i as int, j as int),
        decreases j,
    {
        let c = s.as_str().get_char(j - 1);
        if !space_char(c) {
            proof {
                assert(trim_back(s@.subrange(i as int, j as int)) == s@.subrange(
                    i as int,
                    j as int,
                ));
            }
            break;
        }
        proof {
            let cur = s@.subrange(i as int, j as int);
            assert(cur.drop_last() =~= s@.subrange(i as int, j as int - 1));
        }
        j = j - 1;
    }
    let mut out = String::new();
    let mut k: usize = i;
    while k < j
        invariant
            n == s@.len(),
            i <= k <= j <= n,
            out@ == s@.subrange(i as int, k as int),
        decreases j - k,
    {
        let c = s.as_str().get_char(k);
        push_char(&mut out, c);
        proof {
            assert(out@ =~= s@.subrange(i as int, k as int + 1));
        }
        k = k + 1;
    }
    proof {
        assert(out@ == trim_of(s@));
    }
    out
}

/// Expand one string leaf: raw text when the form is not recognized or
/// has the wrong arity, `InvalidRange` when its length bounds are
/// non-numeric or inverted, and the wrapped random string otherwise.
pub fn generate_random_string_from_function(s: &String) -> (r: Result<String, EvalError>)
    ensures
        strfn_text(s@, text_res_view(r)),
{
    if !JsonParser::recognizes(s) {
        return Result::Ok(s.clone());
    }
    let n = s.as_str().unicode_len();
    let interior = s.as_str().substring_char(7, n - 1).to_owned();
    proof {
        assert(interior@ == strfn_interior(s@));
    }
    let parts = split_string(interior.as_str(), ',');
    proof {
        assert(seg_views(parts@) == split_char(strfn_interior(s@), ','));
    }
    if parts.len() != 4 {
        return Result::Ok(s.clone());
    }
    proof {
        assert(parts@[0]@ == split_char(strfn_interior(s@), ',')[0]);
        assert(parts@[1]@ == split_char(strfn_interior(s@), ',')[1]);
        assert(parts@[2]@ == split_char(strfn_interior(s@), ',')[2]);
        assert(parts@[3]@ == split_char(strfn_interior(s@), ',')[3]);
    }
    let a0 = trim_string(&parts[0]);
    let a1 = trim_string(&parts[1]);
    let min_length = match parse_usize(&a0) {
        Option::Some(v) => v,
        Option::None => {
            return Result::Err(EvalError::new(ErrorKind::InvalidRange));
        },
    };
    let max_length = match parse_usize(&a1) {
        Option::Some(v) => v,
        Option::None => {
            return Result::Err(EvalError::new(ErrorKind::InvalidRange));
        },
    };
    if min_length > max_length {
        return Result::Err(EvalError::new(ErrorKind::InvalidRange));
    }
    let mid = generate_random_string(min_length, max_length);
    let mut out = trim_string(&parts[2]);
    out.append(mid.as_str());
    let suffix = trim_string(&parts[3]);
    out.append(suffix.as_str());
    proof {
        let args = split_char(strfn_interior(s@), ',');
        assert(out@ == trim_of(args[2]) + mid@ + trim_of(args[3]));
    }
    Result::Ok(out)
}

/// Walk a generated value, expanding every string leaf written in the
/// inline function form; the first leaf with bad length bounds fails the
/// walk with `InvalidRange` and the path to it.
pub fn generate_json(json: &JsonValue) -> (r: Result<JsonValue, EvalError>)
    ensures
        strfn_val(json@, res_view(r)),
    decreases *json, 0nat, 0nat,
{
    match json {
        JsonValue::Null => Result::Ok(JsonValue::Null),
        JsonValue::Bool(b) => Result::Ok(JsonValue::Bool(*b)),
        JsonValue::Int(i) => Result::Ok(JsonValue::Int(*i)),
        JsonValue::Float(bits) => Result::Ok(JsonValue::Float(*bits)),
        JsonValue::Text(s) => match generate_random_string_from_function(s) {
            Result::Ok(t) => Result::Ok(JsonValue::Text(t)),
            Result::Err(e) => Result::Err(e),
        },
        JsonValue::Array(items) => {
            proof {
                assert(decreases_to!(*json => json->Array_0));
                assert(decreases_to!(*items => items@));
            }
            let fr = walk_items(items, 0);
            let ghost frv = vals_view(fr);
            proof {
                assert(items@.subrange(0, items@.len() as int) =~= items@);
                assert(strfn_items(jvals_of(items@), 0, frv));
            }
            match fr {
                Result::Ok(vals) => {
                    let out = JsonValue::Array(vals);
                    proof {
                        assert(arr_out(frv, res_view(Result::Ok(out))));
                        strfn_val_arr_intro(
                            json@,
                            jvals_of(items@),
                            frv,
                            res_view(Result::Ok(out)),
                        );
                    }
                    Result::Ok(out)
                },
                Result::Err(e) => {
                    proof {
                        assert(arr_out(frv, res_view(Result::Err(e))));
                        strfn_val_arr_intro(json@, jvals_of(items@), frv, res_view(Result::Err(e)));
                    }
                    Result::Err(e)
                },
            }
        },
        JsonValue::Object(fields) => {
            proof {
                assert(decreases_to!(*json => json->Object_0));
                assert(decreases_to!(*fields => fields@));
            }
            let fr = walk_fields(fields, 0);
            let ghost frv = fields_view(fr);
            proof {
                assert(fields@.subrange(0, fields@.len() as int) =~= fields@);
                assert(strfn_flds(jfields_of(fields@), frv));
            }
            match fr {
                Result::Ok(out_fields) => {
                    let out = JsonValue::Object(out_fields);
                    proof {
                        assert(obj_out(frv, res_view(Result::Ok(out))));
                        strfn_val_obj_intro(
                            json@,
                            jfields_of(fields@),
                            frv,
                            res_view(Result::Ok(out)),
                        );
                    }
                    Result::Ok(out)
                },
                Result::Err(e) => {
                    proof {
                        assert(obj_out(frv, res_view(Result::Err(e))));
                        strfn_val_obj_intro(
                            json@,
                            jfields_of(fields@),
                            frv,
                            res_view(Result::Err(e)),
                        );
                    }
                    Result::Err(e)
                },
            }
        },
    }
}

/// Walk the items of an array from `idx` on, in order.
fn walk_items(items: &Vec<JsonValue>, idx: usize) -> (r: Result<Vec<JsonValue>, EvalError>)
    requires
        idx <= items@.len(),
    ensures
        strfn_items(
            jvals_of(items@.subrange(idx as int, items@.len() as int)),
            idx as int,
            vals_view(r),
        ),
    decreases items@, 1nat, items@.len() - idx,
{
    let ghost suffix = jvals_of(items@.subrange(idx as int, items@.len() as int));
    proof {
        lemma_jvals_of_len(items@.subrange(idx as int, items@.len() as int));
    }
    if idx == items.len() {
        let empty: Vec<JsonValue> = Vec::new();
        proof {
            assert(jvals_of(empty@) =~= Seq::<JVal>::empty());
        }
        return Result::Ok(empty);
    }
    proof {
        assert(decreases_to!(items@ => items@[idx as int]));
        assert(suffix[0] == jval_of(items@[idx as int]));
    }
    let r0 = generate_json(&items[idx]);
    match r0 {
        Result::Err(e) => {
            let ghost ev = e@;
            let e2 = e.in_segment(PathSeg::Index(idx));
            proof {
                strfn_items_intro_err(
                    suffix,
                    idx as int,
                    Result::<JVal, ErrV>::Err(ev),
                    ev,
                    vals_view(Result::Err(e2)),
                );
            }
            Result::Err(e2)
        },
        Result::Ok(v) => {
            let ghost vv = jval_of(v);
            let rest = walk_items(items, idx + 1);
            proof {
                lemma_jvals_of_len(items@.subrange(idx as int + 1, items@.len() as int));
                assert(suffix.drop_first() =~= jvals_of(
                    items@.subrange(idx as int + 1, items@.len() as int),
                ));
            }
            match rest {
                Result::Err(e) => {
                    proof {
                        strfn_items_intro_ok(
                            suffix,
                            idx as int,
                            vv,
                            vals_view(Result::Err(e)),
                            vals_view(Result::Err(e)),
                        );
                    }
                    Result::Err(e)
                },
                Result::Ok(mut vals) => {
                    let ghost tail_seq = vals@;
                    let ghost tailv = jvals_of(vals@);
                    let ghost hd = v;
                    vals.insert(0, v);
                    proof {
                        assert(vals@ =~= seq![hd] + tail_seq);
                        lemma_jvals_insert_front(hd, tail_seq);
                        assert(jvals_of(vals@) == seq![jval_of(hd)] + tailv);
                        strfn_items_intro_ok(
                            suffix,
                            idx as int,
                            vv,
                            Result::<Seq<JVal>, ErrV>::Ok(tailv),
                            vals_view(Result::Ok(vals)),
                        );
                    }
                    Result::Ok(vals)
                },
            }
        },
    }
}

/// Walk the fields of an object from `idx` on, in declared order.
fn walk_fields(fields: &Vec<(String, JsonValue)>, idx: usize) -> (r: Result<
    Vec<(String, JsonValue)>,
    EvalError,
>)
    requires
        idx <= fields@.len(),
    ensures
        strfn_flds(
            jfields_of(fields@.subrange(idx as int, fields@.len() as int)),
            fields_view(r),
        ),
    decreases fields@, 1nat, fields@.len() - idx,
{
    let ghost suffix = jfields_of(fields@.subrange(idx as int, fields@.len() as int));
    proof {
        lemma_jfields_of_len(fields@.subrange(idx as int, fields@.len() as int));
    }
    if idx == fields.len() {
        let empty: Vec<(String, JsonValue)> = Vec::new();
        proof {
            assert(jfields_of(empty@) =~= Seq::<(Seq<char>, JVal)>::empty());
        }
        return Result::Ok(empty);
    }
    proof {
        assert(decreases_to!(fields@ => fields@[idx as int]));
        assert(decreases_to!(fields@[idx as int] => fields@[idx as int].1));
        assert(suffix[0] == (fields@[idx as int].0@, jval_of(fields@[idx as int].1)));
    }
    let key = fields[idx].0.clone();
    let r0 = generate_json(&fields[idx].1);
    match r0 {
        Result::Err(e) => {
            let ghost ev = e@;
            let e2 = e.in_segment(PathSeg::Prop(key));
            proof {
                strfn_flds_intro_err(
                    suffix,
                    Result::<JVal, ErrV>::Err(ev),
                    ev,
                    fields_view(Result::Err(e2)),
                );
            }
            Result::Err(e2)
        },
        Result::Ok(v) => {
            let ghost vv = jval_of(v);
            let rest = walk_fields(fields, idx + 1);
            proof {
                lemma_jfields_of_len(fields@.subrange(idx as int + 1, fields@.len() as int));
                assert(suffix.drop_first() =~= jfields_of(
                    fields@.subrange(idx as int + 1, fields@.len() as int),
                ));
            }
            match rest {
                Result::Err(e) => {
                    proof {
                        strfn_flds_intro_ok(
                            suffix,
                            vv,
                            fields_view(Result::Err(e)),
                            fields_view(Result::Err(e)),
                        );
                    }
                    Result::Err(e)
                },
                Result::Ok(mut out_fields) => {
                    let ghost tail_seq = out_fields@;
                    let ghost tailv = jfields_of(out_fields@);
                    let ghost hd = (key, v);
                    out_fields.insert(0, (key, v));
                    proof {
                        assert(out_fields@ =~= seq![hd] + tail_seq);
                        lemma_jfields_insert_front(hd, tail_seq);
                        assert(jfields_of(out_fields@) == seq![(hd.0@, jval_of(hd.1))] + tailv);
                        assert(hd.0@ == suffix[0].0);
                        strfn_flds_intro_ok(
                            suffix,
                            vv,
                            Result::<Seq<(Seq<char>, JVal)>, ErrV>::Ok(tailv),
                            fields_view(Result::Ok(out_fields)),
                        );
                    }
                    Result::Ok(out_fields)
                },
            }
        },
    }
}

} // verus!
