//! The laws of the evaluator, stated against the big-step semantics.

use vstd::prelude::*;

use crate::error::ErrV;
use crate::error::ErrorKind;
use crate::error::err0;
use crate::eval::StoreV;
use crate::eval::eval_rel;
use crate::eval::ref_rel;
use crate::schema::RegV;
use crate::schema::SequenceDef;
use crate::schema::SchemaNode;
use crate::schema::counter_or_start;
use crate::schema::next_counter;
use crate::scalars::string_scalar_shape;
use crate::strutil::split_char;
use crate::value::JVal;

verus! {

/// Integer bounds law: with both bounds declared, an evaluation of an
/// integer scalar without a literal yields a value in `[min, max)`, and
/// inverted or empty bounds yield `InvalidRange` and never a sample.
pub proof fn lemma_int_scalar_bounds(
    reg: Option<RegV>,
    lo: i64,
    hi: i64,
    s0: StoreV,
    fuel: nat,
    res: Result<JVal, ErrV>,
    s1: StoreV,
)
    requires
        fuel > 0,
        eval_rel(
            reg,
            SchemaNode::IntScalar {
                value: Option::None,
                min: Option::Some(lo),
                max: Option::Some(hi),
            },
            s0,
            fuel,
            res,
            s1,
        ),
    ensures
        lo >= hi ==> res == Result::<JVal, ErrV>::Err(err0(ErrorKind::InvalidRange)),
        lo < hi ==> (res matches Result::Ok(v) && v matches JVal::Int(n) && lo <= n < hi),
        s1 == s0,
{
}

/// String bounds law: with both length bounds declared and ordered, an
/// evaluation of a string scalar without a literal yields exactly a
/// declared prefix, a random alphanumeric portion whose length lies in
/// `[min_length, max_length]` (both ends included), and a declared
/// suffix.
pub proof fn lemma_string_scalar_shape(
    reg: Option<RegV>,
    lo: usize,
    hi: usize,
    prefix: String,
    suffix: String,
    s0: StoreV,
    fuel: nat,
    res: Result<JVal, ErrV>,
    s1: StoreV,
)
    requires
        fuel > 0,
        eval_rel(
            reg,
            SchemaNode::StringScalar {
                value: Option::None,
                min_length: Option::Some(lo),
                max_length: Option::Some(hi),
                prefix: prefix,
                suffix: suffix,
            },
            s0,
            fuel,
            res,
            s1,
        ),
    ensures
        lo > hi ==> res == Result::<JVal, ErrV>::Err(err0(ErrorKind::InvalidRange)),
        lo <= hi ==> (res matches Result::Ok(v) && v matches JVal::Text(t)
            && string_scalar_shape(
            t,
            Option::Some(lo),
            Option::Some(hi),
            prefix@,
            suffix@,
        )),
        s1 == s0,
{
}

/// Sequence determinism law: three successive references to one integer
/// sequence within one run observe `start + 1`, `start + 2`, `start + 3`.
pub proof fn lemma_sequence_three(s0: StoreV, name: Seq<char>, start: i64)
    requires
        !s0.dom().contains(name),
        start + 3 <= i64::MAX,
    ensures
        ({
            let c1 = next_counter(counter_or_start(s0, name, start));
            let s1 = s0.insert(name, c1);
            let c2 = next_counter(counter_or_start(s1, name, start));
            let s2 = s1.insert(name, c2);
            let c3 = next_counter(counter_or_start(s2, name, start));
            c1 == start + 1 && c2 == start + 2 && c3 == start + 3
        }),
{
}

/// Sequence isolation law: two separate runs that each begin with a
/// fresh store observe the identical first value when they resolve the
/// same integer sequence; nothing leaks from one run into the next.
pub proof fn lemma_sequence_isolation(
    rv: RegV,
    path: Seq<char>,
    start: i64,
    fuel: nat,
    res_a: Result<JVal, ErrV>,
    s1a: StoreV,
    res_b: Result<JVal, ErrV>,
    s1b: StoreV,
)
    requires
        fuel > 0,
        split_char(path, '/').len() == 3,
        split_char(path, '/')[1] == "sequences"@,
        rv.sequences.dom().contains(split_char(path, '/')[2]),
        rv.sequences[split_char(path, '/')[2]] == (SequenceDef::IntSeq { start }),
        ref_rel(Option::Some(rv), path, Map::empty(), fuel, res_a, s1a),
        ref_rel(Option::Some(rv), path, Map::empty(), fuel, res_b, s1b),
    ensures
        res_a == res_b,
        res_a == Result::<JVal, ErrV>::Ok(JVal::Int(next_counter(start))),
        s1a == s1b,
{
    reveal_strlit("models");
    reveal_strlit("constants");
    reveal_strlit("sequences");
    assert("models"@.len() == 6 && "constants"@.len() == 9 && "sequences"@.len() == 9);
    assert("constants"@ != "sequences"@) by {
        assert("constants"@[0] == 'c' && "sequences"@[0] == 's');
    }
}

/// Literal short-circuit law: a scalar node carrying a literal value
/// reproduces that literal exactly, whatever bounds stand beside it.
pub proof fn lemma_literal_short_circuit(
    reg: Option<RegV>,
    v: i64,
    min: Option<i64>,
    max: Option<i64>,
    s0: StoreV,
    fuel: nat,
    res: Result<JVal, ErrV>,
    s1: StoreV,
)
    requires
        fuel > 0,
        eval_rel(
            reg,
            SchemaNode::IntScalar { value: Option::Some(v), min, max },
            s0,
            fuel,
            res,
            s1,
        ),
    ensures
        res == Result::<JVal, ErrV>::Ok(JVal::Int(v)),
        s1 == s0,
{
}

/// Literal short-circuit law for string scalars: the literal comes back
/// byte for byte, whatever length bounds stand beside it.
pub proof fn lemma_literal_short_circuit_text(
    reg: Option<RegV>,
    t: String,
    min_length: Option<usize>,
    max_length: Option<usize>,
    prefix: String,
    suffix: String,
    s0: StoreV,
    fuel: nat,
    res: Result<JVal, ErrV>,
    s1: StoreV,
)
    requires
        fuel > 0,
        eval_rel(
            reg,
            SchemaNode::StringScalar {
                value: Option::Some(t),
                min_length,
                max_length,
                prefix,
                suffix,
            },
            s0,
            fuel,
            res,
            s1,
        ),
    ensures
        res == Result::<JVal, ErrV>::Ok(JVal::Text(t@)),
        s1 == s0,
{
}

/// Unresolved reference law: a well-formed path whose kind is known but
/// whose name is absent from that registry mapping fails with
/// `UnresolvedReference`, whichever kind it names.
pub proof fn lemma_unresolved_reference(
    rv: RegV,
    path: Seq<char>,
    s0: StoreV,
    fuel: nat,
    res: Result<JVal, ErrV>,
    s1: StoreV,
)
    requires
        fuel > 0,
        split_char(path, '/').len() == 3,
        ({
            let kind = split_char(path, '/')[1];
            let name = split_char(path, '/')[2];
            ||| (kind == "models"@ && !rv.models.dom().contains(name))
            ||| (kind == "constants"@ && !rv.constants.dom().contains(name))
            ||| (kind == "sequences"@ && !rv.sequences.dom().contains(name))
        }),
        ref_rel(Option::Some(rv), path, s0, fuel, res, s1),
    ensures
        res == Result::<JVal, ErrV>::Err(err0(ErrorKind::UnresolvedReference)),
        s1 == s0,
{
    reveal_strlit("models");
    reveal_strlit("constants");
    reveal_strlit("sequences");
    assert("models"@.len() == 6 && "constants"@.len() == 9 && "sequences"@.len() == 9);
    assert("constants"@ != "sequences"@) by {
        assert("constants"@[0] == 'c' && "sequences"@[0] == 's');
    }
}

/// Malformed node law: an object node with neither its literal form nor
/// its properties, or with both, fails with `MissingNodeVariant` and
/// never yields a value.
pub proof fn lemma_missing_node_variant(
    reg: Option<RegV>,
    properties: Option<Vec<(String, SchemaNode)>>,
    literal: Option<crate::value::JsonValue>,
    s0: StoreV,
    fuel: nat,
    res: Result<JVal, ErrV>,
    s1: StoreV,
)
    requires
        fuel > 0,
        !(properties is Some && literal is None),
        !(properties is None && literal is Some),
        eval_rel(reg, SchemaNode::Object { properties, literal }, s0, fuel, res, s1),
    ensures
        res == Result::<JVal, ErrV>::Err(err0(ErrorKind::MissingNodeVariant)),
        s1 == s0,
{
}

} // verus!
