//! The schema evaluator and the reference resolver.
//!
//! `eval_rel` is the big-step semantics of the schema language: it
//! relates a node, a registry, and a sequence store before the run to
//! every admissible outcome and store after it.  Randomized leaves make
//! the semantics a relation, not a function: any value within the
//! declared bounds is admissible, and the evaluator is proved to return
//! only admissible outcomes.  The relation carries a recursion budget;
//! the evaluator runs with the whole `u64` of budget, which only a cycle
//! of model references can exhaust.

use vstd::prelude::*;

use crate::error::ErrV;
use crate::error::ErrorKind;
use crate::error::EvalError;
use crate::error::PathSeg;
use crate::error::SegV;
use crate::error::err0;
use crate::error::err_in;
use crate::scalars::float_bounds_ok;
use crate::scalars::float_in_bounds;
use crate::scalars::generate_float;
use crate::scalars::generate_integer;
use crate::scalars::generate_string_scalar;
use crate::scalars::int_bounds_ok;
use crate::scalars::int_in_bounds;
use crate::scalars::is_uuid_v4;
use crate::scalars::len_hi_of;
use crate::scalars::len_lo_of;
use crate::scalars::string_scalar_shape;
use crate::scalars::uuid_v4;
use crate::schema::ComponentRegistry;
use crate::schema::RegV;
use crate::schema::SchemaNode;
use crate::schema::SeqStore;
use crate::schema::SequenceDef;
use crate::schema::counter_or_start;
use crate::schema::next_counter;
use crate::strutil::int_str;
use crate::strutil::push_i64;
use crate::strutil::seg_views;
use crate::strutil::split_char;
use crate::strutil::split_string;
use crate::timestamp::is_timestamp_text;
use crate::timestamp::now_timestamp;
use crate::value::JVal;
use crate::value::JsonValue;
use crate::value::jfields_of;
use crate::value::jval_of;
use crate::value::jvals_of;
use crate::value::lemma_jfields_of_len;
use vstd::string::StringExecFns;
use crate::value::lemma_jvals_of_len;

verus! {

/// The store during a run, mathematically: sequence name to counter.
pub type StoreV = Map<Seq<char>, i64>;

/// The error that ends a run whose recursion budget ran out.
pub open spec fn limit_err() -> ErrV {
    err0(ErrorKind::RecursionLimit)
}

/// What an evaluation handed back, mathematically.
pub open spec fn res_view(r: Result<JsonValue, EvalError>) -> Result<JVal, ErrV> {
    match r {
        Result::Ok(v) => Result::Ok(v@),
        Result::Err(e) => Result::Err(e@),
    }
}

pub open spec fn fields_view(r: Result<Vec<(String, JsonValue)>, EvalError>) -> Result<
    Seq<(Seq<char>, JVal)>,
    ErrV,
> {
    match r {
        Result::Ok(v) => Result::Ok(jfields_of(v@)),
        Result::Err(e) => Result::Err(e@),
    }
}

pub open spec fn vals_view(r: Result<Vec<JsonValue>, EvalError>) -> Result<Seq<JVal>, ErrV> {
    match r {
        Result::Ok(v) => Result::Ok(jvals_of(v@)),
        Result::Err(e) => Result::Err(e@),
    }
}

pub open spec fn reg_view(reg: Option<&ComponentRegistry>) -> Option<RegV> {
    match reg {
        Option::Some(r) => Option::Some(r@),
        Option::None => Option::None,
    }
}

pub open spec fn reg_wf(reg: Option<&ComponentRegistry>) -> bool {
    match reg {
        Option::Some(r) => r.wf(),
        Option::None => true,
    }
}

/// Trigger markers for the existential witnesses of the relations.
pub open spec fn eval_witness(r0: Result<JVal, ErrV>, sm: StoreV) -> bool {
    true
}

pub open spec fn fields_witness(rr: Result<Seq<(Seq<char>, JVal)>, ErrV>) -> bool {
    true
}

pub open spec fn vals_witness(rr: Result<Seq<JVal>, ErrV>) -> bool {
    true
}

/// How an evaluated property list becomes the node's outcome.
pub open spec fn obj_out(
    fr: Result<Seq<(Seq<char>, JVal)>, ErrV>,
    res: Result<JVal, ErrV>,
) -> bool {
    match fr {
        Result::Ok(fs) => res == Result::<JVal, ErrV>::Ok(JVal::Object(fs)),
        Result::Err(e) => res == Result::<JVal, ErrV>::Err(e),
    }
}

/// How an evaluated item list becomes the node's outcome.
pub open spec fn arr_out(fr: Result<Seq<JVal>, ErrV>, res: Result<JVal, ErrV>) -> bool {
    match fr {
        Result::Ok(vs) => res == Result::<JVal, ErrV>::Ok(JVal::Array(vs)),
        Result::Err(e) => res == Result::<JVal, ErrV>::Err(e),
    }
}

/// What resolving one sequence reference does: step the counter and
/// yield it bare, or wrapped in the declared prefix and suffix, or yield
/// a fresh UUID with no store effect.
pub open spec fn seq_out(
    def: SequenceDef,
    name: Seq<char>,
    s0: StoreV,
    res: Result<JVal, ErrV>,
    s1: StoreV,
) -> bool {
    match def {
        SequenceDef::IntSeq { start } => {
            let c1 = next_counter(counter_or_start(s0, name, start));
            res == Result::<JVal, ErrV>::Ok(JVal::Int(c1)) && s1 == s0.insert(name, c1)
        },
        SequenceDef::StringSeq { prefix, suffix, start } => {
            let c1 = next_counter(counter_or_start(s0, name, start));
            res == Result::<JVal, ErrV>::Ok(JVal::Text(prefix@ + int_str(c1 as int) + suffix@))
                && s1 == s0.insert(name, c1)
        },
        SequenceDef::UuidSeq => (res matches Result::Ok(JVal::Text(u)) && is_uuid_v4(u)) && s1
            == s0,
    }
}

/// The admissible outcomes of one reference, by its path.
pub open spec fn ref_rel(
    reg: Option<RegV>,
    path: Seq<char>,
    s0: StoreV,
    fuel: nat,
    res: Result<JVal, ErrV>,
    s1: StoreV,
) -> bool
    decreases fuel, 0nat,
{
    if fuel == 0 {
        res == Result::<JVal, ErrV>::Err(limit_err()) && s1 == s0
    } else {
        match reg {
            Option::None => res == Result::<JVal, ErrV>::Err(err0(ErrorKind::NoComponentRegistry))
                && s1 == s0,
            Option::Some(rv) => {
                let segs = split_char(path, '/');
                if segs.len() != 3 {
                    res == Result::<JVal, ErrV>::Err(err0(ErrorKind::MalformedReference)) && s1
                        == s0
                } else if segs[1] == "models"@ {
                    if rv.models.dom().contains(segs[2]) {
                        eval_rel(reg, rv.models[segs[2]], s0, (fuel - 1) as nat, res, s1)
                    } else {
                        res == Result::<JVal, ErrV>::Err(err0(ErrorKind::UnresolvedReference))
                            && s1 == s0
                    }
                } else if segs[1] == "constants"@ {
                    if rv.constants.dom().contains(segs[2]) {
                        res == Result::<JVal, ErrV>::Ok(jval_of(rv.constants[segs[2]])) && s1 == s0
                    } else {
                        res == Result::<JVal, ErrV>::Err(err0(ErrorKind::UnresolvedReference))
                            && s1 == s0
                    }
                } else if segs[1] == "sequences"@ {
                    if rv.sequences.dom().contains(segs[2]) {
                        seq_out(rv.sequences[segs[2]], segs[2], s0, res, s1)
                    } else {
                        res == Result::<JVal, ErrV>::Err(err0(ErrorKind::UnresolvedReference))
                            && s1 == s0
                    }
                } else {
                    res == Result::<JVal, ErrV>::Err(err0(ErrorKind::UnknownReferenceKind)) && s1
                        == s0
                }
            },
        }
    }
}

/// The admissible outcomes of an object's property list, evaluated in
/// declared order with the store threaded through; a child's failure is
/// annotated with its property name and aborts the list.
pub open spec fn props_rel(
    reg: Option<RegV>,
    ps: Seq<(String, SchemaNode)>,
    s0: StoreV,
    fuel: nat,
    res: Result<Seq<(Seq<char>, JVal)>, ErrV>,
    s1: StoreV,
) -> bool
    decreases fuel, 0nat,
{
    if fuel == 0 {
        res == Result::<Seq<(Seq<char>, JVal)>, ErrV>::Err(limit_err()) && s1 == s0
    } else if ps.len() == 0 {
        res == Result::<Seq<(Seq<char>, JVal)>, ErrV>::Ok(Seq::empty()) && s1 == s0
    } else {
        exists|r0: Result<JVal, ErrV>, sm: StoreV|
            {
                &&& #[trigger] eval_witness(r0, sm)
                &&& eval_rel(reg, ps[0].1, s0, (fuel - 1) as nat, r0, sm)
                &&& match r0 {
                    Result::Err(e) => res == Result::<Seq<(Seq<char>, JVal)>, ErrV>::Err(
                        err_in(SegV::Prop(ps[0].0@), e),
                    ) && s1 == sm,
                    Result::Ok(v) => exists|rr: Result<Seq<(Seq<char>, JVal)>, ErrV>|
                        {
                            &&& #[trigger] fields_witness(rr)
                            &&& props_rel(
                                reg,
                                ps.drop_first(),
                                sm,
                                (fuel - 1) as nat,
                                rr,
                                s1,
                            )
                            &&& match rr {
                                Result::Ok(vs) => res == Result::<
                                    Seq<(Seq<char>, JVal)>,
                                    ErrV,
                                >::Ok(seq![(ps[0].0@, v)] + vs),
                                Result::Err(e) => res == Result::<
                                    Seq<(Seq<char>, JVal)>,
                                    ErrV,
                                >::Err(e),
                            }
                        },
                }
            }
    }
}

/// The admissible outcomes of an array's item list; `pos` is the index
/// of the list's first item within the whole array, for error context.
pub open spec fn items_rel(
    reg: Option<RegV>,
    its: Seq<SchemaNode>,
    pos: int,
    s0: StoreV,
    fuel: nat,
    res: Result<Seq<JVal>, ErrV>,
    s1: StoreV,
) -> bool
    decreases fuel, 0nat,
{
    if fuel == 0 {
        res == Result::<Seq<JVal>, ErrV>::Err(limit_err()) && s1 == s0
    } else if its.len() == 0 {
        res == Result::<Seq<JVal>, ErrV>::Ok(Seq::empty()) && s1 == s0
    } else {
        exists|r0: Result<JVal, ErrV>, sm: StoreV|
            {
                &&& #[trigger] eval_witness(r0, sm)
                &&& eval_rel(reg, its[0], s0, (fuel - 1) as nat, r0, sm)
                &&& match r0 {
                    Result::Err(e) => res == Result::<Seq<JVal>, ErrV>::Err(
                        err_in(SegV::Index(pos), e),
                    ) && s1 == sm,
                    Result::Ok(v) => exists|rr: Result<Seq<JVal>, ErrV>|
                        {
                            &&& #[trigger] vals_witness(rr)
                            &&& items_rel(
                                reg,
                                its.drop_first(),
                                pos + 1,
                                sm,
                                (fuel - 1) as nat,
                                rr,
                                s1,
                            )
                            &&& match rr {
                                Result::Ok(vs) => res == Result::<Seq<JVal>, ErrV>::Ok(
                                    seq![v] + vs,
                                ),
                                Result::Err(e) => res == Result::<Seq<JVal>, ErrV>::Err(e),
                            }
                        },
                }
            }
    }
}

/// The big-step semantics of one schema node.
pub open spec fn eval_rel(
    reg: Option<RegV>,
    node: SchemaNode,
    s0: StoreV,
    fuel: nat,
    res: Result<JVal, ErrV>,
    s1: StoreV,
) -> bool
    decreases fuel, 1nat,
{
    if fuel == 0 {
        res == Result::<JVal, ErrV>::Err(limit_err()) && s1 == s0
    } else {
        match node {
            SchemaNode::Reference { path } => ref_rel(reg, path@, s0, fuel, res, s1),
            SchemaNode::Object { properties, literal } => match (properties, literal) {
                (Option::Some(ps), Option::None) => exists|
                    fr: Result<Seq<(Seq<char>, JVal)>, ErrV>,
                |
                    #[trigger] fields_witness(fr) && props_rel(reg, ps@, s0, fuel, fr, s1)
                        && obj_out(fr, res),
                (Option::None, Option::Some(l)) => res == Result::<JVal, ErrV>::Ok(jval_of(l))
                    && s1 == s0,
                _ => res == Result::<JVal, ErrV>::Err(err0(ErrorKind::MissingNodeVariant)) && s1
                    == s0,
            },
            SchemaNode::Array { items, literal } => match (items, literal) {
                (Option::Some(its), Option::None) => exists|fr: Result<Seq<JVal>, ErrV>|
                    #[trigger] vals_witness(fr) && items_rel(reg, its@, 0, s0, fuel, fr, s1)
                        && arr_out(fr, res),
                (Option::None, Option::Some(l)) => res == Result::<JVal, ErrV>::Ok(jval_of(l))
                    && s1 == s0,
                _ => res == Result::<JVal, ErrV>::Err(err0(ErrorKind::MissingNodeVariant)) && s1
                    == s0,
            },
            SchemaNode::StringScalar { value, min_length, max_length, prefix, suffix } => s1 == s0
                && match value {
                Option::Some(t) => res == Result::<JVal, ErrV>::Ok(JVal::Text(t@)),
                Option::None => if len_lo_of(min_length) <= len_hi_of(max_length) {
                    res matches Result::Ok(JVal::Text(t)) && string_scalar_shape(
                        t,
                        min_length,
                        max_length,
                        prefix@,
                        suffix@,
                    )
                } else {
                    res == Result::<JVal, ErrV>::Err(err0(ErrorKind::InvalidRange))
                },
            },
            SchemaNode::IntScalar { value, min, max } => s1 == s0 && match value {
                Option::Some(v) => res == Result::<JVal, ErrV>::Ok(JVal::Int(v)),
                Option::None => if int_bounds_ok(min, max) {
                    res matches Result::Ok(JVal::Int(v)) && int_in_bounds(v, min, max)
                } else {
                    res == Result::<JVal, ErrV>::Err(err0(ErrorKind::InvalidRange))
                },
            },
            SchemaNode::FloatScalar { value, min, max } => s1 == s0 && match value {
                Option::Some(bits) => res == Result::<JVal, ErrV>::Ok(JVal::Float(bits)),
                Option::None => if float_bounds_ok(min, max) {
                    res matches Result::Ok(JVal::Float(b)) && float_in_bounds(b, min, max)
                } else {
                    res == Result::<JVal, ErrV>::Err(err0(ErrorKind::InvalidRange))
                },
            },
            SchemaNode::TimestampScalar { value, format } => s1 == s0 && match value {
                Option::Some(t) => res == Result::<JVal, ErrV>::Ok(JVal::Text(t@)),
                Option::None => res matches Result::Ok(JVal::Text(t)) && is_timestamp_text(t),
            },
        }
    }
}

pub(crate) proof fn lemma_jfields_insert_front(x: (String, JsonValue), s: Seq<(String, JsonValue)>)
    ensures
        jfields_of(seq![x] + s) == seq![(x.0@, jval_of(x.1))] + jfields_of(s),
{
    lemma_jfields_of_len(seq![x] + s);
    lemma_jfields_of_len(s);
    assert(jfields_of(seq![x] + s) =~= seq![(x.0@, jval_of(x.1))] + jfields_of(s));
}

pub(crate) proof fn lemma_jvals_insert_front(x: JsonValue, s: Seq<JsonValue>)
    ensures
        jvals_of(seq![x] + s) == seq![jval_of(x)] + jvals_of(s),
{
    lemma_jvals_of_len(seq![x] + s);
    lemma_jvals_of_len(s);
    assert(jvals_of(seq![x] + s) =~= seq![jval_of(x)] + jvals_of(s));
}


proof fn props_rel_intro_err(
    reg: Option<RegV>,
    ps: Seq<(String, SchemaNode)>,
    s0: StoreV,
    fuel: nat,
    r0: Result<JVal, ErrV>,
    sm: StoreV,
    e: ErrV,
    res: Result<Seq<(Seq<char>, JVal)>, ErrV>,
)
    requires
        fuel > 0,
        ps.len() > 0,
        eval_rel(reg, ps[0].1, s0, (fuel - 1) as nat, r0, sm),
        r0 == Result::<JVal, ErrV>::Err(e),
        res == Result::<Seq<(Seq<char>, JVal)>, ErrV>::Err(err_in(SegV::Prop(ps[0].0@), e)),
    ensures
        props_rel(reg, ps, s0, fuel, res, sm),
{
    assert(eval_witness(r0, sm));
}

proof fn props_rel_intro_ok(
    reg: Option<RegV>,
    ps: Seq<(String, SchemaNode)>,
    s0: StoreV,
    fuel: nat,
    v: JVal,
    sm: StoreV,
    rr: Result<Seq<(Seq<char>, JVal)>, ErrV>,
    res: Result<Seq<(Seq<char>, JVal)>, ErrV>,
    s1: StoreV,
)
    requires
        fuel > 0,
        ps.len() > 0,
        eval_rel(reg, ps[0].1, s0, (fuel - 1) as nat, Result::<JVal, ErrV>::Ok(v), sm),
        props_rel(reg, ps.drop_first(), sm, (fuel - 1) as nat, rr, s1),
        match rr {
            Result::Ok(vs) => res == Result::<Seq<(Seq<char>, JVal)>, ErrV>::Ok(
                seq![(ps[0].0@, v)] + vs,
            ),
            Result::Err(e) => res == Result::<Seq<(Seq<char>, JVal)>, ErrV>::Err(e),
        },
    ensures
        props_rel(reg, ps, s0, fuel, res, s1),
{
    assert(eval_witness(Result::<JVal, ErrV>::Ok(v), sm));
    assert(fields_witness(rr));
}

proof fn items_rel_intro_err(
    reg: Option<RegV>,
    its: Seq<SchemaNode>,
    pos: int,
    s0: StoreV,
    fuel: nat,
    r0: Result<JVal, ErrV>,
    sm: StoreV,
    e: ErrV,
    res: Result<Seq<JVal>, ErrV>,
)
    requires
        fuel > 0,
        its.len() > 0,
        eval_rel(reg, its[0], s0, (fuel - 1) as nat, r0, sm),
        r0 == Result::<JVal, ErrV>::Err(e),
        res == Result::<Seq<JVal>, ErrV>::Err(err_in(SegV::Index(pos), e)),
    ensures
        items_rel(reg, its, pos, s0, fuel, res, sm),
{
    assert(eval_witness(r0, sm));
}

proof fn items_rel_intro_ok(
    reg: Option<RegV>,
    its: Seq<SchemaNode>,
    pos: int,
    s0: StoreV,
    fuel: nat,
    v: JVal,
    sm: StoreV,
    rr: Result<Seq<JVal>, ErrV>,
    res: Result<Seq<JVal>, ErrV>,
    s1: StoreV,
)
    requires
        fuel > 0,
        its.len() > 0,
        eval_rel(reg, its[0], s0, (fuel - 1) as nat, Result::<JVal, ErrV>::Ok(v), sm),
        items_rel(reg, its.drop_first(), pos + 1, sm, (fuel - 1) as nat, rr, s1),
        match rr {
            Result::Ok(vs) => res == Result::<Seq<JVal>, ErrV>::Ok(seq![v] + vs),
            Result::Err(e) => res == Result::<Seq<JVal>, ErrV>::Err(e),
        },
    ensures
        items_rel(reg, its, pos, s0, fuel, res, s1),
{
    assert(eval_witness(Result::<JVal, ErrV>::Ok(v), sm));
    assert(vals_witness(rr));
}

proof fn eval_rel_obj_intro(
    reg: Option<RegV>,
    node: SchemaNode,
    ps: Seq<(String, SchemaNode)>,
    s0: StoreV,
    fuel: nat,
    fr: Result<Seq<(Seq<char>, JVal)>, ErrV>,
    res: Result<JVal, ErrV>,
    s1: StoreV,
)
    requires
        fuel > 0,
        node matches SchemaNode::Object { properties: Option::Some(p), literal: Option::None }
            && p@ == ps,
        props_rel(reg, ps, s0, fuel, fr, s1),
        obj_out(fr, res),
    ensures
        eval_rel(reg, node, s0, fuel, res, s1),
{
    assert(fields_witness(fr));
}

proof fn eval_rel_arr_intro(
    reg: Option<RegV>,
    node: SchemaNode,
    its: Seq<SchemaNode>,
    s0: StoreV,
    fuel: nat,
    fr: Result<Seq<JVal>, ErrV>,
    res: Result<JVal, ErrV>,
    s1: StoreV,
)
    requires
        fuel > 0,
        node matches SchemaNode::Array { items: Option::Some(i), literal: Option::None } && i@
            == its,
        items_rel(reg, its, 0, s0, fuel, fr, s1),
        arr_out(fr, res),
    ensures
        eval_rel(reg, node, s0, fuel, res, s1),
{
    assert(vals_witness(fr));
}

/// Evaluate one node with an explicit recursion budget.
#[verifier::rlimit(60)]
fn evaluate_at(
    node: &SchemaNode,
    reg: Option<&ComponentRegistry>,
    store: &mut SeqStore,
    fuel: u64,
) -> (r: Result<JsonValue, EvalError>)
    requires
        reg_wf(reg),
        old(store).wf(),
    ensures
        final(store).wf(),
        eval_rel(reg_view(reg), *node, old(store)@, fuel as nat, res_view(r), final(store)@),
    decreases fuel, 1nat,
{
    if fuel == 0 {
        return Result::Err(EvalError::new(ErrorKind::RecursionLimit));
    }
    match node {
        SchemaNode::Reference { path } => resolve_reference(path, reg, store, fuel),
        SchemaNode::Object { properties, literal } => match (properties, literal) {
            (Option::Some(ps), Option::None) => {
                let fr = evaluate_props(ps, 0, reg, store, fuel);
                proof {
                    assert(ps@.subrange(0, ps@.len() as int) =~= ps@);
                }
                proof {
                    assert(props_rel(
                        reg_view(reg),
                        ps@,
                        old(store)@,
                        fuel as nat,
                        fields_view(fr),
                        store@,
                    ));
                }
                let ghost frv = fields_view(fr);
                match fr {
                    Result::Ok(fields) => {
                        let out = JsonValue::Object(fields);
                        proof {
                            assert(obj_out(frv, res_view(Result::Ok(out))));
                            eval_rel_obj_intro(
                                reg_view(reg),
                                *node,
                                ps@,
                                old(store)@,
                                fuel as nat,
                                frv,
                                res_view(Result::Ok(out)),
                                store@,
                            );
                        }
                        Result::Ok(out)
                    },
                    Result::Err(e) => {
                        proof {
                            assert(obj_out(frv, res_view(Result::Err(e))));
                            eval_rel_obj_intro(
                                reg_view(reg),
                                *node,
                                ps@,
                                old(store)@,
                                fuel as nat,
                                frv,
                                res_view(Result::Err(e)),
                                store@,
                            );
                        }
                        Result::Err(e)
                    },
                }
            },
            (Option::None, Option::Some(l)) => Result::Ok(l.deep_clone()),
            _ => Result::Err(EvalError::new(ErrorKind::MissingNodeVariant)),
        },
        SchemaNode::Array { items, literal } => match (items, literal) {
            (Option::Some(its), Option::None) => {
                let fr = evaluate_items(its, 0, reg, store, fuel);
                proof {
                    assert(its@.subrange(0, its@.len() as int) =~= its@);
                }
                proof {
                    assert(items_rel(
                        reg_view(reg),
                        its@,
                        0,
                        old(store)@,
                        fuel as nat,
                        vals_view(fr),
                        store@,
                    ));
                }
                let ghost frv = vals_view(fr);
                match fr {
                    Result::Ok(vals) => {
                        let out = JsonValue::Array(vals);
                        proof {
                            assert(arr_out(frv, res_view(Result::Ok(out))));
                            eval_rel_arr_intro(
                                reg_view(reg),
                                *node,
                                its@,
                                old(store)@,
                                fuel as nat,
                                frv,
                                res_view(Result::Ok(out)),
                                store@,
                            );
                        }
                        Result::Ok(out)
                    },
                    Result::Err(e) => {
                        proof {
                            assert(arr_out(frv, res_view(Result::Err(e))));
                            eval_rel_arr_intro(
                                reg_view(reg),
                                *node,
                                its@,
                                old(store)@,
                                fuel as nat,
                                frv,
                                res_view(Result::Err(e)),
                                store@,
                            );
                        }
                        Result::Err(e)
                    },
                }
            },
            (Option::None, Option::Some(l)) => Result::Ok(l.deep_clone()),
            _ => Result::Err(EvalError::new(ErrorKind::MissingNodeVariant)),
        },
        SchemaNode::StringScalar { value, min_length, max_length, prefix, suffix } => match value {
            Option::Some(t) => Result::Ok(JsonValue::Text(t.clone())),
            Option::None => match generate_string_scalar(*min_length, *max_length, prefix, suffix) {
                Result::Ok(t) => Result::Ok(JsonValue::Text(t)),
                Result::Err(e) => Result::Err(e),
            },
        },
        SchemaNode::IntScalar { value, min, max } => match value {
            Option::Some(v) => Result::Ok(JsonValue::Int(*v)),
            Option::None => match generate_integer(*min, *max) {
                Result::Ok(v) => Result::Ok(JsonValue::Int(v)),
                Result::Err(e) => Result::Err(e),
            },
        },
        SchemaNode::FloatScalar { value, min, max } => match value {
            Option::Some(bits) => Result::Ok(JsonValue::Float(*bits)),
            Option::None => match generate_float(*min, *max) {
                Result::Ok(bits) => Result::Ok(JsonValue::Float(bits)),
                Result::Err(e) => Result::Err(e),
            },
        },
        SchemaNode::TimestampScalar { value, format: _ } => match value {
            Option::Some(t) => Result::Ok(JsonValue::Text(t.clone())),
            Option::None => Result::Ok(JsonValue::Text(now_timestamp())),
        },
    }
}

/// Evaluate the properties of an object node from `idx` on, in declared
/// order.
#[verifier::rlimit(60)]
fn evaluate_props(
    ps: &Vec<(String, SchemaNode)>,
    idx: usize,
    reg: Option<&ComponentRegistry>,
    store: &mut SeqStore,
    fuel: u64,
) -> (r: Result<Vec<(String, JsonValue)>, EvalError>)
    requires
        reg_wf(reg),
        old(store).wf(),
        idx <= ps@.len(),
    ensures
        final(store).wf(),
        props_rel(
            reg_view(reg),
            ps@.subrange(idx as int, ps@.len() as int),
            old(store)@,
            fuel as nat,
            fields_view(r),
            final(store)@,
        ),
    decreases fuel, 0nat,
{
    let ghost suffix = ps@.subrange(idx as int, ps@.len() as int);
    if fuel == 0 {
        return Result::Err(EvalError::new(ErrorKind::RecursionLimit));
    }
    if idx == ps.len() {
        let empty: Vec<(String, JsonValue)> = Vec::new();
        proof {
            assert(suffix.len() == 0);
            assert(jfields_of(empty@) =~= Seq::<(Seq<char>, JVal)>::empty());
        }
        return Result::Ok(empty);
    }
    let key = ps[idx].0.clone();
    let r0 = evaluate_at(&ps[idx].1, reg, store, fuel - 1);
    let ghost sm = store@;
    let ghost s0 = old(store)@;
    let ghost fnat = fuel as nat;
    proof {
        assert(suffix[0] == ps@[idx as int]);
        assert((fuel - 1) as nat == (fnat - 1) as nat);
        assert(eval_rel(
            reg_view(reg),
            suffix[0].1,
            s0,
            (fnat - 1) as nat,
            res_view(r0),
            sm,
        ));
    }
    match r0 {
        Result::Err(e) => {
            let ghost ev = e@;
            let e2 = e.in_segment(PathSeg::Prop(key));
            proof {
                assert(e2@ == err_in(SegV::Prop(suffix[0].0@), ev));
                props_rel_intro_err(
                    reg_view(reg),
                    suffix,
                    s0,
                    fnat,
                    Result::<JVal, ErrV>::Err(ev),
                    sm,
                    ev,
                    fields_view(Result::Err(e2)),
                );
            }
            Result::Err(e2)
        },
        Result::Ok(v) => {
            let ghost vv = jval_of(v);
            let rest = evaluate_props(ps, idx + 1, reg, store, fuel - 1);
            proof {
                assert(suffix.drop_first() =~= ps@.subrange(idx as int + 1, ps@.len() as int));
            }
            match rest {
                Result::Err(e) => {
                    proof {
                        assert(props_rel(
                            reg_view(reg),
                            suffix.drop_first(),
                            sm,
                            (fnat - 1) as nat,
                            fields_view(Result::Err(e)),
                            store@,
                        ));
                        props_rel_intro_ok(
                            reg_view(reg),
                            suffix,
                            s0,
                            fnat,
                            vv,
                            sm,
                            fields_view(Result::Err(e)),
                            fields_view(Result::Err(e)),
                            store@,
                        );
                    }
                    Result::Err(e)
                },
                Result::Ok(mut fields) => {
                    let ghost tail_seq = fields@;
                    let ghost tailv = jfields_of(fields@);
                    let ghost hd = (key, v);
                    fields.insert(0, (key, v));
                    proof {
                        assert(fields@ =~= seq![hd] + tail_seq);
                        lemma_jfields_insert_front(hd, tail_seq);
                        assert(jfields_of(fields@) == seq![(hd.0@, jval_of(hd.1))] + tailv);
                        assert(props_rel(
                            reg_view(reg),
                            suffix.drop_first(),
                            sm,
                            (fnat - 1) as nat,
                            Result::<Seq<(Seq<char>, JVal)>, ErrV>::Ok(tailv),
                            store@,
                        ));
                        assert(hd.0@ == suffix[0].0@);
                        props_rel_intro_ok(
                            reg_view(reg),
                            suffix,
                            s0,
                            fnat,
                            vv,
                            sm,
                            Result::<Seq<(Seq<char>, JVal)>, ErrV>::Ok(tailv),
                            fields_view(Result::Ok(fields)),
                            store@,
                        );
                    }
                    Result::Ok(fields)
                },
            }
        },
    }
}

/// Evaluate the items of an array node from `idx` on, in order.
#[verifier::rlimit(60)]
fn evaluate_items(
    its: &Vec<SchemaNode>,
    idx: usize,
    reg: Option<&ComponentRegistry>,
    store: &mut SeqStore,
    fuel: u64,
) -> (r: Result<Vec<JsonValue>, EvalError>)
    requires
        reg_wf(reg),
        old(store).wf(),
        idx <= its@.len(),
    ensures
        final(store).wf(),
        items_rel(
            reg_view(reg),
            its@.subrange(idx as int, its@.len() as int),
            idx as int,
            old(store)@,
            fuel as nat,
            vals_view(r),
            final(store)@,
        ),
    decreases fuel, 0nat,
{
    let ghost suffix = its@.subrange(idx as int, its@.len() as int);
    if fuel == 0 {
        return Result::Err(EvalError::new(ErrorKind::RecursionLimit));
    }
    if idx == its.len() {
        let empty: Vec<JsonValue> = Vec::new();
        proof {
            assert(jvals_of(empty@) =~= Seq::<JVal>::empty());
        }
        return Result::Ok(empty);
    }
    let r0 = evaluate_at(&its[idx], reg, store, fuel - 1);
    let ghost sm = store@;
    let ghost s0 = old(store)@;
    let ghost fnat = fuel as nat;
    proof {
        assert(suffix[0] == its@[idx as int]);
        assert((fuel - 1) as nat == (fnat - 1) as nat);
        assert(eval_rel(reg_view(reg), suffix[0], s0, (fnat - 1) as nat, res_view(r0), sm));
    }
    match r0 {
        Result::Err(e) => {
            let ghost ev = e@;
            let e2 = e.in_segment(PathSeg::Index(idx));
            proof {
                assert(e2@ == err_in(SegV::Index(idx as int), ev));
                items_rel_intro_err(
                    reg_view(reg),
                    suffix,
                    idx as int,
                    s0,
                    fnat,
                    Result::<JVal, ErrV>::Err(ev),
                    sm,
                    ev,
                    vals_view(Result::Err(e2)),
                );
            }
            Result::Err(e2)
        },
        Result::Ok(v) => {
            let ghost vv = jval_of(v);
            let rest = evaluate_items(its, idx + 1, reg, store, fuel - 1);
            proof {
                assert(suffix.drop_first() =~= its@.subrange(idx as int + 1, its@.len() as int));
            }
            match rest {
                Result::Err(e) => {
                    proof {
                        assert(items_rel(
                            reg_view(reg),
                            suffix.drop_first(),
                            idx as int + 1,
                            sm,
                            (fnat - 1) as nat,
                            vals_view(Result::Err(e)),
                            store@,
                        ));
                        items_rel_intro_ok(
                            reg_view(reg),
                            suffix,
                            idx as int,
                            s0,
                            fnat,
                            vv,
                            sm,
                            vals_view(Result::Err(e)),
                            vals_view(Result::Err(e)),
                            store@,
                        );
                    }
                    Result::Err(e)
                },
                Result::Ok(mut vals) => {
                    let ghost tail_seq = vals@;
                    let ghost tailv = jvals_of(vals@);
                    let ghost hd = v;
                    vals.insert(0, v);
                    proof {
                        assert(vals@ =~= seq![hd] + tail_seq);
                        lemma_jvals_insert_front(hd, tail_seq);
                        assert(jvals_of(vals@) == seq![jval_of(hd)] + tailv);
                        assert(items_rel(
                            reg_view(reg),
                            suffix.drop_first(),
                            idx as int + 1,
                            sm,
                            (fnat - 1) as nat,
                            Result::<Seq<JVal>, ErrV>::Ok(tailv),
                            store@,
                        ));
                        items_rel_intro_ok(
                            reg_view(reg),
                            suffix,
                            idx as int,
                            s0,
                            fnat,
                            vv,
                            sm,
                            Result::<Seq<JVal>, ErrV>::Ok(tailv),
                            vals_view(Result::Ok(vals)),
                            store@,
                        );
                    }
                    Result::Ok(vals)
                },
            }
        },
    }
}

/// Resolve one reference path against the registry.
fn resolve_reference(
    path: &String,
    reg: Option<&ComponentRegistry>,
    store: &mut SeqStore,
    fuel: u64,
) -> (r: Result<JsonValue, EvalError>)
    requires
        reg_wf(reg),
        old(store).wf(),
    ensures
        final(store).wf(),
        ref_rel(reg_view(reg), path@, old(store)@, fuel as nat, res_view(r), final(store)@),
    decreases fuel, 0nat,
{
    if fuel == 0 {
        return Result::Err(EvalError::new(ErrorKind::RecursionLimit));
    }
    let registry = match reg {
        Option::Some(r) => r,
        Option::None => {
            return Result::Err(EvalError::new(ErrorKind::NoComponentRegistry));
        },
    };
    let segs = split_string(path.as_str(), '/');
    proof {
        assert(seg_views(segs@) == split_char(path@, '/'));
    }
    if segs.len() != 3 {
        return Result::Err(EvalError::new(ErrorKind::MalformedReference));
    }
    proof {
        assert(segs@[1]@ == split_char(path@, '/')[1]);
        assert(segs@[2]@ == split_char(path@, '/')[2]);
    }
    let kind = &segs[1];
    let name = &segs[2];
    let models_k = String::from_str("models");
    let constants_k = String::from_str("constants");
    let sequences_k = String::from_str("sequences");
    if *kind == models_k {
        match registry.models.get(name) {
            Option::Some(model) => evaluate_at(model, reg, store, fuel - 1),
            Option::None => Result::Err(EvalError::new(ErrorKind::UnresolvedReference)),
        }
    } else if *kind == constants_k {
        match registry.constants.get(name) {
            Option::Some(value) => Result::Ok(value.deep_clone()),
            Option::None => Result::Err(EvalError::new(ErrorKind::UnresolvedReference)),
        }
    } else if *kind == sequences_k {
        match registry.sequences.get(name) {
            Option::Some(def) => match def {
                SequenceDef::IntSeq { start } => {
                    let c = store.advance(name, *start);
                    Result::Ok(JsonValue::Int(c))
                },
                SequenceDef::StringSeq { prefix, suffix, start } => {
                    let c = store.advance(name, *start);
                    let mut t = prefix.clone();
                    push_i64(&mut t, c);
                    t.append(suffix.as_str());
                    proof {
                        assert(t@ =~= prefix@ + int_str(c as int) + suffix@);
                    }
                    Result::Ok(JsonValue::Text(t))
                },
                SequenceDef::UuidSeq => Result::Ok(JsonValue::Text(uuid_v4())),
            },
            Option::None => Result::Err(EvalError::new(ErrorKind::UnresolvedReference)),
        }
    } else {
        Result::Err(EvalError::new(ErrorKind::UnknownReferenceKind))
    }
}

/// Evaluate a schema tree against a registry and a per-run sequence
/// store, producing one generated value or the first structural failure.
/// The outcome is an admissible one of the big-step semantics at the
/// full recursion budget.
pub fn evaluate(
    node: &SchemaNode,
    registry: Option<&ComponentRegistry>,
    store: &mut SeqStore,
) -> (r: Result<JsonValue, EvalError>)
    requires
        reg_wf(registry),
        old(store).wf(),
    ensures
        final(store).wf(),
        eval_rel(
            reg_view(registry),
            *node,
            old(store)@,
            u64::MAX as nat,
            res_view(r),
            final(store)@,
        ),
{
    evaluate_at(node, registry, store, u64::MAX)
}

} // verus!
