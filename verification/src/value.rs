//! The generated document: a JSON value, and its mathematical model.
//!
//! Floating-point numbers are carried as their IEEE-754 bit patterns
//! (`u64`), so that a value can move through the verified evaluator
//! unchanged; hosts convert bits to a native float at the boundary.

use vstd::prelude::*;

verus! {

/// The mathematical model of a JSON value: strings as character
/// sequences, arrays and objects as sequences (object fields keep
/// their declared order).
pub enum JVal {
    Null,
    Bool(bool),
    Int(i64),
    Float(u64),
    Text(Seq<char>),
    Array(Seq<JVal>),
    Object(Seq<(Seq<char>, JVal)>),
}

/// A JSON value as the evaluator builds it.  `Float` holds the IEEE-754
/// bit pattern of the number; `Object` keeps fields in declared order.
pub enum JsonValue {
    Null,
    Bool(bool),
    Int(i64),
    Float(u64),
    Text(String),
    Array(Vec<JsonValue>),
    Object(Vec<(String, JsonValue)>),
}

pub open spec fn jval_of(v: JsonValue) -> JVal
    decreases v, 0nat,
{
    match v {
        JsonValue::Null => JVal::Null,
        JsonValue::Bool(b) => JVal::Bool(b),
        JsonValue::Int(i) => JVal::Int(i),
        JsonValue::Float(bits) => JVal::Float(bits),
        JsonValue::Text(s) => JVal::Text(s@),
        JsonValue::Array(items) => JVal::Array(jvals_of(items@)),
        JsonValue::Object(fields) => JVal::Object(jfields_of(fields@)),
    }
}

pub open spec fn jvals_of(s: Seq<JsonValue>) -> Seq<JVal>
    decreases s, 1nat,
{
    if s.len() == 0 {
        Seq::empty()
    } else {
        jvals_of(s.drop_last()).push(jval_of(s.last()))
    }
}

pub open spec fn jfields_of(s: Seq<(String, JsonValue)>) -> Seq<(Seq<char>, JVal)>
    decreases s, 1nat,
{
    if s.len() == 0 {
        Seq::empty()
    } else {
        jfields_of(s.drop_last()).push((s.last().0@, jval_of(s.last().1)))
    }
}

pub broadcast proof fn lemma_jvals_of_len(s: Seq<JsonValue>)
    ensures
        #[trigger] jvals_of(s).len() == s.len(),
        forall|i: int| 0 <= i < s.len() ==> jvals_of(s)[i] == jval_of(s[i]),
    decreases s.len(),
{
    if s.len() > 0 {
        lemma_jvals_of_len(s.drop_last());
    }
}

pub broadcast proof fn lemma_jfields_of_len(s: Seq<(String, JsonValue)>)
    ensures
        #[trigger] jfields_of(s).len() == s.len(),
        forall|i: int|
            0 <= i < s.len() ==> jfields_of(s)[i] == (s[i].0@, jval_of(s[i].1)),
    decreases s.len(),
{
    if s.len() > 0 {
        lemma_jfields_of_len(s.drop_last());
    }
}

impl View for JsonValue {
    type V = JVal;

    open spec fn view(&self) -> JVal {
        jval_of(*self)
    }
}

impl JsonValue {
    /// A structural copy whose model is exactly the model of the original.
    pub fn deep_clone(&self) -> (r: JsonValue)
        ensures
            r@ == self@,
        decreases *self,
    {
        match self {
            JsonValue::Null => JsonValue::Null,
            JsonValue::Bool(b) => JsonValue::Bool(*b),
            JsonValue::Int(i) => JsonValue::Int(*i),
            JsonValue::Float(bits) => JsonValue::Float(*bits),
            JsonValue::Text(s) => JsonValue::Text(s.clone()),
            JsonValue::Array(items) => {
                let mut out: Vec<JsonValue> = Vec::new();
                let mut i: usize = 0;
                while i < items.len()
                    invariant
                        *self == JsonValue::Array(*items),
                        i <= items@.len(),
                        out@.len() == i,
                        forall|k: int| 0 <= k < i ==> out@[k]@ == jval_of(items@[k]),
                    decreases items@.len() - i,
                {
                    proof {
                        assert(decreases_to!(*self => self->Array_0));
                        assert(decreases_to!(*items => items@));
                        assert(decreases_to!(items@ => items@[i as int]));
                        assert(decreases_to!(*self => items@[i as int]));
                    }
                    let c = items[i].deep_clone();
                    out.push(c);
                    i = i + 1;
                }
                let r = JsonValue::Array(out);
                proof {
                    lemma_jvals_of_len(items@);
                    lemma_jvals_of_len(out@);
                    assert(jvals_of(out@) =~= jvals_of(items@));
                }
                r
            },
            JsonValue::Object(fields) => {
                let mut out: Vec<(String, JsonValue)> = Vec::new();
                let mut i: usize = 0;
                while i < fields.len()
                    invariant
                        *self == JsonValue::Object(*fields),
                        i <= fields@.len(),
                        out@.len() == i,
                        forall|k: int| 0 <= k < i ==> out@[k].0@ == fields@[k].0@
                            && #[trigger] jval_of(out@[k].1) == jval_of(fields@[k].1),
                    decreases fields@.len() - i,
                {
                    let key = fields[i].0.clone();
                    proof {
                        assert(decreases_to!(*self => self->Object_0));
                        assert(decreases_to!(*fields => fields@));
                        assert(decreases_to!(fields@ => fields@[i as int]));
                        assert(decreases_to!(fields@[i as int] => fields@[i as int].1));
                        assert(decreases_to!(*self => fields@[i as int].1));
                    }
                    let c = fields[i].1.deep_clone();
                    out.push((key, c));
                    i = i + 1;
                }
                let r = JsonValue::Object(out);
                proof {
                    lemma_jfields_of_len(fields@);
                    lemma_jfields_of_len(out@);
                    assert(jfields_of(out@) =~= jfields_of(fields@));
                }
                r
            },
        }
    }
}

} // verus!
