//! Structured evaluation failures, annotated with the failing location.

use vstd::prelude::*;

verus! {

/// Why an evaluation failed.
#[derive(Clone, Copy, Debug, PartialEq, Eq, Structural)]
pub enum ErrorKind {
    /// A reference path does not have exactly three slash-delimited segments.
    MalformedReference,
    /// The middle path segment is none of `models`, `constants`, `sequences`.
    UnknownReferenceKind,
    /// The named entry is absent from the relevant registry mapping.
    UnresolvedReference,
    /// A reference was met, but no component registry was given.
    NoComponentRegistry,
    /// Numeric or length bounds are inverted or empty where sampling
    /// requires a non-empty interval.
    InvalidRange,
    /// An object or array node has neither its literal form nor its
    /// structural form populated, or has both.
    MissingNodeVariant,
    /// A literal could not be converted into the output representation.
    ConversionError,
    /// The schema nests deeper than the evaluator's recursion budget,
    /// which happens only when model references form a cycle.
    RecursionLimit,
}

/// One step of the location context: an object property or an array index.
#[derive(Debug)]
pub enum PathSeg {
    Prop(String),
    Index(usize),
}

/// The model of a path segment.
pub enum SegV {
    Prop(Seq<char>),
    Index(int),
}

impl View for PathSeg {
    type V = SegV;

    open spec fn view(&self) -> SegV {
        match self {
            PathSeg::Prop(name) => SegV::Prop(name@),
            PathSeg::Index(i) => SegV::Index(*i as int),
        }
    }
}

/// The model of an evaluation failure: its kind and the path from the
/// root of the schema down to the failing node, outermost segment first.
pub struct ErrV {
    pub kind: ErrorKind,
    pub path: Seq<SegV>,
}

/// An evaluation failure.  `path` names the failing location within the
/// schema, outermost segment first; it grows as the failure unwinds.
#[derive(Debug)]
pub struct EvalError {
    pub kind: ErrorKind,
    pub path: Vec<PathSeg>,
}

impl View for EvalError {
    type V = ErrV;

    open spec fn view(&self) -> ErrV {
        ErrV { kind: self.kind, path: Seq::new(self.path@.len(), |i: int| self.path@[i]@) }
    }
}

/// The model of an error before any context was added.
pub open spec fn err0(kind: ErrorKind) -> ErrV {
    ErrV { kind, path: Seq::empty() }
}

/// The model of an error after one more enclosing segment was added.
pub open spec fn err_in(seg: SegV, e: ErrV) -> ErrV {
    ErrV { kind: e.kind, path: seq![seg] + e.path }
}

impl EvalError {
    /// A fresh failure with no location context yet.
    pub fn new(kind: ErrorKind) -> (r: EvalError)
        ensures
            r@ == err0(kind),
    {
        let r = EvalError { kind, path: Vec::new() };
        proof {
            assert(r@.path =~= Seq::<SegV>::empty());
        }
        r
    }

    /// The same failure, seen from one level further out.
    pub fn in_segment(self, seg: PathSeg) -> (r: EvalError)
        ensures
            r@ == err_in(seg@, self@),
    {
        let mut path = self.path;
        path.insert(0, seg);
        let r = EvalError { kind: self.kind, path };
        proof {
            assert(r@.path =~= err_in(seg@, self@).path);
        }
        r
    }
}

} // verus!
