//! The schema tree, the component registry, and the sequence state store.

use vstd::prelude::*;

use crate::assoc::AssocMap;
use crate::value::JsonValue;

verus! {

/// One node of the schema tree: how to produce one part of the output.
///
/// Object and array nodes carry either a fully literal value or their
/// structural form; exactly one of the two must be set, and the evaluator
/// reports `MissingNodeVariant` otherwise.  Scalar nodes carry either a
/// pinned literal value, which short-circuits generation, or the declared
/// generation constraints.  Float bounds and literals are IEEE-754 bit
/// patterns.
pub enum SchemaNode {
    /// A slash-delimited path into the component registry,
    /// `<root>/<kind>/<name>`.
    Reference { path: String },
    Object {
        properties: Option<Vec<(String, SchemaNode)>>,
        literal: Option<JsonValue>,
    },
    Array {
        items: Option<Vec<SchemaNode>>,
        literal: Option<JsonValue>,
    },
    StringScalar {
        value: Option<String>,
        min_length: Option<usize>,
        max_length: Option<usize>,
        prefix: String,
        suffix: String,
    },
    IntScalar {
        value: Option<i64>,
        min: Option<i64>,
        max: Option<i64>,
    },
    FloatScalar {
        value: Option<u64>,
        min: Option<u64>,
        max: Option<u64>,
    },
    /// A timestamp: a pinned literal, or the current instant rendered in
    /// the one supported representation.  A literal is returned verbatim,
    /// unparsed; the declared format override is carried but not applied.
    TimestampScalar {
        value: Option<String>,
        format: Option<String>,
    },
}

/// A named stateful generator held by the registry.
pub enum SequenceDef {
    /// `prefix + counter + suffix`, with the counter starting at `start`.
    StringSeq { prefix: String, suffix: String, start: i64 },
    /// A bare counter starting at `start`.
    IntSeq { start: i64 },
    /// A fresh version-4 UUID on every reference; stateless.
    UuidSeq,
}

/// The model of a component registry: three name-keyed mappings.
pub struct RegV {
    pub models: Map<Seq<char>, SchemaNode>,
    pub constants: Map<Seq<char>, JsonValue>,
    pub sequences: Map<Seq<char>, SequenceDef>,
}

/// Named, reusable schema fragments: models (sub-schemas), constants
/// (literal values) and sequence definitions.  Loaded once before a run
/// and read-only during it.
pub struct ComponentRegistry {
    pub models: AssocMap<SchemaNode>,
    pub constants: AssocMap<JsonValue>,
    pub sequences: AssocMap<SequenceDef>,
}

impl View for ComponentRegistry {
    type V = RegV;

    open spec fn view(&self) -> RegV {
        RegV { models: self.models@, constants: self.constants@, sequences: self.sequences@ }
    }
}

impl ComponentRegistry {
    pub open spec fn wf(&self) -> bool {
        self.models.wf() && self.constants.wf() && self.sequences.wf()
    }

    pub fn new() -> (r: ComponentRegistry)
        ensures
            r.wf(),
            r@.models == Map::<Seq<char>, SchemaNode>::empty(),
            r@.constants == Map::<Seq<char>, JsonValue>::empty(),
            r@.sequences == Map::<Seq<char>, SequenceDef>::empty(),
    {
        ComponentRegistry {
            models: AssocMap::new(),
            constants: AssocMap::new(),
            sequences: AssocMap::new(),
        }
    }

    pub fn add_model(&mut self, name: String, node: SchemaNode)
        requires
            old(self).wf(),
        ensures
            final(self).wf(),
            final(self)@.models == old(self)@.models.insert(name@, node),
            final(self)@.constants == old(self)@.constants,
            final(self)@.sequences == old(self)@.sequences,
    {
        self.models.set(name, node);
    }

    pub fn add_constant(&mut self, name: String, value: JsonValue)
        requires
            old(self).wf(),
        ensures
            final(self).wf(),
            final(self)@.constants == old(self)@.constants.insert(name@, value),
            final(self)@.models == old(self)@.models,
            final(self)@.sequences == old(self)@.sequences,
    {
        self.constants.set(name, value);
    }

    pub fn add_sequence(&mut self, name: String, def: SequenceDef)
        requires
            old(self).wf(),
        ensures
            final(self).wf(),
            final(self)@.sequences == old(self)@.sequences.insert(name@, def),
            final(self)@.models == old(self)@.models,
            final(self)@.constants == old(self)@.constants,
    {
        self.sequences.set(name, def);
    }
}

/// The counter value after one more reference: the stored counter plus
/// one, wrapping at the integer boundary.
pub open spec fn next_counter(c: i64) -> i64 {
    if c == i64::MAX {
        i64::MIN
    } else {
        (c + 1) as i64
    }
}

/// The counter a sequence holds before a reference: the stored value, or
/// the declared start if the sequence was never referenced in this run.
pub open spec fn counter_or_start(m: Map<Seq<char>, i64>, name: Seq<char>, start: i64) -> i64 {
    if m.dom().contains(name) {
        m[name]
    } else {
        start
    }
}

/// Per-run counters of the stateful sequences, keyed by sequence name.
/// Created empty at the start of a run and discarded at its end, so every
/// run restarts all sequences from their declared starts.  One store must
/// never be shared by concurrent runs; each run owns its store exclusively.
pub struct SeqStore {
    counters: AssocMap<i64>,
}

impl View for SeqStore {
    type V = Map<Seq<char>, i64>;

    closed spec fn view(&self) -> Map<Seq<char>, i64> {
        self.counters@
    }
}

impl SeqStore {
    pub closed spec fn wf(&self) -> bool {
        self.counters.wf()
    }

    /// A fresh store: no sequence has been referenced yet.
    pub fn new() -> (r: SeqStore)
        ensures
            r.wf(),
            r@ == Map::<Seq<char>, i64>::empty(),
    {
        SeqStore { counters: AssocMap::new() }
    }

    /// Advance the named sequence: initialize the counter at `start` on
    /// first reference, step it, store it, and return the stepped value.
    /// The nth reference within one run thus observes `start + n`.
    pub fn advance(&mut self, name: &String, start: i64) -> (r: i64)
        requires
            old(self).wf(),
        ensures
            final(self).wf(),
            r == next_counter(counter_or_start(old(self)@, name@, start)),
            final(self)@ == old(self)@.insert(name@, r),
    {
        let current: i64 = match self.counters.get(name) {
            Option::Some(c) => *c,
            Option::None => start,
        };
        let stepped: i64 = if current == i64::MAX {
            i64::MIN
        } else {
            current + 1
        };
        self.counters.set(name.clone(), stepped);
        stepped
    }
}

} // verus!
