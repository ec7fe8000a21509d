//! A schema-driven generator of JSON documents.
//!
//! A typed schema tree describes the shape of a document: literal values,
//! randomized scalars with declared bounds, references into a registry of
//! named components, and stateful sequence generators.  Evaluating the tree
//! against a component registry and a per-run sequence state store produces
//! one concrete JSON value, or a structured error naming the failing node.

pub mod assoc;
pub mod error;
pub mod eval;
pub mod floatbits;
pub mod laws;
pub mod rng;
pub mod scalars;
pub mod schema;
pub mod strfn;
pub mod strutil;
pub mod timestamp;
pub mod value;
