//! The backend-agnostic value model.
use vstd::prelude::*;

verus! {

/// One column value, detached from the wire type it came from.
#[derive(Debug, PartialEq)]
pub enum TaggedValue {
    Null,
    Bool(bool),
    Int(i64),
    /// A binary64 floating-point number, held as its IEEE-754 bit pattern.
    Float(u64),
    Text(String),
    Array(Vec<TaggedValue>),
    /// A JSON document, as its JSON text.
    Structured(String),
    /// A value that is present but could not be decoded.
    Raw(String),
}

} // verus!
