//! The canonical benchmark record and the format-independent parts of its
//! codecs: the record model with its metadata mapping, the flat-layout field
//! plan and its absent-field defaulting, and the fixed fixture.
//!
//! A double is carried as its IEEE-754 bit pattern (`u64`); the encoders that
//! need the floating-point type convert at the edge.

pub mod record;
pub mod flat;
pub mod fixture;
pub mod flatbuffers_wrapped;
