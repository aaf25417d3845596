//! A minimal in-memory RDF quad store: term model, pattern-matching dataset,
//! and an N-Quads text codec, with machine-checked contracts.

pub mod dataset;
pub mod namespace;
pub mod no_error;
pub mod nquads_deserialize;
pub mod nquads_roundtrip;
pub mod nquads_serialize;
pub mod quad;
pub mod read_service;
pub mod term;
pub mod test_set;
pub mod text;
pub mod write_service;
