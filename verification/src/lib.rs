//! A verified core for a wire-format transformation pipeline.
//!
//! A raw financial message is parsed into a structured field tree, held in a
//! mutable message document, and published as ISO 20022 XML after schema
//! validation.  The document, the parse stage and the publish stage live
//! here; text parsing and XML schema handling are done by outside crates
//! behind narrow trusted wrappers.

pub mod convert;
pub mod document;
pub mod error;
pub mod laws;
pub mod parser;
pub mod path;
pub mod publish;
pub mod response;
pub mod text;
pub mod tree;
