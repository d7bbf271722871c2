//! A schema-description and recursive value-validation engine.
//!
//! Callers declare a set of named fields with types, nesting and constraints,
//! then submit dynamically typed values (single or batched) to be checked
//! against that schema. Values are taken in an abstract, host-independent
//! form; a host binding marshals its own representation into [`value::Value`].

pub mod constraints;
pub mod engine;
pub mod laws;
pub mod parse;
pub mod schema;
pub mod validate;
pub mod value;
