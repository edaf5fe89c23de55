//! A compiler core for declarative interface definitions.
//!
//! Source text in an interface-definition grammar, or a tree of annotated
//! native declarations, is parsed, validated and resolved into a single
//! immutable [`ci::ComponentInterface`]: the model of a public API surface
//! (functions, enums, records, objects, errors, callback interfaces),
//! together with the boundary representation each type uses when it crosses
//! a foreign-function boundary.

pub mod builders;
pub mod ci;
pub mod laws;
pub mod model;
pub mod source;
pub mod text;
pub mod types;
pub mod udl;
