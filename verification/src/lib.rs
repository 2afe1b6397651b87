//! A static-analysis library that scans source text for string-backed
//! enumeration classes and flags inconsistencies between member names and
//! member values, and inconsistent naming style across members of one
//! enumeration.
//!
//! The detection engine is deliberately heuristic: class bodies are delimited
//! by indentation alone and member values are extracted from a handful of
//! value-expression shapes, without building a syntax tree.

#![verifier::loop_isolation(false)]

pub mod body;
pub mod chars;
pub mod classify;
pub mod exclude;
pub mod header;
pub mod laws;
pub mod lines;
pub mod member;
pub mod render;
pub mod scan;
pub mod text;

pub use classify::{Violation, ViolationKind};
pub use exclude::ExclusionSet;
pub use member::Member;
pub use scan::SourceFile;
