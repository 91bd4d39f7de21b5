//! Evaluation of JSON predicate expressions against JSON documents.
//!
//! A predicate is a tree of tests: first-order leaves examine one value
//! addressed by a JSON Pointer, and the second-order combinators `and`,
//! `or` and `not` aggregate child predicates.  The crate models JSON
//! documents with its own [`Json`] value type, parses and serializes
//! pointer paths, decodes predicates from the wire object form, and
//! evaluates them, with contracts describing each step.

pub mod json_path;
pub mod json_text;
pub mod json_value;
pub mod predicate;
pub mod regex;
pub mod strings;

pub use json_value::Json;
pub use json_value::JsonNum;
pub use predicate::Predicate;
pub use predicate::PredicateImpl;
pub use predicate::context;
pub use predicate::first_order::FirstOrder;
pub use predicate::second_order::SecondOrder;
