//! Generator of the value-type declarations of a compiler's intermediate
//! representation: a closed registry of value types with their numbering, and
//! a small text-generation engine (indented line buffer, doc-text dedenting,
//! branch-arm deduplication).
pub mod base_types;
pub mod cdsl;
pub mod cdsl_types;
pub mod dedent;
pub mod error;
pub mod gen_types;
pub mod match_arms;
pub mod srcgen;
pub mod text;
