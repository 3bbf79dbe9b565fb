//! Typed single-segment matching for path-like strings.
//!
//! A template segment is a static literal, a named typed variable, or an
//! end-of-path marker; matching a segment against a raw string either
//! produces a typed value or a failure that says what was expected.

pub mod config;
pub mod errors;
pub mod number;
pub mod segments;
