//! Filtering of a process environment by ordered, name-matching rules.
//!
//! The rule set is built once from explicit keep and unset names followed by
//! built-in patterns for secret-looking names; the filter then decides, for
//! each variable, whether it stays, has its value redacted, or is removed.

pub mod rules;
pub mod matching;
pub mod filter;
pub mod laws;
pub mod options;
