//! A diagnostic-driven source migration library: it classifies structured
//! compiler diagnostics against two known breaking-change patterns, keeps at
//! most one diagnostic per physical source line, and rewrites matching lines
//! of source text, so that repeated check/patch passes converge on a tree
//! with no remaining matches.

pub mod capture;
pub mod diag;
pub mod errors;
pub mod index;
pub mod pass;
pub mod pattern;
pub mod rewrite;
pub mod strip;
pub mod text;
