//! The data model for one decoded checker diagnostic.
//!
//! A diagnostic record mirrors one structured compiler message: a `reason`
//! tag, a list of source spans (the last span is the primary, most specific
//! location), a list of child sub-messages, and the rendered human-readable
//! text. Only records whose reason equals the compiler-message sentinel are
//! ever acted on.

use vstd::prelude::*;

verus! {

use vstd::string::StringExecFns;

/// One per-line excerpt of source text attached to a span.
#[derive(Debug, PartialEq)]
pub struct Excerpt {
    pub highlight_start: usize,
    pub highlight_end: usize,
    pub text: String,
}

/// A location range within one source file, with excerpts of the text there.
#[derive(Debug, PartialEq)]
pub struct Span {
    pub byte_start: usize,
    pub byte_end: usize,
    pub column_start: usize,
    pub column_end: usize,
    pub file_name: String,
    pub line_start: usize,
    pub line_end: usize,
    pub text: Vec<Excerpt>,
}

/// One sub-message of a diagnostic, possibly carrying its own spans.
#[derive(Debug, PartialEq)]
pub struct ChildMessage {
    pub level: String,
    pub message: String,
    pub spans: Vec<Span>,
}

/// One decoded message from the checker.
#[derive(Debug, PartialEq)]
pub struct DiagnosticRecord {
    pub reason: String,
    pub spans: Vec<Span>,
    pub children: Vec<ChildMessage>,
    pub rendered: String,
}

/// The reason tag that marks a record as a compiler message; records with
/// any other reason are discarded without inspection.
pub open spec fn sentinel() -> Seq<char> {
    "compiler-message"@
}

/// The record is a compiler message, the only kind acted on.
pub open spec fn is_sentinel(r: DiagnosticRecord) -> bool {
    r.reason@ == sentinel()
}

/// The record's span list is non-empty and its last (primary) span carries
/// at least one text excerpt; both are required of every compiler message.
pub open spec fn span_shape_ok(r: DiagnosticRecord) -> bool {
    &&& r.spans@.len() > 0
    &&& r.spans@.last().text@.len() > 0
}

/// The primary span of a record: the last span in the list, conventionally
/// the most specific location.
pub open spec fn primary_span(r: DiagnosticRecord) -> Span
    recommends
        r.spans@.len() > 0,
{
    r.spans@.last()
}

/// The literal source text the classifier inspects: the first excerpt line
/// of the primary span.
pub open spec fn excerpt_text(r: DiagnosticRecord) -> Seq<char>
    recommends
        span_shape_ok(r),
{
    primary_span(r).text@[0].text@
}

/// The file the primary span points into.
pub open spec fn target_file(r: DiagnosticRecord) -> Seq<char>
    recommends
        r.spans@.len() > 0,
{
    primary_span(r).file_name@
}

/// The 1-based line the primary span starts on.
pub open spec fn target_line(r: DiagnosticRecord) -> int
    recommends
        r.spans@.len() > 0,
{
    primary_span(r).line_start as int
}

/// Whether the record is a compiler message.
pub fn is_compiler_message(r: &DiagnosticRecord) -> (b: bool)
    ensures
        b == is_sentinel(*r),
{
    let s = String::from_str("compiler-message");
    r.reason == s
}

} // verus!
