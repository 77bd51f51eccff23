//! Identifier rules of the query dialect.
//!
//! The tracing query language lets identifiers carry `*` and `_` so that
//! probe wildcards survive the tokenizer.

use vstd::prelude::*;

verus! {

/// Holds exactly when `c` may open an identifier: an ASCII letter, `_` or `*`.
pub open spec fn spec_identifier_start(c: char) -> bool {
    ('a' <= c && c <= 'z') || ('A' <= c && c <= 'Z') || c == '_' || c == '*'
}

/// Holds exactly when `c` may continue an identifier: a start character,
/// an ASCII digit, or `*`.
pub open spec fn spec_identifier_part(c: char) -> bool {
    spec_identifier_start(c) || ('0' <= c && c <= '9') || c == '*'
}

/// Identifier rules for the tracing query dialect.
pub struct BPFTraceDialect {}

impl BPFTraceDialect {
    pub fn is_identifier_start(&self, ch: char) -> (r: bool)
        ensures
            r == spec_identifier_start(ch),
    {
        ('a' <= ch && ch <= 'z') || ('A' <= ch && ch <= 'Z') || ch == '_' || ch == '*'
    }

    pub fn is_identifier_part(&self, ch: char) -> (r: bool)
        ensures
            r == spec_identifier_part(ch),
    {
        self.is_identifier_start(ch) || ('0' <= ch && ch <= '9') || ch == '*'
    }
}

} // verus!
