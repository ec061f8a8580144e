//! Parsed search queries.
//!
//! The query language itself — which filters there are and what they mean —
//! belongs to the program around this crate. What the interface works with is
//! the parse of a query text: its parts, where each stands, and what the cursor
//! is in.

use vstd::prelude::*;
use vstd::string::*;

verus! {

/// A range of characters.
#[derive(Debug, Clone, Copy, PartialEq, Eq, Structural)]
pub struct Span {
    pub start: usize,
    pub end: usize,
}

/// One part of a query text.
#[derive(Debug)]
pub enum QueryPart {
    Whitespace { span: Span },
    /// `name:value`; `name` is canonical. `error` says what is wrong with it.
    Filter { name: String, value: String, span: Span, value_span: Span, error: Option<String> },
    /// `/pattern/`.
    Regex { span: Span, error: Option<String> },
    /// Full-text search terms.
    Fts { span: Span },
}

fn copied(s: &Option<String>) -> (r: Option<String>)
    ensures
        r == *s,
{
    match s {
        Some(text) => Some(text.clone()),
        None => None,
    }
}

impl Clone for QueryPart {
    fn clone(&self) -> (copy: Self)
        ensures
            copy == *self,
    {
        match self {
            QueryPart::Whitespace { span } => QueryPart::Whitespace { span: *span },
            QueryPart::Filter { name, value, span, value_span, error } => QueryPart::Filter {
                name: name.clone(),
                value: value.clone(),
                span: *span,
                value_span: *value_span,
                error: copied(error),
            },
            QueryPart::Regex { span, error } => QueryPart::Regex {
                span: *span,
                error: copied(error),
            },
            QueryPart::Fts { span } => QueryPart::Fts { span: *span },
        }
    }
}

impl QueryPart {
    pub open spec fn place(self) -> Span {
        match self {
            QueryPart::Whitespace { span } => span,
            QueryPart::Filter { span, .. } => span,
            QueryPart::Regex { span, .. } => span,
            QueryPart::Fts { span } => span,
        }
    }

    pub fn span(&self) -> (span: Span)
        ensures
            span == self.place(),
    {
        match self {
            QueryPart::Whitespace { span } => *span,
            QueryPart::Filter { span, .. } => *span,
            QueryPart::Regex { span, .. } => *span,
            QueryPart::Fts { span } => *span,
        }
    }

    /// What is wrong with the part.
    pub open spec fn fault(self) -> Option<String> {
        match self {
            QueryPart::Filter { error, .. } => error,
            QueryPart::Regex { error, .. } => error,
            _ => None,
        }
    }

    pub fn error(&self) -> (error: Option<&String>)
        ensures
            match error {
                Some(e) => self.fault() == Some(*e),
                None => self.fault() is None,
            },
    {
        match self {
            QueryPart::Filter { error, .. } => error.as_ref(),
            QueryPart::Regex { error, .. } => error.as_ref(),
            _ => None,
        }
    }
}

/// A query as its parts, in order.
#[derive(Debug)]
pub struct ParsedQuery {
    pub parts: Vec<QueryPart>,
}

impl ParsedQuery {
    pub fn empty() -> (query: Self)
        ensures
            query.parts@ == Seq::<QueryPart>::empty(),
    {
        ParsedQuery { parts: Vec::new() }
    }

    pub fn is_empty(&self) -> (empty: bool)
        ensures
            empty == (self.parts@.len() == 0),
    {
        self.parts.len() == 0
    }
}

/// What the cursor is in.
#[derive(Debug)]
pub enum CursorContext {
    Whitespace,
    Fts,
    /// The value of a filter; `offset` counts from the value's start.
    Filter { name: String, offset: usize },
    Regex,
}

} // verus!
