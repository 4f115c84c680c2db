use vstd::prelude::*;

verus! {

/// Where a declaration stands in its source.
#[derive(Debug, Clone, Copy, PartialEq, Eq, Structural)]
pub struct Span {
    pub start: usize,
    pub end: usize,
}

/// The server configuration block of a schema: its items, and what they
/// set once resolved.
#[derive(Debug)]
pub struct Config {
    pub id: usize,
    pub source_id: usize,
    pub items: Vec<usize>,
    pub span: Span,
    pub bind: Option<(String, u16)>,
    pub jwt_secret: Option<String>,
    pub path_prefix: Option<String>,
}

impl Config {
    /// A configuration block whose settings are not resolved yet.
    pub fn new(item_id: usize, source_id: usize, items: Vec<usize>, span: Span) -> (r: Self)
        ensures
            r.id == item_id,
            r.source_id == source_id,
            r.items == items,
            r.span == span,
            r.bind is None,
            r.jwt_secret is None,
            r.path_prefix is None,
    {
        Self { id: item_id, source_id, items, span, bind: None, jwt_secret: None, path_prefix: None }
    }
}

} // verus!
