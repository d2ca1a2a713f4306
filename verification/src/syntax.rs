//! The calls into `syn` that the parser makes: reading a type path and
//! checking an expression.
use vstd::prelude::*;

verus! {

/// What `syn::parse_path` makes of a text: the identifiers of the path's
/// segments in order, or `None` where it refuses the text.
pub uninterp spec fn syn_path_segments(text: Seq<char>) -> Option<Seq<Seq<char>>>;

/// Whether `syn::parse_expr` accepts the text as an expression.
pub uninterp spec fn syn_accepts_expr(text: Seq<char>) -> bool;

/// Calls `syn::parse_path` on `text` and hands back the identifiers of the
/// segments of the path it read, or `None` where it returned an error.
/// Trusted: the result is `syn_path_segments` of the text, a name for what
/// the syn parser computes from the text alone; nothing more is stated of it.
#[verifier::external_body]
pub(crate) fn parse_path_segments(text: &str) -> (r: Option<Vec<String>>)
    ensures
        r.deep_view() == syn_path_segments(text@),
{
    match syn::parse_path(text) {
        Ok(path) => Some(path.segments.iter().map(|seg| seg.ident.as_ref().to_string()).collect()),
        Err(_) => None,
    }
}

/// Calls `syn::parse_expr` on `text` and tells whether it succeeded.
/// Trusted: the result is `syn_accepts_expr` of the text, a name for what
/// the syn parser decides from the text alone.
#[verifier::external_body]
pub(crate) fn accepts_expr(text: &str) -> (b: bool)
    ensures
        b == syn_accepts_expr(text@),
{
    syn::parse_expr(text).is_ok()
}

} // verus!
