//! The pieces of the view grammar that do not hold widgets: identifiers,
//! type paths, values, expression lists, construct properties, events,
//! child properties and attributes.
//!
//! Each piece is given twice: as a spec function over a sequence of token
//! trees and a position in it, which is the grammar, and as an executable
//! function whose contract says that it computes exactly that.
use vstd::prelude::*;

use crate::model::{PathModel, ViewError};
use crate::names::{spec_last_segment_lowercase, last_segment_lowercase};
use crate::syntax::{accepts_expr, parse_path_segments, syn_accepts_expr, syn_path_segments};
use crate::table::{assoc_insert, Table};
use crate::text::{chars_of, push_char};
use crate::tokens::{
    is_ident, is_punct, leaf_text, render_into, render_tok, text_is, tok_is_punct, Delimiter,
    Punct, Tok,
};
use crate::widget::TypePath;

verus! {

/// The identifier that stands for the widget in the values of event
/// handlers.
pub const RELM_WIDGET_CLONE_IDENT: &'static str = "__relm_widget_self_clone";

/// The identifier of the widget itself.
pub const RELM_WIDGET_SELF_IDENT: &'static str = "__relm_widget_self";

// ---------------------------------------------------------------------------
// Identifiers
// ---------------------------------------------------------------------------

/// An identifier at `p`, and the position after it.
pub open spec fn spec_parse_ident(s: Seq<Tok>, p: int) -> Result<(Seq<char>, int), ViewError> {
    if p < 0 || p >= s.len() {
        Err(ViewError::UnexpectedEnd)
    } else {
        match s[p] {
            Tok::Ident(n) => Ok((n@, p + 1)),
            _ => Err(ViewError::ExpectedIdent),
        }
    }
}

/// Reads the identifier at position `p`.
pub fn parse_ident(v: &Vec<Tok>, p: usize) -> (r: Result<(String, usize), ViewError>)
    ensures
        match (r, spec_parse_ident(v@, p as int)) {
            (Ok((n, q)), Ok((n2, q2))) => n@ == n2 && q == q2,
            (Err(e), Err(e2)) => e == e2,
            _ => false,
        },
{
    if p >= v.len() {
        return Err(ViewError::UnexpectedEnd);
    }
    match &v[p] {
        Tok::Ident(n) => Ok((n.clone(), p + 1)),
        _ => Err(ViewError::ExpectedIdent),
    }
}

// ---------------------------------------------------------------------------
// `#[async]`
// ---------------------------------------------------------------------------

/// Whether an `#[async]` attribute stands at `p`, and the position after it.
pub open spec fn spec_try_parse_async(s: Seq<Tok>, p: int) -> Result<(bool, int), ViewError> {
    if p < 0 || p >= s.len() {
        Err(ViewError::UnexpectedEnd)
    } else if is_punct(s[p], Punct::Pound) {
        if p + 1 >= s.len() {
            Err(ViewError::UnexpectedEnd)
        } else {
            match s[p + 1] {
                Tok::Group(Delimiter::Bracket, inner) => if inner@.len() == 0 {
                    Err(ViewError::UnexpectedEnd)
                } else if is_ident(inner@[0], "async"@) {
                    Ok((true, p + 2))
                } else {
                    Ok((false, p))
                },
                _ => Ok((false, p)),
            }
        }
    } else {
        Ok((false, p))
    }
}

/// Reads an `#[async]` attribute at position `p`, if there is one.
pub fn try_parse_async(v: &Vec<Tok>, p: usize) -> (r: Result<(bool, usize), ViewError>)
    ensures
        match (r, spec_try_parse_async(v@, p as int)) {
            (Ok((b, q)), Ok((b2, q2))) => b == b2 && q == q2,
            (Err(e), Err(e2)) => e == e2,
            _ => false,
        },
{
    if p >= v.len() {
        return Err(ViewError::UnexpectedEnd);
    }
    if tok_is_punct(&v[p], Punct::Pound) {
        if p + 1 >= v.len() {
            return Err(ViewError::UnexpectedEnd);
        }
        match &v[p + 1] {
            Tok::Group(Delimiter::Bracket, inner) => {
                if inner.len() == 0 {
                    return Err(ViewError::UnexpectedEnd);
                }
                match &inner[0] {
                    Tok::Ident(n) => {
                        if text_is(n, "async") {
                            return Ok((true, p + 2));
                        }
                    },
                    _ => {},
                }
                Ok((false, p))
            },
            _ => Ok((false, p)),
        }
    } else {
        Ok((false, p))
    }
}

// ---------------------------------------------------------------------------
// Type paths
// ---------------------------------------------------------------------------

/// Where a type path that starts at `i` stops, `level` being the depth of
/// `<...>` brackets open there: it runs over identifiers, `::`, `<`, `>`,
/// and commas inside angle brackets.
pub open spec fn name_scan(s: Seq<Tok>, i: int, level: int) -> int
    decreases s.len() - i,
{
    if i < 0 || i >= s.len() {
        i
    } else {
        match s[i] {
            Tok::Punct(Punct::Lt) => name_scan(s, i + 1, level + 1),
            Tok::Punct(Punct::Gt) => name_scan(s, i + 1, level - 1),
            Tok::Punct(Punct::Comma) => if level == 0 {
                i
            } else {
                name_scan(s, i + 1, level)
            },
            Tok::Punct(Punct::ModSep) => name_scan(s, i + 1, level),
            Tok::Ident(_) => name_scan(s, i + 1, level),
            _ => i,
        }
    }
}

/// The texts of the tokens `s[p..q]`, written without separators.
pub open spec fn name_text(s: Seq<Tok>, p: int, q: int) -> Seq<char>
    decreases q - p,
{
    if q <= p {
        Seq::empty()
    } else {
        name_text(s, p, q - 1) + leaf_text(s[q - 1])
    }
}

pub proof fn lemma_name_scan(s: Seq<Tok>, i: int, level: int)
    requires
        0 <= i <= s.len(),
    ensures
        i <= name_scan(s, i, level) <= s.len(),
    decreases s.len() - i,
{
    if i < s.len() {
        match s[i] {
            Tok::Punct(Punct::Lt) => lemma_name_scan(s, i + 1, level + 1),
            Tok::Punct(Punct::Gt) => lemma_name_scan(s, i + 1, level - 1),
            Tok::Punct(Punct::Comma) => if level != 0 {
                lemma_name_scan(s, i + 1, level)
            },
            Tok::Punct(Punct::ModSep) => lemma_name_scan(s, i + 1, level),
            Tok::Ident(_) => lemma_name_scan(s, i + 1, level),
            _ => {},
        }
    }
}

/// A widget type at `p`: the path, and the position where it stops, or
/// `None` where no widget type stands there (no path that syn accepts, not
/// followed by a group or a comma, or ending in a lowercase segment).
pub open spec fn spec_try_parse_name(s: Seq<Tok>, p: int) -> Result<
    Option<(PathModel, int)>,
    ViewError,
> {
    let q = name_scan(s, p, 0);
    if q < 0 || q >= s.len() {
        Err(ViewError::UnexpectedEnd)
    } else if s[q] is Group || is_punct(s[q], Punct::Comma) {
        let text = name_text(s, p, q);
        match syn_path_segments(text) {
            Some(segments) => match spec_last_segment_lowercase(segments) {
                Err(e) => Err(e),
                Ok(true) => Ok(None),
                Ok(false) => Ok(Some((PathModel { text, segments }, q))),
            },
            None => Ok(None),
        }
    } else {
        Ok(None)
    }
}

pub proof fn lemma_try_parse_name(s: Seq<Tok>, p: int)
    requires
        0 <= p <= s.len(),
    ensures
        spec_try_parse_name(s, p) matches Ok(Some((_, q))) ==> q == name_scan(s, p, 0) && p
            <= q < s.len(),
{
    lemma_name_scan(s, p, 0);
}

/// The text of a leaf token.
pub fn leaf_str(t: &Tok) -> (r: &str)
    ensures
        r@ == leaf_text(*t),
{
    match t {
        Tok::Ident(n) => n.as_str(),
        Tok::Punct(p) => crate::tokens::punct_str(*p),
        Tok::Str { text, .. } => text.as_str(),
        Tok::Other(text) => text.as_str(),
        Tok::Group(_, _) => {
            proof {
                reveal_strlit("");
            }
            ""
        },
    }
}

/// Reads a widget type at position `p`, if one stands there.
pub fn try_parse_name(v: &Vec<Tok>, p: usize) -> (r: Result<Option<(TypePath, usize)>, ViewError>)
    requires
        p <= v@.len(),
    ensures
        match (r, spec_try_parse_name(v@, p as int)) {
            (Ok(Some((t, q))), Ok(Some((t2, q2)))) => t.deep_view() == t2 && q == q2,
            (Ok(None), Ok(None)) => true,
            (Err(e), Err(e2)) => e == e2,
            _ => false,
        },
{
    let mut path = String::new();
    let mut level: i128 = 0;
    let mut i = p;
    let ghost s = v@;
    while i < v.len()
        invariant
            s == v@,
            p <= i <= s.len(),
            -(i - p) <= level <= i - p,
            name_scan(s, p as int, 0) == name_scan(s, i as int, level as int),
            path@ == name_text(s, p as int, i as int),
        ensures
            p <= i <= s.len(),
            name_scan(s, p as int, 0) == i,
            path@ == name_text(s, p as int, i as int),
        decreases s.len() - i,
    {
        let t = &v[i];
        match t {
            Tok::Punct(Punct::Lt) => {
                level = level + 1;
            },
            Tok::Punct(Punct::Gt) => {
                level = level - 1;
            },
            Tok::Punct(Punct::Comma) => {
                if level == 0 {
                    break ;
                }
            },
            Tok::Punct(Punct::ModSep) => {},
            Tok::Ident(_) => {},
            _ => {
                break ;
            },
        }
        path.append(leaf_str(t));
        i = i + 1;
    }
    if i >= v.len() {
        return Err(ViewError::UnexpectedEnd);
    }
    let stops = match &v[i] {
        Tok::Group(_, _) => true,
        Tok::Punct(Punct::Comma) => true,
        _ => false,
    };
    if stops {
        match parse_path_segments(path.as_str()) {
            Some(segments) => {
                match last_segment_lowercase(&segments) {
                    Err(e) => {
                        return Err(e);
                    },
                    Ok(true) => {},
                    Ok(false) => {
                        return Ok(Some((TypePath { text: path, segments }, i)));
                    },
                }
            },
            None => {},
        }
    }
    Ok(None)
}

/// A widget type at `p`, which must stand there.
pub open spec fn spec_parse_qualified_name(s: Seq<Tok>, p: int) -> Result<
    (PathModel, int),
    ViewError,
> {
    match spec_try_parse_name(s, p) {
        Err(e) => Err(e),
        Ok(None) => Err(ViewError::ExpectedQualifiedName),
        Ok(Some(x)) => Ok(x),
    }
}

/// Reads the widget type at position `p`.
pub fn parse_qualified_name(v: &Vec<Tok>, p: usize) -> (r: Result<(TypePath, usize), ViewError>)
    requires
        p <= v@.len(),
    ensures
        match (r, spec_parse_qualified_name(v@, p as int)) {
            (Ok((t, q)), Ok((t2, q2))) => t.deep_view() == t2 && q == q2,
            (Err(e), Err(e2)) => e == e2,
            _ => false,
        },
{
    match try_parse_name(v, p) {
        Err(e) => Err(e),
        Ok(None) => Err(ViewError::ExpectedQualifiedName),
        Ok(Some(x)) => Ok(x),
    }
}

// ---------------------------------------------------------------------------
// Expressions
// ---------------------------------------------------------------------------

/// The text of an expression, where syn accepts it as one.
pub open spec fn spec_tokens_to_expr(text: Seq<char>) -> Result<Seq<char>, ViewError> {
    if syn_accepts_expr(text) {
        Ok(text)
    } else {
        Err(ViewError::InvalidExpression)
    }
}

/// Checks that `text` is an expression, and gives it back.
pub fn tokens_to_expr(text: String) -> (r: Result<String, ViewError>)
    ensures
        match (r, spec_tokens_to_expr(text@)) {
            (Ok(e), Ok(e2)) => e@ == e2,
            (Err(e), Err(e2)) => e == e2,
            _ => false,
        },
{
    if accepts_expr(text.as_str()) {
        Ok(text)
    } else {
        Err(ViewError::InvalidExpression)
    }
}

// ---------------------------------------------------------------------------
// Lists of identifiers
// ---------------------------------------------------------------------------

/// The comma-separated parameter names in `s[i..]`, `cur` being the text of
/// the parameter being read and `acc` the names read before it.
pub open spec fn ident_list_from(
    s: Seq<Tok>,
    i: int,
    cur: Seq<char>,
    acc: Seq<Seq<char>>,
) -> Result<Seq<Seq<char>>, ViewError>
    decreases s.len() - i,
{
    if i < 0 || i >= s.len() {
        Ok(acc.push(cur))
    } else if is_punct(s[i], Punct::Comma) {
        ident_list_from(s, i + 1, Seq::empty(), acc.push(cur))
    } else if s[i] is Group {
        Err(ViewError::ExpectedToken)
    } else {
        ident_list_from(s, i + 1, render_tok(cur, s[i]), acc)
    }
}

/// The parameter names of an event: `(a, b)`.
pub open spec fn spec_parse_comma_ident_list(s: Seq<Tok>) -> Result<Seq<Seq<char>>, ViewError> {
    ident_list_from(s, 0, Seq::empty(), Seq::empty())
}

/// Reads the comma-separated parameter names in `v`.
pub fn parse_comma_ident_list(v: &Vec<Tok>) -> (r: Result<Vec<String>, ViewError>)
    ensures
        match (r, spec_parse_comma_ident_list(v@)) {
            (Ok(l), Ok(l2)) => l.deep_view() == l2,
            (Err(e), Err(e2)) => e == e2,
            _ => false,
        },
{
    let mut params: Vec<String> = Vec::new();
    let mut param = String::new();
    let mut i: usize = 0;
    let ghost s = v@;
    assert(params.deep_view() =~= Seq::<Seq<char>>::empty());
    while i < v.len()
        invariant
            s == v@,
            i <= s.len(),
            spec_parse_comma_ident_list(s) == ident_list_from(
                s,
                i as int,
                param@,
                params.deep_view(),
            ),
        decreases s.len() - i,
    {
        let t = &v[i];
        if tok_is_punct(t, Punct::Comma) {
            let ghost before = params.deep_view();
            params.push(param);
            assert(params.deep_view() =~= before.push(param@));
            param = String::new();
        } else {
            match t {
                Tok::Group(_, _) => {
                    return Err(ViewError::ExpectedToken);
                },
                _ => {},
            }
            render_into(&mut param, t);
        }
        i = i + 1;
    }
    let ghost before = params.deep_view();
    params.push(param);
    assert(params.deep_view() =~= before.push(param@));
    Ok(params)
}

// ---------------------------------------------------------------------------
// Construct properties: `{ name: value, ... }`
// ---------------------------------------------------------------------------

/// Where the reader of construct properties stands.
pub enum HashState {
    InName,
    AfterName,
    InValue,
}

/// The name of a construct property: `_` written `-`.
pub open spec fn dashed(name: Seq<char>) -> Seq<char> {
    Seq::new(name.len(), |i: int| if name[i] == '_' { '-' } else { name[i] })
}

/// The construct properties in `s[i..]`: `name` and `cur` are the property
/// and the value text being read, `acc` the properties read before.
pub open spec fn hash_from(
    s: Seq<Tok>,
    i: int,
    state: HashState,
    name: Seq<char>,
    cur: Seq<char>,
    acc: Seq<(Seq<char>, Seq<char>)>,
) -> Result<Seq<(Seq<char>, Seq<char>)>, ViewError>
    decreases s.len() - i,
{
    if i < 0 || i >= s.len() {
        if syn_accepts_expr(cur) {
            Ok(assoc_insert(acc, name, cur))
        } else {
            Err(ViewError::InvalidExpression)
        }
    } else {
        match state {
            HashState::InName => match s[i] {
                Tok::Ident(n) => hash_from(s, i + 1, HashState::AfterName, dashed(n@), cur, acc),
                _ => Err(ViewError::ExpectedIdent),
            },
            HashState::AfterName => if is_punct(s[i], Punct::Colon) {
                hash_from(s, i + 1, HashState::InValue, name, cur, acc)
            } else {
                Err(ViewError::ExpectedColon)
            },
            HashState::InValue => if is_punct(s[i], Punct::Comma) {
                if syn_accepts_expr(cur) {
                    hash_from(
                        s,
                        i + 1,
                        HashState::InName,
                        Seq::empty(),
                        Seq::empty(),
                        assoc_insert(acc, name, cur),
                    )
                } else {
                    Err(ViewError::InvalidExpression)
                }
            } else {
                hash_from(s, i + 1, HashState::InValue, name, render_tok(cur, s[i]), acc)
            },
        }
    }
}

/// The construct properties `name: value, ...` in `s`.
pub open spec fn spec_parse_hash(s: Seq<Tok>) -> Result<Seq<(Seq<char>, Seq<char>)>, ViewError> {
    hash_from(s, 0, HashState::InName, Seq::empty(), Seq::empty(), Seq::empty())
}

/// The name with each `_` replaced by `-`.
pub fn dash_name(name: &String) -> (r: String)
    ensures
        r@ == dashed(name@),
{
    let chars = chars_of(name.as_str());
    let mut r = String::new();
    let mut i: usize = 0;
    while i < chars.len()
        invariant
            chars@ == name@,
            i <= chars@.len(),
            r@ == dashed(name@).subrange(0, i as int),
        decreases chars@.len() - i,
    {
        let c = chars[i];
        if c == '_' {
            push_char(&mut r, '-');
        } else {
            push_char(&mut r, c);
        }
        i = i + 1;
        assert(r@ =~= dashed(name@).subrange(0, i as int));
    }
    assert(r@ =~= dashed(name@));
    r
}

/// Reads the construct properties `name: value, ...` in `v`.
pub fn parse_hash(v: &Vec<Tok>) -> (r: Result<Table<String, String>, ViewError>)
    ensures
        match (r, spec_parse_hash(v@)) {
            (Ok(t), Ok(t2)) => t.deep_view() == t2,
            (Err(e), Err(e2)) => e == e2,
            _ => false,
        },
{
    let mut params: Table<String, String> = Table::new();
    let mut current = String::new();
    let mut state = HashState::InName;
    let mut name = String::new();
    let mut i: usize = 0;
    let ghost s = v@;
    while i < v.len()
        invariant
            s == v@,
            i <= s.len(),
            spec_parse_hash(s) == hash_from(
                s,
                i as int,
                state,
                name@,
                current@,
                params.deep_view(),
            ),
        decreases s.len() - i,
    {
        let t = &v[i];
        match state {
            HashState::InName => {
                match t {
                    Tok::Ident(n) => {
                        name = dash_name(n);
                        state = HashState::AfterName;
                    },
                    _ => {
                        return Err(ViewError::ExpectedIdent);
                    },
                }
            },
            HashState::AfterName => {
                if tok_is_punct(t, Punct::Colon) {
                    state = HashState::InValue;
                } else {
                    return Err(ViewError::ExpectedColon);
                }
            },
            HashState::InValue => {
                if tok_is_punct(t, Punct::Comma) {
                    let value = match tokens_to_expr(current) {
                        Ok(value) => value,
                        Err(e) => {
                            return Err(e);
                        },
                    };
                    params.insert(name, value);
                    name = String::new();
                    current = String::new();
                    state = HashState::InName;
                } else {
                    render_into(&mut current, t);
                }
            },
        }
        i = i + 1;
    }
    let value = match tokens_to_expr(current) {
        Ok(value) => value,
        Err(e) => {
            return Err(e);
        },
    };
    params.insert(name, value);
    Ok(params)
}

// ---------------------------------------------------------------------------
// Expression lists: `(a, b, ...)`
// ---------------------------------------------------------------------------

/// The comma-separated expressions in `s[i..]`.
pub open spec fn comma_list_from(
    s: Seq<Tok>,
    i: int,
    cur: Seq<char>,
    acc: Seq<Seq<char>>,
) -> Result<Seq<Seq<char>>, ViewError>
    decreases s.len() - i,
{
    if i < 0 || i >= s.len() {
        if syn_accepts_expr(cur) {
            Ok(acc.push(cur))
        } else {
            Err(ViewError::InvalidExpression)
        }
    } else if is_punct(s[i], Punct::Comma) {
        if syn_accepts_expr(cur) {
            comma_list_from(s, i + 1, Seq::empty(), acc.push(cur))
        } else {
            Err(ViewError::InvalidExpression)
        }
    } else {
        comma_list_from(s, i + 1, render_tok(cur, s[i]), acc)
    }
}

/// The comma-separated expressions in `s`, as text.
pub open spec fn spec_parse_comma_list(s: Seq<Tok>) -> Result<Seq<Seq<char>>, ViewError> {
    comma_list_from(s, 0, Seq::empty(), Seq::empty())
}

/// Reads the comma-separated expressions in `v`.
pub fn parse_comma_list(v: &Vec<Tok>) -> (r: Result<Vec<String>, ViewError>)
    ensures
        match (r, spec_parse_comma_list(v@)) {
            (Ok(l), Ok(l2)) => l.deep_view() == l2,
            (Err(e), Err(e2)) => e == e2,
            _ => false,
        },
{
    let mut params: Vec<String> = Vec::new();
    let mut current = String::new();
    let mut i: usize = 0;
    let ghost s = v@;
    assert(params.deep_view() =~= Seq::<Seq<char>>::empty());
    while i < v.len()
        invariant
            s == v@,
            i <= s.len(),
            spec_parse_comma_list(s) == comma_list_from(
                s,
                i as int,
                current@,
                params.deep_view(),
            ),
        decreases s.len() - i,
    {
        let t = &v[i];
        if tok_is_punct(t, Punct::Comma) {
            let value = match tokens_to_expr(current) {
                Ok(value) => value,
                Err(e) => {
                    return Err(e);
                },
            };
            let ghost before = params.deep_view();
            params.push(value);
            assert(params.deep_view() =~= before.push(value@));
            current = String::new();
        } else {
            render_into(&mut current, t);
        }
        i = i + 1;
    }
    let value = match tokens_to_expr(current) {
        Ok(value) => value,
        Err(e) => {
            return Err(e);
        },
    };
    let ghost before = params.deep_view();
    params.push(value);
    assert(params.deep_view() =~= before.push(value@));
    Ok(params)
}

} // verus!
