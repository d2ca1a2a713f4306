//! Values, event handlers, child properties and attributes of the view
//! grammar: their spec functions and the functions that read them.
use vstd::prelude::*;

use crate::model::{EventModel, EventValueModel, EventValueReturnModel, ViewError};
use crate::pieces::{
    parse_comma_ident_list, parse_ident, spec_parse_comma_ident_list, spec_parse_ident,
    tokens_to_expr, RELM_WIDGET_CLONE_IDENT,
};
use crate::syntax::syn_accepts_expr;
use crate::table::{assoc_insert, Table};
use crate::tokens::{
    append_piece, is_ident, is_punct, push_piece, render_into, render_tok, text_is, tok_is_punct,
    Delimiter, Punct, Tok,
};
use crate::widget::{Event, EventValue, EventValueReturn};

verus! {

/// The position after an optional comma at `r`.
pub open spec fn skip_comma(s: Seq<Tok>, r: int) -> int {
    if 0 <= r < s.len() && is_punct(s[r], Punct::Comma) {
        r + 1
    } else {
        r
    }
}

// ---------------------------------------------------------------------------
// Values
// ---------------------------------------------------------------------------

/// A value in `s[i..]`: its text, where it stops (at a comma outside a
/// closure's parameters, or at the end), and whether it uses `self`.
/// `in_closure` tells whether a closure's `|...|` parameter list is open,
/// `in_value` whether a closure's body has begun; in an event handler, or in
/// a closure's body, `self` is written as the widget's clone identifier.
pub open spec fn value_from(
    s: Seq<Tok>,
    i: int,
    is_event: bool,
    in_closure: bool,
    in_value: bool,
    cur: Seq<char>,
    use_self: bool,
) -> (Seq<char>, int, bool)
    decreases s.len() - i,
{
    if i < 0 || i >= s.len() {
        (cur, i, use_self)
    } else if is_ident(s[i], "self"@) {
        let id = if is_event || in_value {
            RELM_WIDGET_CLONE_IDENT@
        } else {
            "self"@
        };
        value_from(s, i + 1, is_event, in_closure, in_value, append_piece(cur, id), true)
    } else if is_punct(s[i], Punct::Comma) && !in_closure {
        (cur, i, use_self)
    } else if is_punct(s[i], Punct::Or) {
        value_from(
            s,
            i + 1,
            is_event,
            !in_closure,
            if in_closure {
                true
            } else {
                in_value
            },
            render_tok(cur, s[i]),
            use_self,
        )
    } else {
        value_from(s, i + 1, is_event, in_closure, in_value, render_tok(cur, s[i]), use_self)
    }
}

/// The value at `p`.
pub open spec fn spec_parse_value(s: Seq<Tok>, p: int, is_event: bool) -> (Seq<char>, int, bool) {
    value_from(s, p, is_event, false, false, Seq::empty(), false)
}

pub proof fn lemma_value_from(
    s: Seq<Tok>,
    i: int,
    is_event: bool,
    in_closure: bool,
    in_value: bool,
    cur: Seq<char>,
    use_self: bool,
)
    requires
        0 <= i <= s.len(),
    ensures
        i <= value_from(s, i, is_event, in_closure, in_value, cur, use_self).1 <= s.len(),
    decreases s.len() - i,
{
    if i < s.len() {
        if is_ident(s[i], "self"@) {
            let id = if is_event || in_value {
                RELM_WIDGET_CLONE_IDENT@
            } else {
                "self"@
            };
            lemma_value_from(s, i + 1, is_event, in_closure, in_value, append_piece(cur, id), true);
        } else if is_punct(s[i], Punct::Comma) && !in_closure {
        } else if is_punct(s[i], Punct::Or) {
            lemma_value_from(
                s,
                i + 1,
                is_event,
                !in_closure,
                if in_closure {
                    true
                } else {
                    in_value
                },
                render_tok(cur, s[i]),
                use_self,
            );
        } else {
            lemma_value_from(
                s,
                i + 1,
                is_event,
                in_closure,
                in_value,
                render_tok(cur, s[i]),
                use_self,
            );
        }
    }
}

/// Reads the value at position `p`: its text (with `self` rewritten as
/// described at `value_from`), where it stops, and whether it uses `self`.
pub fn parse_value(v: &Vec<Tok>, p: usize, is_event: bool) -> (r: (String, usize, bool))
    requires
        p <= v@.len(),
    ensures
        (r.0@, r.1 as int, r.2) == spec_parse_value(v@, p as int, is_event),
{
    let mut cur = String::new();
    let mut i = p;
    let mut in_closure = false;
    let mut in_value = false;
    let mut use_self = false;
    let ghost s = v@;
    while i < v.len()
        invariant
            s == v@,
            p <= i <= s.len(),
            spec_parse_value(s, p as int, is_event) == value_from(
                s,
                i as int,
                is_event,
                in_closure,
                in_value,
                cur@,
                use_self,
            ),
        ensures
            spec_parse_value(s, p as int, is_event) == (cur@, i as int, use_self),
        decreases s.len() - i,
    {
        let t = &v[i];
        let is_self = match t {
            Tok::Ident(n) => text_is(n, "self"),
            _ => false,
        };
        if is_self {
            use_self = true;
            if is_event || in_value {
                push_piece(&mut cur, RELM_WIDGET_CLONE_IDENT);
            } else {
                push_piece(&mut cur, "self");
            }
        } else if tok_is_punct(t, Punct::Comma) && !in_closure {
            break ;
        } else if tok_is_punct(t, Punct::Or) {
            if in_closure {
                in_value = true;
            }
            in_closure = !in_closure;
            render_into(&mut cur, t);
        } else {
            render_into(&mut cur, t);
        }
        i = i + 1;
    }
    (cur, i, use_self)
}

// ---------------------------------------------------------------------------
// Event handlers
// ---------------------------------------------------------------------------

/// The value of an event handler at `p`, where it stops, and whether it uses
/// `self`.
pub open spec fn spec_parse_event_value(s: Seq<Tok>, p: int) -> Result<
    (EventValueReturnModel, int, bool),
    ViewError,
> {
    if p < 0 || p >= s.len() {
        Err(ViewError::UnexpectedEnd)
    } else if is_ident(s[p], "return"@) {
        let (v, q, u) = spec_parse_value(s, p + 1, true);
        Ok((EventValueReturnModel::CallReturn(v), q, u))
    } else {
        match s[p] {
            Tok::Group(Delimiter::Paren, inner) => {
                let (v1, q, u1) = spec_parse_value(inner@, 0, true);
                if q < 0 || q >= inner@.len() {
                    Err(ViewError::UnexpectedEnd)
                } else if !is_punct(inner@[q], Punct::Comma) {
                    Err(ViewError::ExpectedComma)
                } else {
                    let (v2, _, u2) = spec_parse_value(inner@, q + 1, true);
                    Ok((EventValueReturnModel::Return(v1, v2), p + 1, u1 || u2))
                }
            },
            _ => {
                let (v, q, u) = spec_parse_value(s, p, true);
                Ok((EventValueReturnModel::WithoutReturn(v), q, u))
            },
        }
    }
}

pub proof fn lemma_event_value(s: Seq<Tok>, p: int)
    requires
        0 <= p <= s.len(),
    ensures
        spec_parse_event_value(s, p) matches Ok((_, q, _)) ==> p <= q <= s.len(),
{
    if p < s.len() {
        if is_ident(s[p], "return"@) {
            lemma_value_from(s, p + 1, true, false, false, Seq::empty(), false);
        } else {
            lemma_value_from(s, p, true, false, false, Seq::empty(), false);
        }
    }
}

/// Reads the value of an event handler at position `p`.
pub fn parse_event_value(v: &Vec<Tok>, p: usize) -> (r: Result<
    (EventValueReturn, usize, bool),
    ViewError,
>)
    requires
        p <= v@.len(),
    ensures
        match (r, spec_parse_event_value(v@, p as int)) {
            (Ok((e, q, u)), Ok((e2, q2, u2))) => e.deep_view() == e2 && q == q2 && u == u2,
            (Err(e), Err(e2)) => e == e2,
            _ => false,
        },
{
    if p >= v.len() {
        return Err(ViewError::UnexpectedEnd);
    }
    let is_return = match &v[p] {
        Tok::Ident(n) => text_is(n, "return"),
        _ => false,
    };
    if is_return {
        let (value, q, use_self) = parse_value(v, p + 1, true);
        return Ok((EventValueReturn::CallReturn(value), q, use_self));
    }
    match &v[p] {
        Tok::Group(Delimiter::Paren, inner) => {
            let (value1, q, use_self1) = parse_value(inner, 0, true);
            if q >= inner.len() {
                return Err(ViewError::UnexpectedEnd);
            }
            if !tok_is_punct(&inner[q], Punct::Comma) {
                return Err(ViewError::ExpectedComma);
            }
            let (value2, _, use_self2) = parse_value(inner, q + 1, true);
            Ok((EventValueReturn::Return(value1, value2), p + 1, use_self1 || use_self2))
        },
        _ => {
            let (value, q, use_self) = parse_value(v, p, true);
            Ok((EventValueReturn::WithoutReturn(value), q, use_self))
        },
    }
}

/// The parameters that an event handler has when none are written: `_`
/// where one parameter is expected, none otherwise.
pub open spec fn default_params(one_param: bool) -> Seq<Seq<char>> {
    if one_param {
        seq![seq!['_']]
    } else {
        Seq::empty()
    }
}

/// An event handler at `p`, `(params) => value`, and where it stops. A
/// value written `widget@message` goes to the widget `widget`.
pub open spec fn spec_parse_event(s: Seq<Tok>, p: int, one_param: bool) -> Result<
    (EventModel, int),
    ViewError,
> {
    if p < 0 || p >= s.len() {
        Err(ViewError::UnexpectedEnd)
    } else {
        let head: Result<(Seq<Seq<char>>, int), ViewError> = match s[p] {
            Tok::Group(Delimiter::Paren, inner) => match spec_parse_comma_ident_list(inner@) {
                Ok(l) => Ok((l, p + 1)),
                Err(e) => Err(e),
            },
            _ => Ok((default_params(one_param), p)),
        };
        match head {
            Err(e) => Err(e),
            Ok((params, p1)) => if p1 >= s.len() {
                Err(ViewError::UnexpectedEnd)
            } else if !is_punct(s[p1], Punct::FatArrow) {
                Err(ViewError::ExpectedFatArrow)
            } else {
                let p2 = p1 + 1;
                if s.len() - p2 >= 2 && is_punct(s[p2 + 1], Punct::At) {
                    match spec_parse_event_value(s, p2 + 2) {
                        Err(e) => Err(e),
                        Ok((ev, q, u)) => match spec_parse_ident(s, p2) {
                            Err(e) => Err(e),
                            Ok((id, _)) => Ok(
                                (
                                    EventModel {
                                        is_async: false,
                                        params,
                                        use_self: u,
                                        value: EventValueModel::ForeignWidget(
                                            append_piece(Seq::empty(), id),
                                            ev,
                                        ),
                                    },
                                    q,
                                ),
                            ),
                        },
                    }
                } else {
                    match spec_parse_event_value(s, p2) {
                        Err(e) => Err(e),
                        Ok((ev, q, u)) => Ok(
                            (
                                EventModel {
                                    is_async: false,
                                    params,
                                    use_self: u,
                                    value: EventValueModel::CurrentWidget(ev),
                                },
                                q,
                            ),
                        ),
                    }
                }
            },
        }
    }
}

pub proof fn lemma_event(s: Seq<Tok>, p: int, one_param: bool)
    requires
        0 <= p <= s.len(),
    ensures
        spec_parse_event(s, p, one_param) matches Ok((_, q)) ==> p < q <= s.len(),
{
    if p < s.len() {
        let p1 = match s[p] {
            Tok::Group(Delimiter::Paren, _) => p + 1,
            _ => p,
        };
        if p1 < s.len() {
            let p2 = p1 + 1;
            if s.len() - p2 >= 2 {
                lemma_event_value(s, p2 + 2);
            }
            lemma_event_value(s, p2);
        }
    }
}

/// Reads an event handler at position `p`; `one_param` tells whether a
/// handler without parameter list has the one parameter `_`.
pub fn parse_event(v: &Vec<Tok>, p: usize, one_param: bool) -> (r: Result<(Event, usize), ViewError>)
    requires
        p <= v@.len(),
    ensures
        match (r, spec_parse_event(v@, p as int, one_param)) {
            (Ok((e, q)), Ok((e2, q2))) => e.deep_view() == e2 && q == q2,
            (Err(e), Err(e2)) => e == e2,
            _ => false,
        },
{
    let mut event = Event::new();
    if !one_param {
        event.params = Vec::new();
        assert(event.params.deep_view() =~= Seq::<Seq<char>>::empty());
    }
    if p >= v.len() {
        return Err(ViewError::UnexpectedEnd);
    }
    let mut q = p;
    match &v[p] {
        Tok::Group(Delimiter::Paren, inner) => {
            match parse_comma_ident_list(inner) {
                Ok(l) => {
                    event.params = l;
                },
                Err(e) => {
                    return Err(e);
                },
            }
            q = p + 1;
        },
        _ => {},
    }
    if q >= v.len() {
        return Err(ViewError::UnexpectedEnd);
    }
    if !tok_is_punct(&v[q], Punct::FatArrow) {
        return Err(ViewError::ExpectedFatArrow);
    }
    q = q + 1;
    if v.len() - q >= 2 && tok_is_punct(&v[q + 1], Punct::At) {
        match parse_event_value(v, q + 2) {
            Err(e) => Err(e),
            Ok((value, end, use_self)) => {
                match parse_ident(v, q) {
                    Err(e) => Err(e),
                    Ok((ident, _)) => {
                        let mut ident_tokens = String::new();
                        push_piece(&mut ident_tokens, ident.as_str());
                        event.use_self = use_self;
                        event.value = EventValue::ForeignWidget(ident_tokens, value);
                        Ok((event, end))
                    },
                }
            },
        }
    } else {
        match parse_event_value(v, q) {
            Err(e) => Err(e),
            Ok((value, end, use_self)) => {
                event.use_self = use_self;
                event.value = EventValue::CurrentWidget(value);
                Ok((event, end))
            },
        }
    }
}

// ---------------------------------------------------------------------------
// Child properties: `{ name: value, ... }`
// ---------------------------------------------------------------------------

/// The child properties in `s[i..]`, as value text, `acc` holding those read
/// before.
pub open spec fn child_props_from(
    s: Seq<Tok>,
    i: int,
    acc: Seq<(Seq<char>, Seq<char>)>,
) -> Result<Seq<(Seq<char>, Seq<char>)>, ViewError>
    decreases s.len() - i,
{
    if i < 0 || i >= s.len() {
        Ok(acc)
    } else {
        match spec_parse_ident(s, i) {
            Err(e) => Err(e),
            Ok((id, i1)) => if i1 >= s.len() {
                Err(ViewError::UnexpectedEnd)
            } else if is_punct(s[i1], Punct::Colon) {
                let (v, q, _) = spec_parse_value(s, i1 + 1, false);
                proof {
                    lemma_value_from(s, i1 + 1, false, false, false, Seq::empty(), false);
                }
                child_props_from(s, skip_comma(s, q), assoc_insert(acc, id, v))
            } else {
                child_props_from(s, skip_comma(s, i1), acc)
            },
        }
    }
}

/// The child properties `name: value, ...` in `s`.
pub open spec fn spec_parse_child_properties(s: Seq<Tok>) -> Result<
    Seq<(Seq<char>, Seq<char>)>,
    ViewError,
> {
    child_props_from(s, 0, Seq::empty())
}

/// Reads the child properties `name: value, ...` in `v`.
pub fn parse_child_properties(v: &Vec<Tok>) -> (r: Result<Table<String, String>, ViewError>)
    ensures
        match (r, spec_parse_child_properties(v@)) {
            (Ok(t), Ok(t2)) => t.deep_view() == t2,
            (Err(e), Err(e2)) => e == e2,
            _ => false,
        },
{
    let mut properties: Table<String, String> = Table::new();
    let mut i: usize = 0;
    let ghost s = v@;
    while i < v.len()
        invariant
            s == v@,
            i <= s.len(),
            spec_parse_child_properties(s) == child_props_from(
                s,
                i as int,
                properties.deep_view(),
            ),
        decreases s.len() - i,
    {
        let ident = match parse_ident(v, i) {
            Ok((ident, _)) => ident,
            Err(e) => {
                return Err(e);
            },
        };
        i = i + 1;
        if i >= v.len() {
            return Err(ViewError::UnexpectedEnd);
        }
        if tok_is_punct(&v[i], Punct::Colon) {
            let (value, q, _) = parse_value(v, i + 1, false);
            proof {
                lemma_value_from(s, i + 1, false, false, false, Seq::empty(), false);
            }
            properties.insert(ident, value);
            i = q;
        }
        if i < v.len() && tok_is_punct(&v[i], Punct::Comma) {
            i = i + 1;
        }
    }
    Ok(properties)
}

/// `acc` after each value of `t` from position `i` on has been checked to be
/// an expression and stored under its key.
pub open spec fn insert_exprs(
    acc: Seq<(Seq<char>, Seq<char>)>,
    t: Seq<(Seq<char>, Seq<char>)>,
    i: int,
) -> Result<Seq<(Seq<char>, Seq<char>)>, ViewError>
    decreases t.len() - i,
{
    if i < 0 || i >= t.len() {
        Ok(acc)
    } else if syn_accepts_expr(t[i].1) {
        insert_exprs(assoc_insert(acc, t[i].0, t[i].1), t, i + 1)
    } else {
        Err(ViewError::InvalidExpression)
    }
}

/// What follows the `:` at `p` after the name `ident` in a widget's body:
/// either child properties `{ ... }`, which go to `child_properties`, or a
/// value, which goes to `properties` under `ident`. The result holds where
/// the property stops and both tables afterwards.
pub open spec fn spec_value_or_child_properties(
    s: Seq<Tok>,
    p: int,
    ident: Seq<char>,
    child_properties: Seq<(Seq<char>, Seq<char>)>,
    properties: Seq<(Seq<char>, Seq<char>)>,
) -> Result<(int, Seq<(Seq<char>, Seq<char>)>, Seq<(Seq<char>, Seq<char>)>), ViewError> {
    if p + 1 < 0 || p + 1 >= s.len() {
        Err(ViewError::UnexpectedEnd)
    } else {
        match s[p + 1] {
            Tok::Group(Delimiter::Brace, inner) => match spec_parse_child_properties(inner@) {
                Err(e) => Err(e),
                Ok(t) => match insert_exprs(child_properties, t, 0) {
                    Err(e) => Err(e),
                    Ok(cp) => Ok((p + 2, cp, properties)),
                },
            },
            _ => {
                let (v, q, _) = spec_parse_value(s, p + 1, false);
                if syn_accepts_expr(v) {
                    Ok((q, child_properties, assoc_insert(properties, ident, v)))
                } else {
                    Err(ViewError::InvalidExpression)
                }
            },
        }
    }
}

pub proof fn lemma_value_or_child_properties(
    s: Seq<Tok>,
    p: int,
    ident: Seq<char>,
    child_properties: Seq<(Seq<char>, Seq<char>)>,
    properties: Seq<(Seq<char>, Seq<char>)>,
)
    requires
        0 <= p <= s.len(),
    ensures
        spec_value_or_child_properties(s, p, ident, child_properties, properties) matches Ok(
            (q, _, _),
        ) ==> p < q <= s.len(),
{
    if p + 1 < s.len() {
        lemma_value_from(s, p + 1, false, false, false, Seq::empty(), false);
    }
}

/// Reads what follows the `:` at position `p` after the property name
/// `ident`: child properties go to `child_properties`, a value to
/// `properties`. Gives back where the property stops.
pub fn parse_value_or_child_properties(
    v: &Vec<Tok>,
    p: usize,
    ident: String,
    child_properties: &mut Table<String, String>,
    properties: &mut Table<String, String>,
) -> (r: Result<usize, ViewError>)
    requires
        p <= v@.len(),
    ensures
        match (
            r,
            spec_value_or_child_properties(
                v@,
                p as int,
                ident@,
                old(child_properties).deep_view(),
                old(properties).deep_view(),
            ),
        ) {
            (Ok(q), Ok((q2, cp, pr))) => q == q2 && final(child_properties).deep_view() == cp
                && final(properties).deep_view() == pr,
            (Err(e), Err(e2)) => e == e2,
            _ => false,
        },
{
    if p >= v.len() || p + 1 >= v.len() {
        return Err(ViewError::UnexpectedEnd);
    }
    match &v[p + 1] {
        Tok::Group(Delimiter::Brace, inner) => {
            let props = match parse_child_properties(inner) {
                Ok(t) => t,
                Err(e) => {
                    return Err(e);
                },
            };
            let ghost t = props.deep_view();
            let ghost start = child_properties.deep_view();
            let ghost goal = spec_value_or_child_properties(
                v@,
                p as int,
                ident@,
                old(child_properties).deep_view(),
                old(properties).deep_view(),
            );
            assert(goal == match insert_exprs(start, t, 0) {
                Err(e) => Err(e),
                Ok(cp) => Ok(((p + 2) as int, cp, old(properties).deep_view())),
            });
            let mut i: usize = 0;
            while i < props.len()
                invariant
                    goal == match insert_exprs(start, t, 0) {
                        Err(e) => Err(e),
                        Ok(cp) => Ok(((p + 2) as int, cp, old(properties).deep_view())),
                    },
                    goal == spec_value_or_child_properties(
                        v@,
                        p as int,
                        ident@,
                        old(child_properties).deep_view(),
                        old(properties).deep_view(),
                    ),
                    properties.deep_view() == old(properties).deep_view(),
                    t == props.deep_view(),
                    i <= t.len(),
                    insert_exprs(start, t, 0) == insert_exprs(
                        child_properties.deep_view(),
                        t,
                        i as int,
                    ),
                decreases t.len() - i,
            {
                let entry = props.entry(i);
                let value = match tokens_to_expr(entry.1.clone()) {
                    Ok(value) => value,
                    Err(e) => {
                        return Err(e);
                    },
                };
                child_properties.insert(entry.0.clone(), value);
                i = i + 1;
            }
            Ok(p + 2)
        },
        _ => {
            let (value, q, _) = parse_value(v, p + 1, false);
            let value = match tokens_to_expr(value) {
                Ok(value) => value,
                Err(e) => {
                    return Err(e);
                },
            };
            properties.insert(ident, value);
            Ok(q)
        },
    }
}

// ---------------------------------------------------------------------------
// Attributes: `#[name]`, `#[name = "value"]`
// ---------------------------------------------------------------------------

/// What an attribute's bracket group `[...]` holds: `None` where it does not
/// start with an identifier, else the name and, for `name = "value"` with a
/// plain string literal, the value.
pub open spec fn spec_attribute(inner: Seq<Tok>) -> Result<
    Option<(Seq<char>, Option<Seq<char>>)>,
    ViewError,
> {
    if inner.len() == 0 {
        Err(ViewError::UnexpectedEnd)
    } else {
        match inner[0] {
            Tok::Ident(n) => if inner.len() > 1 && is_punct(inner[1], Punct::Eq) {
                if inner.len() <= 2 {
                    Err(ViewError::UnexpectedEnd)
                } else {
                    match inner[2] {
                        Tok::Str { value, cooked, .. } => if cooked {
                            Ok(Some((n@, Some(value@))))
                        } else {
                            Ok(Some((n@, None)))
                        },
                        _ => Ok(Some((n@, None))),
                    }
                }
            } else {
                Ok(Some((n@, None)))
            },
            _ => Ok(None),
        }
    }
}

/// The attributes `#[...]` in `s[i..]`, and where they stop.
pub open spec fn attrs_from(s: Seq<Tok>, i: int, acc: Seq<(Seq<char>, Option<Seq<char>>)>) -> Result<
    (Seq<(Seq<char>, Option<Seq<char>>)>, int),
    ViewError,
>
    decreases s.len() - i,
{
    if i < 0 || i >= s.len() {
        Err(ViewError::UnexpectedEnd)
    } else if !is_punct(s[i], Punct::Pound) {
        Ok((acc, i))
    } else if i + 1 >= s.len() {
        Err(ViewError::UnexpectedEnd)
    } else {
        match s[i + 1] {
            Tok::Group(Delimiter::Bracket, inner) => match spec_attribute(inner@) {
                Err(e) => Err(e),
                Ok(Some((name, value))) => attrs_from(s, i + 2, assoc_insert(acc, name, value)),
                Ok(None) => attrs_from(s, i + 2, acc),
            },
            _ => attrs_from(s, i + 1, acc),
        }
    }
}

/// The attributes at `p`, and where they stop.
pub open spec fn spec_parse_attributes(s: Seq<Tok>, p: int) -> Result<
    (Seq<(Seq<char>, Option<Seq<char>>)>, int),
    ViewError,
> {
    attrs_from(s, p, Seq::empty())
}

pub proof fn lemma_attrs_from(s: Seq<Tok>, i: int, acc: Seq<(Seq<char>, Option<Seq<char>>)>)
    requires
        0 <= i <= s.len(),
    ensures
        attrs_from(s, i, acc) matches Ok((_, q)) ==> i <= q < s.len(),
    decreases s.len() - i,
{
    if i < s.len() && is_punct(s[i], Punct::Pound) && i + 1 < s.len() {
        match s[i + 1] {
            Tok::Group(Delimiter::Bracket, inner) => match spec_attribute(inner@) {
                Err(e) => {},
                Ok(Some((name, value))) => lemma_attrs_from(s, i + 2, assoc_insert(acc, name, value)),
                Ok(None) => lemma_attrs_from(s, i + 2, acc),
            },
            _ => lemma_attrs_from(s, i + 1, acc),
        }
    }
}

/// Reads what an attribute's bracket group holds.
pub fn parse_attribute(inner: &Vec<Tok>) -> (r: Result<Option<(String, Option<String>)>, ViewError>)
    ensures
        match (r, spec_attribute(inner@)) {
            (Ok(Some((n, value))), Ok(Some((n2, value2)))) => n@ == n2 && value.deep_view()
                == value2,
            (Ok(None), Ok(None)) => true,
            (Err(e), Err(e2)) => e == e2,
            _ => false,
        },
{
    if inner.len() == 0 {
        return Err(ViewError::UnexpectedEnd);
    }
    match &inner[0] {
        Tok::Ident(n) => {
            if inner.len() > 1 && tok_is_punct(&inner[1], Punct::Eq) {
                if inner.len() <= 2 {
                    return Err(ViewError::UnexpectedEnd);
                }
                match &inner[2] {
                    Tok::Str { value, cooked, .. } => {
                        if *cooked {
                            Ok(Some((n.clone(), Some(value.clone()))))
                        } else {
                            Ok(Some((n.clone(), None)))
                        }
                    },
                    _ => Ok(Some((n.clone(), None))),
                }
            } else {
                Ok(Some((n.clone(), None)))
            }
        },
        _ => Ok(None),
    }
}

/// Reads the attributes `#[...]` at position `p`, and where they stop.
pub fn parse_attributes(v: &Vec<Tok>, p: usize) -> (r: Result<
    (Table<String, Option<String>>, usize),
    ViewError,
>)
    requires
        p <= v@.len(),
    ensures
        match (r, spec_parse_attributes(v@, p as int)) {
            (Ok((t, q)), Ok((t2, q2))) => t.deep_view() == t2 && q == q2,
            (Err(e), Err(e2)) => e == e2,
            _ => false,
        },
{
    let mut attributes: Table<String, Option<String>> = Table::new();
    let mut i = p;
    let ghost s = v@;
    loop
        invariant
            s == v@,
            p <= i <= s.len(),
            spec_parse_attributes(s, p as int) == attrs_from(
                s,
                i as int,
                attributes.deep_view(),
            ),
        decreases s.len() - i,
    {
        if i >= v.len() {
            return Err(ViewError::UnexpectedEnd);
        }
        if !tok_is_punct(&v[i], Punct::Pound) {
            return Ok((attributes, i));
        }
        if i + 1 >= v.len() {
            return Err(ViewError::UnexpectedEnd);
        }
        match &v[i + 1] {
            Tok::Group(Delimiter::Bracket, inner) => {
                match parse_attribute(inner) {
                    Err(e) => {
                        return Err(e);
                    },
                    Ok(Some((name, value))) => {
                        attributes.insert(name, value);
                    },
                    Ok(None) => {},
                }
                i = i + 2;
            },
            _ => {
                i = i + 1;
            },
        }
    }
}

} // verus!
