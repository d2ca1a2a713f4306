//! Widgets and their bodies: the recursive part of the view grammar, and the
//! entry point `parse`.
use vstd::prelude::*;

use crate::model::{
    EitherWidgetModel, EventModel, GtkWidgetModel, PathModel, RelmWidgetModel, ViewError,
    WidgetModel,
};
use crate::names::{gen_name, gen_widget_name, NameIndex};
use crate::pieces::{
    lemma_name_scan, lemma_try_parse_name, name_scan, parse_comma_list, parse_hash, parse_ident,
    parse_qualified_name, spec_parse_qualified_name,
    spec_parse_comma_list, spec_parse_hash, spec_parse_ident, spec_try_parse_async,
    spec_try_parse_name, try_parse_async, try_parse_name,
};
use crate::table::{assoc_insert, assoc_push, lookup, Table};
use crate::text::{char_lowercase, is_lowercase};
use crate::tokens::{is_punct, tok_is_punct, Delimiter, Punct, Tok};
use crate::values::{
    lemma_attrs_from, lemma_event, lemma_value_or_child_properties, parse_attributes, parse_event,
    parse_value_or_child_properties, skip_comma, spec_parse_attributes, spec_parse_event,
    spec_value_or_child_properties,
};
use crate::widget::{
    lemma_models_of_push, models_of, EitherWidget, Event, GtkWidget, RelmWidget, TypePath, Widget,
};

verus! {

/// What a widget's body has collected while it is read.
pub struct Body {
    /// gtk event handlers (of a gtk widget, or of a relm widget).
    pub events: Seq<(Seq<char>, EventModel)>,
    /// Handlers of a relm widget's own messages.
    pub relm_events: Seq<(Seq<char>, Seq<EventModel>)>,
    pub children: Seq<WidgetModel>,
    pub properties: Seq<(Seq<char>, Seq<char>)>,
    pub child_properties: Seq<(Seq<char>, Seq<char>)>,
    pub child_events: Seq<((Seq<char>, Seq<char>), EventModel)>,
    /// The widget name counter.
    pub names: Seq<(Seq<char>, u32)>,
}

pub open spec fn empty_body(names: Seq<(Seq<char>, u32)>) -> Body {
    Body {
        events: Seq::empty(),
        relm_events: Seq::empty(),
        children: Seq::empty(),
        properties: Seq::empty(),
        child_properties: Seq::empty(),
        child_events: Seq::empty(),
        names,
    }
}

/// A property, a child's event handler or an event handler at `q` in a
/// widget's body (`relm` telling whether it is a relm widget's), and where
/// it stops.
pub open spec fn body_item(s: Seq<Tok>, q: int, relm: bool, is_async: bool, st: Body) -> Result<
    (Body, int),
    ViewError,
> {
    match spec_parse_ident(s, q) {
        Err(e) => Err(e),
        Ok((id, q1)) => if q1 >= s.len() {
            Err(ViewError::UnexpectedEnd)
        } else if is_punct(s[q1], Punct::Colon) {
            match spec_value_or_child_properties(s, q1, id, st.child_properties, st.properties) {
                Err(e) => Err(e),
                Ok((r, cp, pr)) => Ok((Body { child_properties: cp, properties: pr, ..st }, r)),
            }
        } else if is_punct(s[q1], Punct::Dot) {
            match spec_parse_ident(s, q1 + 1) {
                Err(e) => Err(e),
                Ok((id2, q2)) => match spec_parse_event(s, q2, true) {
                    Err(e) => Err(e),
                    Ok((ev, r)) => Ok(
                        (
                            Body {
                                child_events: assoc_insert(st.child_events, (id, id2), ev),
                                ..st
                            },
                            r,
                        ),
                    ),
                },
            }
        } else if s[q1] matches Tok::Group(Delimiter::Paren, _) || is_punct(
            s[q1],
            Punct::FatArrow,
        ) {
            if relm && id.len() > 0 && !char_lowercase(id[0]) {
                match spec_parse_event(s, q1, false) {
                    Err(e) => Err(e),
                    Ok((ev, r)) => Ok(
                        (Body { relm_events: assoc_push(st.relm_events, id, ev), ..st }, r),
                    ),
                }
            } else {
                match spec_parse_event(s, q1, true) {
                    Err(e) => Err(e),
                    Ok((ev, r)) => Ok(
                        (
                            Body {
                                events: assoc_insert(st.events, id, EventModel { is_async, ..ev }),
                                ..st
                            },
                            r,
                        ),
                    ),
                }
            }
        } else if relm {
            Err(ViewError::ExpectedColonArrowOrParen)
        } else {
            Err(ViewError::ExpectedColonOrParen)
        },
    }
}

pub proof fn lemma_body_item(s: Seq<Tok>, q: int, relm: bool, is_async: bool, st: Body)
    requires
        0 <= q <= s.len(),
    ensures
        body_item(s, q, relm, is_async, st) matches Ok((_, r)) ==> q < r <= s.len(),
{
    match spec_parse_ident(s, q) {
        Ok((id, q1)) => if q1 < s.len() {
            lemma_value_or_child_properties(s, q1, id, st.child_properties, st.properties);
            match spec_parse_ident(s, q1 + 1) {
                Ok((_, q2)) => lemma_event(s, q2, true),
                _ => {},
            }
            lemma_event(s, q1, true);
            lemma_event(s, q1, false);
        },
        _ => {},
    }
}

/// Where the widget whose attributes start at `p` ends: after its type, its
/// optional `(...)` and its body.
pub open spec fn child_end(s: Seq<Tok>, p: int) -> int {
    let a = match spec_parse_attributes(s, p) {
        Ok((_, a)) => a,
        Err(_) => p,
    };
    child_end_after_attributes(s, a)
}

pub proof fn lemma_child_end(s: Seq<Tok>, p: int)
    requires
        0 <= p < s.len(),
    ensures
        p < child_end(s, p) <= s.len(),
{
    lemma_attrs_from(s, p, Seq::empty());
    let a = match spec_parse_attributes(s, p) {
        Ok((_, a)) => a,
        Err(_) => p,
    };
    lemma_name_scan(s, a, 0);
}

/// What decides, at `q` in a widget's body, between a child widget and a
/// property or event: whether a child stands there, whether an `#[async]`
/// attribute was read, and the position after it.
pub open spec fn body_head(s: Seq<Tok>, q: int, relm: bool) -> Result<(bool, bool, int), ViewError> {
    if relm {
        match spec_try_parse_name(s, q) {
            Err(e) => Err(e),
            Ok(o) => {
                let is_child = match o {
                    Some((_, r)) => 0 <= r < s.len() && s[r] matches Tok::Group(
                        Delimiter::Brace,
                        _,
                    ),
                    None => false,
                };
                Ok((is_punct(s[q], Punct::Pound) || is_child, false, q))
            },
        }
    } else {
        match spec_try_parse_async(s, q) {
            Err(e) => Err(e),
            Ok((is_async, q1)) => if is_async {
                Ok((false, true, q1))
            } else if is_punct(s[q1], Punct::Pound) {
                Ok((true, false, q1))
            } else {
                match spec_try_parse_name(s, q1) {
                    Err(e) => Err(e),
                    Ok(o) => Ok((o is Some, false, q1)),
                }
            },
        }
    }
}

pub proof fn lemma_body_head(s: Seq<Tok>, q: int, relm: bool)
    requires
        0 <= q < s.len(),
    ensures
        body_head(s, q, relm) matches Ok((is_child, _, q1)) ==> q <= q1 <= s.len() && (is_child
            ==> q1 == q),
{
}

/// The items of a widget's body from `q` on, items being separated by
/// optional commas.
pub open spec fn body_from(s: Seq<Tok>, q: int, relm: bool, st: Body) -> Result<Body, ViewError>
    decreases s, 3 * (s.len() - q) + 3,
{
    if q < 0 || q >= s.len() {
        Ok(st)
    } else {
        match body_head(s, q, relm) {
            Err(e) => Err(e),
            Ok((is_child, is_async, q1)) => if is_child {
                match spec_parse_child(s, q1, false, st.names) {
                    Err(e) => Err(e),
                    Ok((w, _, names)) => {
                        proof {
                            lemma_body_head(s, q, relm);
                            lemma_child_end(s, q1);
                        }
                        body_from(
                            s,
                            skip_comma(s, child_end(s, q1)),
                            relm,
                            Body { children: st.children.push(w), names, ..st },
                        )
                    },
                }
            } else {
                match body_item(s, q1, relm, is_async, st) {
                    Err(e) => Err(e),
                    Ok((st2, r)) => {
                        proof {
                            lemma_body_head(s, q, relm);
                            lemma_body_item(s, q1, relm, is_async, st);
                        }
                        body_from(s, skip_comma(s, r), relm, st2)
                    },
                }
            },
        }
    }
}

/// A widget, attributes included, at `p`: the widget, the value of its
/// `#[parent]` attribute, and the name counter afterwards. `root` tells
/// whether it is the view's root widget.
pub open spec fn spec_parse_child(
    s: Seq<Tok>,
    p: int,
    root: bool,
    names: Seq<(Seq<char>, u32)>,
) -> Result<(WidgetModel, Option<Seq<char>>, Seq<(Seq<char>, u32)>), ViewError>
    decreases s, 2int,
{
    match spec_parse_attributes(s, p) {
        Err(e) => Err(e),
        Ok((attrs, a)) => {
            let container = lookup(attrs, "container"@);
            let name = match lookup(attrs, "name"@) {
                Some(Some(n)) => Some(n),
                _ => None,
            };
            let parent = match lookup(attrs, "parent"@) {
                Some(Some(n)) => Some(n),
                _ => None,
            };
            let r = if a + 1 < s.len() && is_punct(s[a + 1], Punct::ModSep) {
                spec_parse_widget(s, a, name is Some || root, names)
            } else {
                spec_parse_relm_widget(s, a, names)
            };
            match r {
                Err(e) => Err(e),
                Ok((w, names2)) => Ok(
                    (
                        WidgetModel {
                            name: match name {
                                Some(n) => n,
                                None => w.name,
                            },
                            container_type: container,
                            ..w
                        },
                        parent,
                        names2,
                    ),
                ),
            }
        },
    }
}

/// The construct properties `({ ... })` or the constructor arguments
/// `(...)` that may follow a gtk widget's type at `q`, and the position
/// after them.
pub open spec fn gtk_head(s: Seq<Tok>, q: int) -> Result<
    (Seq<(Seq<char>, Seq<char>)>, Seq<Seq<char>>, int),
    ViewError,
> {
    if 0 <= q < s.len() {
        match s[q] {
            Tok::Group(Delimiter::Paren, inner) => if inner@.len() == 0 {
                Err(ViewError::UnexpectedEnd)
            } else {
                match inner@[0] {
                    Tok::Group(Delimiter::Brace, inner2) => match spec_parse_hash(inner2@) {
                        Err(e) => Err(e),
                        Ok(h) => Ok((h, Seq::empty(), q + 1)),
                    },
                    _ => match spec_parse_comma_list(inner@) {
                        Err(e) => Err(e),
                        Ok(l) => Ok((Seq::empty(), l, q + 1)),
                    },
                }
            },
            _ => Ok((Seq::empty(), Seq::empty(), q)),
        }
    } else {
        Err(ViewError::UnexpectedEnd)
    }
}

/// The constructor arguments `(...)` that may follow a relm widget's type at
/// `q`, and the position after them.
pub open spec fn relm_head(s: Seq<Tok>, q: int) -> Result<(Seq<Seq<char>>, int), ViewError> {
    if 0 <= q < s.len() {
        match s[q] {
            Tok::Group(Delimiter::Paren, inner) => match spec_parse_comma_list(inner@) {
                Err(e) => Err(e),
                Ok(l) => Ok((l, q + 1)),
            },
            _ => Ok((Seq::empty(), q)),
        }
    } else {
        Err(ViewError::UnexpectedEnd)
    }
}

/// The widget made of a body `st`, a type and constructor arguments, named
/// by the counter (`_` first for a relm widget), and the counter
/// afterwards.
pub open spec fn built_widget(
    st: Body,
    typ: PathModel,
    init_parameters: Seq<Seq<char>>,
    relm: bool,
    construct_properties: Seq<(Seq<char>, Seq<char>)>,
    save: bool,
) -> Result<(WidgetModel, Seq<(Seq<char>, u32)>), ViewError> {
    match gen_name(typ.segments, st.names) {
        Err(e) => Err(e),
        Ok((name, names2)) => Ok(
            (
                WidgetModel {
                    child_events: st.child_events,
                    child_properties: st.child_properties,
                    children: st.children,
                    container_type: None,
                    init_parameters,
                    name: if relm {
                        seq!['_'] + name
                    } else {
                        name
                    },
                    parent_id: None,
                    properties: st.properties,
                    typ,
                    widget: if relm {
                        EitherWidgetModel::Relm(
                            RelmWidgetModel { events: st.relm_events, gtk_events: st.events },
                        )
                    } else {
                        EitherWidgetModel::Gtk(
                            GtkWidgetModel {
                                construct_properties,
                                events: st.events,
                                relm_name: None,
                                save,
                            },
                        )
                    },
                },
                names2,
            ),
        ),
    }
}

/// A gtk widget at `a`: `Type(args) { body }` or `Type({ props }) { body }`,
/// and the name counter afterwards.
pub open spec fn spec_parse_widget(
    s: Seq<Tok>,
    a: int,
    save: bool,
    names: Seq<(Seq<char>, u32)>,
) -> Result<(WidgetModel, Seq<(Seq<char>, u32)>), ViewError>
    decreases s, 1int,
{
    match spec_parse_qualified_name(s, a) {
        Err(e) => Err(e),
        Ok((typ, q)) => match gtk_head(s, q) {
            Err(e) => Err(e),
            Ok((construct_properties, init_parameters, q1)) => if q1 < 0 || q1 >= s.len() {
                Err(ViewError::UnexpectedEnd)
            } else {
                match s[q1] {
                    Tok::Group(Delimiter::Brace, body) => match body_from(
                        body@,
                        0,
                        false,
                        empty_body(names),
                    ) {
                        Err(e) => Err(e),
                        Ok(st) => built_widget(
                            st,
                            typ,
                            init_parameters,
                            false,
                            construct_properties,
                            save,
                        ),
                    },
                    _ => Err(ViewError::ExpectedBrace),
                }
            },
        },
    }
}

/// A relm widget at `a`: `Type(args) { body }`, both parts optional but for
/// the token after the type, and the name counter afterwards. Its name
/// starts with `_`.
pub open spec fn spec_parse_relm_widget(s: Seq<Tok>, a: int, names: Seq<(Seq<char>, u32)>) -> Result<
    (WidgetModel, Seq<(Seq<char>, u32)>),
    ViewError,
>
    decreases s, 1int,
{
    match spec_parse_qualified_name(s, a) {
        Err(e) => Err(e),
        Ok((typ, q)) => match relm_head(s, q) {
            Err(e) => Err(e),
            Ok((init_parameters, q1)) => if q1 < 0 || q1 >= s.len() {
                Err(ViewError::UnexpectedEnd)
            } else {
                let body = match s[q1] {
                    Tok::Group(Delimiter::Brace, b) => body_from(b@, 0, true, empty_body(names)),
                    _ => Ok(empty_body(names)),
                };
                match body {
                    Err(e) => Err(e),
                    Ok(st) => built_widget(st, typ, init_parameters, true, Seq::empty(), false),
                }
            },
        },
    }
}

/// The view `s`: its root widget, which carries the value of its
/// `#[parent]` attribute, and the name counter afterwards.
pub open spec fn spec_parse(s: Seq<Tok>, names: Seq<(Seq<char>, u32)>) -> Result<
    (WidgetModel, Seq<(Seq<char>, u32)>),
    ViewError,
> {
    match spec_parse_child(s, 0, true, names) {
        Err(e) => Err(e),
        Ok((w, parent, names2)) => Ok((WidgetModel { parent_id: parent, ..w }, names2)),
    }
}

/// The parts of a widget that its body fills in, while it is read.
pub struct BodyParts {
    pub events: Table<String, Event>,
    pub relm_events: Table<String, Vec<Event>>,
    pub children: Vec<Widget>,
    pub properties: Table<String, String>,
    pub child_properties: Table<String, String>,
    pub child_events: Table<(String, String), Event>,
}

impl BodyParts {
    /// The parts as a `Body`, with the name counter `names`.
    pub open spec fn body(&self, names: Seq<(Seq<char>, u32)>) -> Body {
        Body {
            events: self.events.deep_view(),
            relm_events: self.relm_events.deep_view(),
            children: models_of(self.children@),
            properties: self.properties.deep_view(),
            child_properties: self.child_properties.deep_view(),
            child_events: self.child_events.deep_view(),
            names,
        }
    }

    pub fn new() -> (b: Self)
        ensures
            forall|names: Seq<(Seq<char>, u32)>| #[trigger] b.body(names) == empty_body(names),
    {
        let b = BodyParts {
            events: Table::new(),
            relm_events: Table::new(),
            children: Vec::new(),
            properties: Table::new(),
            child_properties: Table::new(),
            child_events: Table::new(),
        };
        assert(models_of(b.children@) =~= Seq::<WidgetModel>::empty());
        b
    }
}

/// Reads a property, a child's event handler or an event handler at
/// position `q` of a widget's body into `parts`; gives back where it stops.
fn parse_item(
    v: &Vec<Tok>,
    q: usize,
    relm: bool,
    is_async: bool,
    parts: &mut BodyParts,
    Ghost(names): Ghost<Seq<(Seq<char>, u32)>>,
) -> (r: Result<usize, ViewError>)
    requires
        q <= v@.len(),
    ensures
        match (r, body_item(v@, q as int, relm, is_async, old(parts).body(names))) {
            (Ok(end), Ok((st, end2))) => end == end2 && final(parts).body(names) == st,
            (Err(e), Err(e2)) => e == e2,
            _ => false,
        },
{
    let ident = match parse_ident(v, q) {
        Ok((ident, _)) => ident,
        Err(e) => {
            return Err(e);
        },
    };
    let q1 = q + 1;
    if q1 >= v.len() {
        return Err(ViewError::UnexpectedEnd);
    }
    let t = &v[q1];
    if tok_is_punct(t, Punct::Colon) {
        parse_value_or_child_properties(
            v,
            q1,
            ident,
            &mut parts.child_properties,
            &mut parts.properties,
        )
    } else if tok_is_punct(t, Punct::Dot) {
        let (event_name, q2) = match parse_ident(v, q1 + 1) {
            Ok(x) => x,
            Err(e) => {
                return Err(e);
            },
        };
        match parse_event(v, q2, true) {
            Err(e) => Err(e),
            Ok((event, end)) => {
                parts.child_events.insert((ident, event_name), event);
                Ok(end)
            },
        }
    } else {
        let is_event = match t {
            Tok::Group(Delimiter::Paren, _) => true,
            Tok::Punct(Punct::FatArrow) => true,
            _ => false,
        };
        if is_event {
            let message = relm && ident.as_str().unicode_len() > 0 && !is_lowercase(
                ident.as_str().get_char(0),
            );
            if message {
                match parse_event(v, q1, false) {
                    Err(e) => Err(e),
                    Ok((event, end)) => {
                        parts.relm_events.push_value(ident, event);
                        Ok(end)
                    },
                }
            } else {
                match parse_event(v, q1, true) {
                    Err(e) => Err(e),
                    Ok((event, end)) => {
                        let mut event = event;
                        event.is_async = is_async;
                        parts.events.insert(ident, event);
                        Ok(end)
                    },
                }
            }
        } else if relm {
            Err(ViewError::ExpectedColonArrowOrParen)
        } else {
            Err(ViewError::ExpectedColonOrParen)
        }
    }
}

/// Decides, at position `q` of a widget's body, between a child widget and
/// a property or event.
fn parse_body_head(v: &Vec<Tok>, q: usize, relm: bool) -> (r: Result<(bool, bool, usize), ViewError>)
    requires
        q < v@.len(),
    ensures
        match (r, body_head(v@, q as int, relm)) {
            (Ok((c, a, q1)), Ok((c2, a2, q2))) => c == c2 && a == a2 && q1 == q2,
            (Err(e), Err(e2)) => e == e2,
            _ => false,
        },
{
    if relm {
        match try_parse_name(v, q) {
            Err(e) => Err(e),
            Ok(o) => {
                let is_child = match &o {
                    Some((_, r)) => {
                        proof {
                            lemma_try_parse_name(v@, q as int);
                        }
                        match &v[*r] {
                            Tok::Group(Delimiter::Brace, _) => true,
                            _ => false,
                        }
                    },
                    None => false,
                };
                Ok((tok_is_punct(&v[q], Punct::Pound) || is_child, false, q))
            },
        }
    } else {
        match try_parse_async(v, q) {
            Err(e) => Err(e),
            Ok((is_async, q1)) => {
                if is_async {
                    Ok((false, true, q1))
                } else if tok_is_punct(&v[q1], Punct::Pound) {
                    Ok((true, false, q1))
                } else {
                    match try_parse_name(v, q1) {
                        Err(e) => Err(e),
                        Ok(o) => Ok((o.is_some(), false, q1)),
                    }
                }
            },
        }
    }
}

/// Reads one item of a widget's body at position `q` into `parts`: a child
/// widget, or a property or event, with the comma after it. Gives back the
/// position after it.
fn parse_body_step(
    v: &Vec<Tok>,
    q: usize,
    relm: bool,
    parts: &mut BodyParts,
    names: &mut NameIndex,
) -> (r: Result<usize, ViewError>)
    requires
        q < v@.len(),
    ensures
        match r {
            Ok(next) => q < next <= v@.len() && body_from(
                v@,
                q as int,
                relm,
                old(parts).body(old(names).deep_view()),
            ) == body_from(v@, next as int, relm, final(parts).body(final(names).deep_view())),
            Err(e) => body_from(v@, q as int, relm, old(parts).body(old(names).deep_view()))
                == Err::<Body, ViewError>(e),
        },
    decreases v@, 3int,
{
    let ghost s = v@;
    let (is_child, is_async, q1) = match parse_body_head(v, q, relm) {
        Ok(x) => x,
        Err(e) => {
            return Err(e);
        },
    };
    proof {
        lemma_body_head(s, q as int, relm);
    }
    let mut next;
    if is_child {
        match parse_child(v, q1, false, names) {
            Err(e) => {
                return Err(e);
            },
            Ok((child, end, _)) => {
                proof {
                    lemma_child_end(s, q1 as int);
                    lemma_models_of_push(parts.children@, child);
                }
                parts.children.push(child);
                next = end;
            },
        }
    } else {
        let ghost ns = names.deep_view();
        match parse_item(v, q1, relm, is_async, parts, Ghost(ns)) {
            Err(e) => {
                return Err(e);
            },
            Ok(end) => {
                proof {
                    lemma_body_item(s, q1 as int, relm, is_async, old(parts).body(ns));
                }
                next = end;
            },
        }
    }
    if next < v.len() && tok_is_punct(&v[next], Punct::Comma) {
        next = next + 1;
    }
    Ok(next)
}

/// Reads a widget's body, the contents of its `{ ... }`, into `parts`.
fn parse_body(v: &Vec<Tok>, relm: bool, parts: &mut BodyParts, names: &mut NameIndex) -> (r: Result<
    (),
    ViewError,
>)
    ensures
        match (r, body_from(v@, 0, relm, old(parts).body(old(names).deep_view()))) {
            (Ok(()), Ok(st)) => final(parts).body(final(names).deep_view()) == st,
            (Err(e), Err(e2)) => e == e2,
            _ => false,
        },
    decreases v@, 4int,
{
    let ghost s = v@;
    let ghost goal = body_from(s, 0, relm, parts.body(names.deep_view()));
    let mut q: usize = 0;
    while q < v.len()
        invariant
            s == v@,
            q <= s.len(),
            goal == body_from(s, 0, relm, old(parts).body(old(names).deep_view())),
            goal == body_from(s, q as int, relm, parts.body(names.deep_view())),
        decreases s.len() - q,
    {
        match parse_body_step(v, q, relm, parts, names) {
            Err(e) => {
                return Err(e);
            },
            Ok(next) => {
                q = next;
            },
        }
    }
    Ok(())
}

impl Widget {
    /// A gtk widget named after its type (see `gen_widget_name`).
    pub fn new_gtk(
        widget: GtkWidget,
        typ: TypePath,
        init_parameters: Vec<String>,
        children: Vec<Widget>,
        properties: Table<String, String>,
        child_properties: Table<String, String>,
        child_events: Table<(String, String), Event>,
        names: &mut NameIndex,
    ) -> (r: Result<Widget, ViewError>)
        ensures
            match (r, gen_name(typ.segments.deep_view(), old(names).deep_view())) {
                (Ok(w), Ok((name, after))) => final(names).deep_view() == after && w.model() == (
                WidgetModel {
                    child_events: child_events.deep_view(),
                    child_properties: child_properties.deep_view(),
                    children: models_of(children@),
                    container_type: None,
                    init_parameters: init_parameters.deep_view(),
                    name,
                    parent_id: None,
                    properties: properties.deep_view(),
                    typ: typ.deep_view(),
                    widget: EitherWidgetModel::Gtk(widget.deep_view()),
                }),
                (Err(e), Err(e2)) => e == e2,
                _ => false,
            },
    {
        let name = match gen_widget_name(&typ, names) {
            Ok(n) => n,
            Err(e) => {
                return Err(e);
            },
        };
        Ok(
            Widget {
                child_events,
                child_properties,
                children,
                container_type: None,
                init_parameters,
                name,
                parent_id: None,
                properties,
                typ,
                widget: EitherWidget::Gtk(widget),
            },
        )
    }

    /// A relm widget named `_` followed by the name made from its type (see
    /// `gen_widget_name`).
    pub fn new_relm(
        widget: RelmWidget,
        typ: TypePath,
        init_parameters: Vec<String>,
        children: Vec<Widget>,
        properties: Table<String, String>,
        child_properties: Table<String, String>,
        child_events: Table<(String, String), Event>,
        names: &mut NameIndex,
    ) -> (r: Result<Widget, ViewError>)
        ensures
            match (r, gen_name(typ.segments.deep_view(), old(names).deep_view())) {
                (Ok(w), Ok((name, after))) => final(names).deep_view() == after && w.model() == (
                WidgetModel {
                    child_events: child_events.deep_view(),
                    child_properties: child_properties.deep_view(),
                    children: models_of(children@),
                    container_type: None,
                    init_parameters: init_parameters.deep_view(),
                    name: seq!['_'] + name,
                    parent_id: None,
                    properties: properties.deep_view(),
                    typ: typ.deep_view(),
                    widget: EitherWidgetModel::Relm(widget.deep_view()),
                }),
                (Err(e), Err(e2)) => e == e2,
                _ => false,
            },
    {
        let generated = match gen_widget_name(&typ, names) {
            Ok(n) => n,
            Err(e) => {
                return Err(e);
            },
        };
        proof {
            reveal_strlit("_");
        }
        let mut name = String::from_str("_");
        assert(name@ =~= seq!['_']);
        name.append(generated.as_str());
        Ok(
            Widget {
                child_events,
                child_properties,
                children,
                container_type: None,
                init_parameters,
                name,
                parent_id: None,
                properties,
                typ,
                widget: EitherWidget::Relm(widget),
            },
        )
    }
}

/// The result of reading a widget, against the grammar's.
pub open spec fn widget_agrees(
    r: Result<(Widget, usize), ViewError>,
    spec: Result<(WidgetModel, Seq<(Seq<char>, u32)>), ViewError>,
    end: int,
    names_after: Seq<(Seq<char>, u32)>,
) -> bool {
    match (r, spec) {
        (Ok((w, q)), Ok((m, n))) => w.model() == m && q == end && names_after == n,
        (Err(e), Err(e2)) => e == e2,
        _ => false,
    }
}

/// Reads what may follow a gtk widget's type at position `q`: construct
/// properties or constructor arguments.
fn parse_gtk_head(v: &Vec<Tok>, q: usize) -> (r: Result<
    (Table<String, String>, Vec<String>, usize),
    ViewError,
>)
    requires
        q < v@.len(),
    ensures
        match (r, gtk_head(v@, q as int)) {
            (Ok((h, l, q1)), Ok((h2, l2, q2))) => h.deep_view() == h2 && l.deep_view() == l2 && q1
                == q2,
            (Err(e), Err(e2)) => e == e2,
            _ => false,
        },
{
    let n = v.len();
    assert(q + 1 <= n);
    match &v[q] {
        Tok::Group(Delimiter::Paren, inner) => {
            if inner.len() == 0 {
                return Err(ViewError::UnexpectedEnd);
            }
            match &inner[0] {
                Tok::Group(Delimiter::Brace, inner2) => {
                    match parse_hash(inner2) {
                        Ok(h) => {
                            let l: Vec<String> = Vec::new();
                            assert(l.deep_view() =~= Seq::<Seq<char>>::empty());
                            Ok((h, l, q + 1))
                        },
                        Err(e) => Err(e),
                    }
                },
                _ => {
                    match parse_comma_list(inner) {
                        Ok(l) => Ok((Table::new(), l, q + 1)),
                        Err(e) => Err(e),
                    }
                },
            }
        },
        _ => {
            let l: Vec<String> = Vec::new();
            assert(l.deep_view() =~= Seq::<Seq<char>>::empty());
            Ok((Table::new(), l, q))
        },
    }
}

/// Reads the constructor arguments that may follow a relm widget's type at
/// position `q`.
fn parse_relm_head(v: &Vec<Tok>, q: usize) -> (r: Result<(Vec<String>, usize), ViewError>)
    requires
        q < v@.len(),
    ensures
        match (r, relm_head(v@, q as int)) {
            (Ok((l, q1)), Ok((l2, q2))) => l.deep_view() == l2 && q1 == q2,
            (Err(e), Err(e2)) => e == e2,
            _ => false,
        },
{
    let n = v.len();
    assert(q + 1 <= n);
    match &v[q] {
        Tok::Group(Delimiter::Paren, inner) => {
            match parse_comma_list(inner) {
                Ok(l) => Ok((l, q + 1)),
                Err(e) => Err(e),
            }
        },
        _ => {
            let l: Vec<String> = Vec::new();
            assert(l.deep_view() =~= Seq::<Seq<char>>::empty());
            Ok((l, q))
        },
    }
}

/// Reads a gtk widget at position `a`; `save` tells whether it is kept in
/// the model. Gives back the widget and where it stops.
pub fn parse_widget(v: &Vec<Tok>, a: usize, save: bool, names: &mut NameIndex) -> (r: Result<
    (Widget, usize),
    ViewError,
>)
    requires
        a <= v@.len(),
    ensures
        widget_agrees(
            r,
            spec_parse_widget(v@, a as int, save, old(names).deep_view()),
            child_end_after_attributes(v@, a as int),
            final(names).deep_view(),
        ),
    decreases v@, 1int,
{
    let n = v.len();
    let (typ, q) = match parse_qualified_name(v, a) {
        Err(e) => {
            return Err(e);
        },
        Ok(x) => x,
    };
    proof {
        lemma_try_parse_name(v@, a as int);
    }
    let (construct_properties, init_parameters, q1) = match parse_gtk_head(v, q) {
        Ok(x) => x,
        Err(e) => {
            return Err(e);
        },
    };
    if q1 >= n {
        return Err(ViewError::UnexpectedEnd);
    }
    match &v[q1] {
        Tok::Group(Delimiter::Brace, body) => {
            let mut parts = BodyParts::new();
            match parse_body(body, false, &mut parts, names) {
                Err(e) => {
                    return Err(e);
                },
                Ok(()) => {},
            }
            let gtk_widget = GtkWidget {
                construct_properties,
                events: parts.events,
                relm_name: None,
                save,
            };
            match Widget::new_gtk(
                gtk_widget,
                typ,
                init_parameters,
                parts.children,
                parts.properties,
                parts.child_properties,
                parts.child_events,
                names,
            ) {
                Err(e) => Err(e),
                Ok(widget) => Ok((widget, q1 + 1)),
            }
        },
        _ => Err(ViewError::ExpectedBrace),
    }
}

/// Reads a relm widget at position `a`. Gives back the widget and where it
/// stops.
pub fn parse_relm_widget(v: &Vec<Tok>, a: usize, names: &mut NameIndex) -> (r: Result<
    (Widget, usize),
    ViewError,
>)
    requires
        a <= v@.len(),
    ensures
        widget_agrees(
            r,
            spec_parse_relm_widget(v@, a as int, old(names).deep_view()),
            child_end_after_attributes(v@, a as int),
            final(names).deep_view(),
        ),
    decreases v@, 1int,
{
    let n = v.len();
    let (typ, q) = match parse_qualified_name(v, a) {
        Err(e) => {
            return Err(e);
        },
        Ok(x) => x,
    };
    proof {
        lemma_try_parse_name(v@, a as int);
    }
    let (init_parameters, q1) = match parse_relm_head(v, q) {
        Ok(x) => x,
        Err(e) => {
            return Err(e);
        },
    };
    if q1 >= n {
        return Err(ViewError::UnexpectedEnd);
    }
    let mut parts = BodyParts::new();
    match &v[q1] {
        Tok::Group(Delimiter::Brace, body) => {
            match parse_body(body, true, &mut parts, names) {
                Err(e) => {
                    return Err(e);
                },
                Ok(()) => {},
            }
        },
        _ => {
            assert(parts.body(names.deep_view()) == empty_body(names.deep_view()));
        },
    }
    let relm_widget = RelmWidget { events: parts.relm_events, gtk_events: parts.events };
    match Widget::new_relm(
        relm_widget,
        typ,
        init_parameters,
        parts.children,
        parts.properties,
        parts.child_properties,
        parts.child_events,
        names,
    ) {
        Err(e) => Err(e),
        Ok(widget) => Ok((widget, q1 + 1)),
    }
}

/// The value of an attribute that maps to `Some(value)`.
fn attribute_value(attributes: &Table<String, Option<String>>, key: &str) -> (r: Option<String>)
    ensures
        r.deep_view() == match lookup(attributes.deep_view(), key@) {
            Some(Some(n)) => Some(n),
            _ => None::<Seq<char>>,
        },
{
    let k = String::from_str(key);
    match attributes.get(&k) {
        Some(Some(n)) => Some(n.clone()),
        _ => None,
    }
}

/// Reads a widget, attributes included, at position `p`; `root` tells
/// whether it is the view's root widget. Gives back the widget, where it
/// stops and the value of its `#[parent]` attribute.
pub fn parse_child(v: &Vec<Tok>, p: usize, root: bool, names: &mut NameIndex) -> (r: Result<
    (Widget, usize, Option<String>),
    ViewError,
>)
    requires
        p <= v@.len(),
    ensures
        match (r, spec_parse_child(v@, p as int, root, old(names).deep_view())) {
            (Ok((w, q, parent)), Ok((m, par, n))) => w.model() == m && q == child_end(
                v@,
                p as int,
            ) && parent.deep_view() == par && final(names).deep_view() == n,
            (Err(e), Err(e2)) => e == e2,
            _ => false,
        },
    decreases v@, 2int,
{
    let (attributes, a) = match parse_attributes(v, p) {
        Ok(x) => x,
        Err(e) => {
            return Err(e);
        },
    };
    proof {
        lemma_attrs_from(v@, p as int, Seq::empty());
    }
    let container_key = String::from_str("container");
    let container = match attributes.get(&container_key) {
        Some(Some(t)) => Some(Some(t.clone())),
        Some(None) => Some(None),
        None => None,
    };
    let name = attribute_value(&attributes, "name");
    let parent = attribute_value(&attributes, "parent");
    let n = v.len();
    assert(a < n);
    let is_gtk = a + 1 < n && tok_is_punct(&v[a + 1], Punct::ModSep);
    let parsed = if is_gtk {
        parse_widget(v, a, name.is_some() || root, names)
    } else {
        parse_relm_widget(v, a, names)
    };
    let (mut widget, end) = match parsed {
        Ok(x) => x,
        Err(e) => {
            return Err(e);
        },
    };
    match name {
        Some(n) => {
            widget.name = n;
        },
        None => {},
    }
    widget.container_type = container;
    Ok((widget, end, parent))
}

/// Reads the view `v`: its root widget, which carries the value of the
/// root's `#[parent]` attribute. `names` counts the widgets named so far.
pub fn parse(v: &Vec<Tok>, names: &mut NameIndex) -> (r: Result<Widget, ViewError>)
    ensures
        match (r, spec_parse(v@, old(names).deep_view())) {
            (Ok(w), Ok((m, n))) => w.model() == m && final(names).deep_view() == n,
            (Err(e), Err(e2)) => e == e2,
            _ => false,
        },
{
    match parse_child(v, 0, true, names) {
        Err(e) => Err(e),
        Ok((widget, _, parent_id)) => {
            let mut widget = widget;
            widget.parent_id = parent_id;
            Ok(widget)
        },
    }
}

/// Where the view is given as the name of the file that holds it: the
/// value of the string literal that is the view's first token.
pub open spec fn spec_view_file(s: Seq<Tok>) -> Result<Option<Seq<char>>, ViewError> {
    if s.len() == 0 {
        Err(ViewError::UnexpectedEnd)
    } else {
        match s[0] {
            Tok::Str { value, .. } => Ok(Some(value@)),
            _ => Ok(None),
        }
    }
}

/// The name of the file that holds the view, where the view is given so.
pub fn view_file(v: &Vec<Tok>) -> (r: Result<Option<String>, ViewError>)
    ensures
        match (r, spec_view_file(v@)) {
            (Ok(f), Ok(f2)) => f.deep_view() == f2,
            (Err(e), Err(e2)) => e == e2,
            _ => false,
        },
{
    if v.len() == 0 {
        return Err(ViewError::UnexpectedEnd);
    }
    match &v[0] {
        Tok::Str { value, .. } => Ok(Some(value.clone())),
        _ => Ok(None),
    }
}

/// Where a widget whose type starts at `a` ends.
pub open spec fn child_end_after_attributes(s: Seq<Tok>, a: int) -> int {
    let q = name_scan(s, a, 0);
    let q1 = if 0 <= q < s.len() && s[q] matches Tok::Group(Delimiter::Paren, _) {
        q + 1
    } else {
        q
    };
    if q1 + 1 <= s.len() {
        q1 + 1
    } else {
        s.len() as int
    }
}

} // verus!
