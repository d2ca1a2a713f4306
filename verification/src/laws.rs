//! Properties that hold of every input of the view grammar's pieces.
use vstd::prelude::*;

use crate::pieces::{
    comma_list_from, dashed, hash_from, ident_list_from, spec_parse_comma_ident_list,
    spec_parse_comma_list, spec_parse_hash, HashState,
};
use crate::table::{
    assoc_insert, key_index, keys_unique, lemma_assoc_insert, lemma_assoc_push, lemma_key_index,
    lookup,
};
use crate::text::char_lowercase;
use crate::tokens::Delimiter;
use crate::values::{spec_attribute, spec_parse_event};
use crate::model::EventModel;
use crate::tokens::{append_piece, is_ident, is_punct, render_tok, Punct, Tok};
use crate::model::ViewError;
use crate::names::{count_of, gen_name, law_gen_name_counts, names_wf};
use crate::pieces::RELM_WIDGET_CLONE_IDENT;
use crate::tree::{
    body_from, body_head, body_item, built_widget, child_end, empty_body, gtk_head,
    lemma_body_head, lemma_body_item, lemma_child_end, relm_head, spec_parse, spec_parse_child,
    spec_parse_relm_widget, spec_parse_widget, Body,
};
use crate::values::{lemma_value_from, skip_comma, spec_parse_attributes, spec_parse_value, value_from};

verus! {

/// The number of commas among `s[i..]` (commas inside groups not counted).
pub open spec fn comma_count(s: Seq<Tok>, i: int) -> nat
    decreases s.len() - i,
{
    if i < 0 || i >= s.len() {
        0
    } else {
        (if is_punct(s[i], Punct::Comma) {
            1nat
        } else {
            0nat
        }) + comma_count(s, i + 1)
    }
}

proof fn lemma_comma_list_len(s: Seq<Tok>, i: int, cur: Seq<char>, acc: Seq<Seq<char>>)
    requires
        0 <= i <= s.len(),
    ensures
        comma_list_from(s, i, cur, acc) matches Ok(l) ==> l.len() == acc.len() + comma_count(s, i)
            + 1,
    decreases s.len() - i,
{
    if i < s.len() {
        if is_punct(s[i], Punct::Comma) {
            lemma_comma_list_len(s, i + 1, Seq::empty(), acc.push(cur));
        } else {
            lemma_comma_list_len(s, i + 1, render_tok(cur, s[i]), acc);
        }
    }
}

/// A list of expressions holds one expression more than it has commas.
pub proof fn law_comma_list_len(s: Seq<Tok>)
    ensures
        spec_parse_comma_list(s) matches Ok(l) ==> l.len() == comma_count(s, 0) + 1,
{
    lemma_comma_list_len(s, 0, Seq::empty(), Seq::empty());
}

proof fn lemma_ident_list_len(s: Seq<Tok>, i: int, cur: Seq<char>, acc: Seq<Seq<char>>)
    requires
        0 <= i <= s.len(),
    ensures
        ident_list_from(s, i, cur, acc) matches Ok(l) ==> l.len() == acc.len() + comma_count(s, i)
            + 1,
    decreases s.len() - i,
{
    if i < s.len() {
        if is_punct(s[i], Punct::Comma) {
            lemma_ident_list_len(s, i + 1, Seq::empty(), acc.push(cur));
        } else if !(s[i] is Group) {
            lemma_ident_list_len(s, i + 1, render_tok(cur, s[i]), acc);
        }
    }
}

/// An event's parameter list holds one name more than it has commas.
pub proof fn law_ident_list_len(s: Seq<Tok>)
    ensures
        spec_parse_comma_ident_list(s) matches Ok(l) ==> l.len() == comma_count(s, 0) + 1,
{
    lemma_ident_list_len(s, 0, Seq::empty(), Seq::empty());
}

/// The text holds no `_`.
pub open spec fn no_underscore(x: Seq<char>) -> bool {
    forall|j: int| 0 <= j < x.len() ==> x[j] != '_'
}

/// Every key of the table holds no `_`.
pub open spec fn keys_without_underscore(t: Seq<(Seq<char>, Seq<char>)>) -> bool {
    forall|j: int| 0 <= j < t.len() ==> no_underscore(#[trigger] t[j].0)
}

proof fn lemma_insert_keys(t: Seq<(Seq<char>, Seq<char>)>, k: Seq<char>, v: Seq<char>)
    requires
        keys_without_underscore(t),
        no_underscore(k),
    ensures
        keys_without_underscore(assoc_insert(t, k, v)),
{
    lemma_key_index(t, k);
    let r = assoc_insert(t, k, v);
    let i = key_index(t, k);
    assert forall|j: int| 0 <= j < r.len() implies no_underscore(#[trigger] r[j].0) by {
        if j == i {
            assert(r[j].0 == k);
        } else {
            assert(r[j] == t[j]);
        }
    }
}

proof fn lemma_hash_keys(
    s: Seq<Tok>,
    i: int,
    state: HashState,
    name: Seq<char>,
    cur: Seq<char>,
    acc: Seq<(Seq<char>, Seq<char>)>,
)
    requires
        0 <= i <= s.len(),
        no_underscore(name),
        keys_without_underscore(acc),
    ensures
        hash_from(s, i, state, name, cur, acc) matches Ok(t) ==> keys_without_underscore(t),
    decreases s.len() - i,
{
    if i >= s.len() {
        lemma_insert_keys(acc, name, cur);
    } else {
        match state {
            HashState::InName => match s[i] {
                Tok::Ident(n) => {
                    assert(no_underscore(dashed(n@)));
                    lemma_hash_keys(s, i + 1, HashState::AfterName, dashed(n@), cur, acc);
                },
                _ => {},
            },
            HashState::AfterName => {
                lemma_hash_keys(s, i + 1, HashState::InValue, name, cur, acc);
            },
            HashState::InValue => if is_punct(s[i], Punct::Comma) {
                lemma_insert_keys(acc, name, cur);
                lemma_hash_keys(
                    s,
                    i + 1,
                    HashState::InName,
                    Seq::empty(),
                    Seq::empty(),
                    assoc_insert(acc, name, cur),
                );
            } else {
                lemma_hash_keys(s, i + 1, HashState::InValue, name, render_tok(cur, s[i]), acc);
            },
        }
    }
}

/// The names of construct properties hold no `_`: it is written `-`.
pub proof fn law_hash_keys_dashed(s: Seq<Tok>)
    ensures
        spec_parse_hash(s) matches Ok(t) ==> keys_without_underscore(t),
{
    lemma_hash_keys(s, 0, HashState::InName, Seq::empty(), Seq::empty(), Seq::empty());
}

/// Some token among `s[i..j]` is the identifier `self`.
pub open spec fn mentions_self(s: Seq<Tok>, i: int, j: int) -> bool {
    exists|k: int| i <= k < j && is_ident(#[trigger] s[k], "self"@)
}

proof fn lemma_value_self(
    s: Seq<Tok>,
    i: int,
    is_event: bool,
    in_closure: bool,
    in_value: bool,
    cur: Seq<char>,
    use_self: bool,
)
    requires
        0 <= i <= s.len(),
    ensures
        ({
            let r = value_from(s, i, is_event, in_closure, in_value, cur, use_self);
            r.2 == (use_self || mentions_self(s, i, r.1))
        }),
    decreases s.len() - i,
{
    if i < s.len() {
        if is_ident(s[i], "self"@) {
            let id = if is_event || in_value {
                RELM_WIDGET_CLONE_IDENT@
            } else {
                "self"@
            };
            lemma_value_self(s, i + 1, is_event, in_closure, in_value, append_piece(cur, id), true);
            crate::values::lemma_value_from(
                s,
                i + 1,
                is_event,
                in_closure,
                in_value,
                append_piece(cur, id),
                true,
            );
            assert(is_ident(s[i], "self"@));
        } else if is_punct(s[i], Punct::Comma) && !in_closure {
        } else {
            let (c2, v2) = if is_punct(s[i], Punct::Or) {
                (
                    !in_closure,
                    if in_closure {
                        true
                    } else {
                        in_value
                    },
                )
            } else {
                (in_closure, in_value)
            };
            lemma_value_self(s, i + 1, is_event, c2, v2, render_tok(cur, s[i]), use_self);
            let r = value_from(s, i, is_event, in_closure, in_value, cur, use_self);
            if mentions_self(s, i, r.1) {
                let k = choose|k: int| i <= k < r.1 && is_ident(#[trigger] s[k], "self"@);
                assert(k != i);
                assert(mentions_self(s, i + 1, r.1));
            }
        }
    }
}

/// A value uses `self` exactly when one of its tokens is the identifier
/// `self`.
pub proof fn law_value_uses_self(s: Seq<Tok>, p: int, is_event: bool)
    requires
        0 <= p <= s.len(),
    ensures
        spec_parse_value(s, p, is_event).2 == mentions_self(s, p, spec_parse_value(s, p, is_event).1),
{
    lemma_value_self(s, p, is_event, false, false, Seq::empty(), false);
}

proof fn lemma_value_stops(
    s: Seq<Tok>,
    i: int,
    is_event: bool,
    in_closure: bool,
    in_value: bool,
    cur: Seq<char>,
    use_self: bool,
)
    requires
        0 <= i <= s.len(),
    ensures
        ({
            let q = value_from(s, i, is_event, in_closure, in_value, cur, use_self).1;
            q == s.len() || is_punct(s[q], Punct::Comma)
        }),
    decreases s.len() - i,
{
    if i < s.len() {
        if is_ident(s[i], "self"@) {
            let id = if is_event || in_value {
                RELM_WIDGET_CLONE_IDENT@
            } else {
                "self"@
            };
            lemma_value_stops(s, i + 1, is_event, in_closure, in_value, append_piece(cur, id), true);
        } else if is_punct(s[i], Punct::Comma) && !in_closure {
        } else if is_punct(s[i], Punct::Or) {
            lemma_value_stops(
                s,
                i + 1,
                is_event,
                !in_closure,
                if in_closure {
                    true
                } else {
                    in_value
                },
                render_tok(cur, s[i]),
                use_self,
            );
        } else {
            lemma_value_stops(
                s,
                i + 1,
                is_event,
                in_closure,
                in_value,
                render_tok(cur, s[i]),
                use_self,
            );
        }
    }
}

/// A value stops at a comma or at the end of its tokens, never elsewhere.
/// (So the second part of a `(value, message)` handler always finds its
/// comma or runs out of tokens.)
pub proof fn law_value_stops_at_comma(s: Seq<Tok>, p: int, is_event: bool)
    requires
        0 <= p <= s.len(),
    ensures
        ({
            let q = spec_parse_value(s, p, is_event).1;
            q == s.len() || is_punct(s[q], Punct::Comma)
        }),
{
    lemma_value_stops(s, p, is_event, false, false, Seq::empty(), false);
}

/// The counter `b` counts at least as far as `a`, for every kind, and holds
/// each kind once.
pub open spec fn counts_grow(a: Seq<(Seq<char>, u32)>, b: Seq<(Seq<char>, u32)>) -> bool {
    &&& names_wf(b)
    &&& forall|k: Seq<char>| #[trigger] count_of(b, k) >= count_of(a, k)
}

proof fn lemma_built_widget(
    st: Body,
    typ: crate::model::PathModel,
    init: Seq<Seq<char>>,
    relm: bool,
    cp: Seq<(Seq<char>, Seq<char>)>,
    save: bool,
)
    requires
        names_wf(st.names),
    ensures
        built_widget(st, typ, init, relm, cp, save) matches Ok((_, n)) ==> counts_grow(st.names, n),
{
    if gen_name(typ.segments, st.names) is Ok {
        law_gen_name_counts(typ.segments, st.names);
    }
}

proof fn lemma_body_item_names(s: Seq<Tok>, q: int, relm: bool, is_async: bool, st: Body)
    ensures
        body_item(s, q, relm, is_async, st) matches Ok((st2, _)) ==> st2.names == st.names,
{
}

proof fn lemma_body_from_names(s: Seq<Tok>, q: int, relm: bool, st: Body)
    requires
        names_wf(st.names),
    ensures
        body_from(s, q, relm, st) matches Ok(st2) ==> counts_grow(st.names, st2.names),
    decreases s, 3 * (s.len() - q) + 3,
{
    if 0 <= q < s.len() {
        match body_head(s, q, relm) {
            Err(e) => {},
            Ok((is_child, is_async, q1)) => {
                lemma_body_head(s, q, relm);
                if is_child {
                    lemma_parse_child_names(s, q1, false, st.names);
                    match spec_parse_child(s, q1, false, st.names) {
                        Err(e) => {},
                        Ok((w, _, names)) => {
                            lemma_child_end(s, q1);
                            let st2 = Body { children: st.children.push(w), names, ..st };
                            lemma_body_from_names(s, skip_comma(s, child_end(s, q1)), relm, st2);
                        },
                    }
                } else {
                    lemma_body_item_names(s, q1, relm, is_async, st);
                    match body_item(s, q1, relm, is_async, st) {
                        Err(e) => {},
                        Ok((st2, r)) => {
                            lemma_body_item(s, q1, relm, is_async, st);
                            lemma_body_from_names(s, skip_comma(s, r), relm, st2);
                        },
                    }
                }
            },
        }
    }
}

proof fn lemma_parse_child_names(s: Seq<Tok>, p: int, root: bool, names: Seq<(Seq<char>, u32)>)
    requires
        names_wf(names),
    ensures
        spec_parse_child(s, p, root, names) matches Ok((_, _, n)) ==> counts_grow(names, n),
    decreases s, 2int,
{
    match spec_parse_attributes(s, p) {
        Err(e) => {},
        Ok((attrs, a)) => {
            lemma_parse_widget_names(s, a, true, names);
            lemma_parse_widget_names(s, a, false, names);
            lemma_parse_relm_widget_names(s, a, names);
        },
    }
}

proof fn lemma_parse_widget_names(s: Seq<Tok>, a: int, save: bool, names: Seq<(Seq<char>, u32)>)
    requires
        names_wf(names),
    ensures
        spec_parse_widget(s, a, save, names) matches Ok((_, n)) ==> counts_grow(names, n),
    decreases s, 1int,
{
    match crate::pieces::spec_parse_qualified_name(s, a) {
        Ok((typ, q)) => match gtk_head(s, q) {
            Ok((cp, init, q1)) => if 0 <= q1 < s.len() {
                match s[q1] {
                    Tok::Group(crate::tokens::Delimiter::Brace, body) => {
                        lemma_body_from_names(body@, 0, false, empty_body(names));
                        match body_from(body@, 0, false, empty_body(names)) {
                            Ok(st) => {
                                lemma_built_widget(st, typ, init, false, cp, save);
                                lemma_counts_grow_trans(names, st.names, built_widget(st, typ, init, false, cp, save));
                            },
                            Err(e) => {},
                        }
                    },
                    _ => {},
                }
            },
            Err(e) => {},
        },
        _ => {},
    }
}

proof fn lemma_parse_relm_widget_names(s: Seq<Tok>, a: int, names: Seq<(Seq<char>, u32)>)
    requires
        names_wf(names),
    ensures
        spec_parse_relm_widget(s, a, names) matches Ok((_, n)) ==> counts_grow(names, n),
    decreases s, 1int,
{
    match crate::pieces::spec_parse_qualified_name(s, a) {
        Ok((typ, q)) => match relm_head(s, q) {
            Ok((init, q1)) => if 0 <= q1 < s.len() {
                let body = match s[q1] {
                    Tok::Group(crate::tokens::Delimiter::Brace, b) => {
                        lemma_body_from_names(b@, 0, true, empty_body(names));
                        body_from(b@, 0, true, empty_body(names))
                    },
                    _ => Ok(empty_body(names)),
                };
                match body {
                    Ok(st) => {
                        lemma_built_widget(st, typ, init, true, Seq::empty(), false);
                        lemma_counts_grow_trans(
                            names,
                            st.names,
                            built_widget(st, typ, init, true, Seq::empty(), false),
                        );
                    },
                    Err(e) => {},
                }
            },
            Err(e) => {},
        },
        _ => {},
    }
}

proof fn lemma_counts_grow_trans(
    a: Seq<(Seq<char>, u32)>,
    b: Seq<(Seq<char>, u32)>,
    r: Result<(crate::model::WidgetModel, Seq<(Seq<char>, u32)>), ViewError>,
)
    requires
        a == b || counts_grow(a, b),
        r matches Ok((_, c)) ==> counts_grow(b, c),
    ensures
        r matches Ok((_, c)) ==> counts_grow(a, c),
{
}

/// Reading a view only moves the widget name counters up: for every kind,
/// the counter afterwards is at least the counter before, so the names made
/// later for that kind carry numbers not used before.
pub proof fn law_parse_counts_grow(s: Seq<Tok>, names: Seq<(Seq<char>, u32)>)
    requires
        names_wf(names),
    ensures
        spec_parse(s, names) matches Ok((_, n)) ==> counts_grow(names, n),
{
    lemma_parse_child_names(s, 0, true, names);
}

/// A relm widget's generated name starts with `_`.
pub proof fn law_relm_name_underscore(s: Seq<Tok>, a: int, names: Seq<(Seq<char>, u32)>)
    ensures
        spec_parse_relm_widget(s, a, names) matches Ok((w, _)) ==> w.name.len() >= 1 && w.name[0]
            == '_',
{
}

/// The attributes at `p` give the widget a name.
pub open spec fn has_name_attribute(s: Seq<Tok>, p: int) -> bool {
    match spec_parse_attributes(s, p) {
        Ok((attrs, _)) => crate::table::lookup(attrs, "name"@) matches Some(Some(_)),
        Err(_) => false,
    }
}

/// A gtk widget read by `spec_parse_child` is kept in the model exactly when
/// it is the root widget or carries a `#[name = "..."]` attribute.
pub proof fn law_gtk_widget_saved(s: Seq<Tok>, p: int, root: bool, names: Seq<(Seq<char>, u32)>)
    ensures
        spec_parse_child(s, p, root, names) matches Ok((w, _, _)) ==> (w.widget matches crate::model::EitherWidgetModel::Gtk(
            g,
        ) ==> g.save == (root || has_name_attribute(s, p))),
{
}

// ---------------------------------------------------------------------------
// Construct property values
// ---------------------------------------------------------------------------

/// The text of the tokens `s[a..b]`, written as a token stream.
pub open spec fn render_range(s: Seq<Tok>, a: int, b: int) -> Seq<char>
    decreases b - a,
{
    if b <= a {
        Seq::empty()
    } else {
        render_tok(render_range(s, a, b - 1), s[b - 1])
    }
}

/// `s[a..b]` is a property value: it follows a `:`, holds no comma, and is
/// followed by a comma or the end.
pub open spec fn is_value_segment(s: Seq<Tok>, a: int, b: int) -> bool {
    &&& 0 < a <= b <= s.len()
    &&& is_punct(s[a - 1], Punct::Colon)
    &&& (b == s.len() || is_punct(s[b], Punct::Comma))
    &&& forall|k: int| a <= k < b ==> !is_punct(#[trigger] s[k], Punct::Comma)
}

/// `v` is empty, or the text of a value segment of `s`, unchanged.
pub open spec fn written_value(s: Seq<Tok>, v: Seq<char>) -> bool {
    v.len() == 0 || exists|a: int, b: int|
        #![trigger is_value_segment(s, a, b)]
        is_value_segment(s, a, b) && v == render_range(s, a, b)
}

/// Every value of the table is a written value of `s`.
pub open spec fn values_written(s: Seq<Tok>, t: Seq<(Seq<char>, Seq<char>)>) -> bool {
    forall|j: int| 0 <= j < t.len() ==> written_value(s, #[trigger] t[j].1)
}

proof fn lemma_insert_written(s: Seq<Tok>, t: Seq<(Seq<char>, Seq<char>)>, k: Seq<char>, v: Seq<char>)
    requires
        values_written(s, t),
        written_value(s, v),
    ensures
        values_written(s, assoc_insert(t, k, v)),
{
    lemma_key_index(t, k);
    let r = assoc_insert(t, k, v);
    let i = key_index(t, k);
    assert forall|j: int| 0 <= j < r.len() implies written_value(s, #[trigger] r[j].1) by {
        if j == i {
            assert(r[j].1 == v);
        } else {
            assert(r[j] == t[j]);
        }
    }
}

proof fn lemma_hash_values(
    s: Seq<Tok>,
    i: int,
    state: HashState,
    name: Seq<char>,
    cur: Seq<char>,
    acc: Seq<(Seq<char>, Seq<char>)>,
    a: int,
)
    requires
        0 <= i <= s.len(),
        values_written(s, acc),
        state is InValue ==> 0 < a <= i && is_punct(s[a - 1], Punct::Colon) && (forall|k: int|
            a <= k < i ==> !is_punct(#[trigger] s[k], Punct::Comma)) && cur == render_range(
            s,
            a,
            i,
        ),
        !(state is InValue) ==> cur.len() == 0,
    ensures
        hash_from(s, i, state, name, cur, acc) matches Ok(t) ==> values_written(s, t),
    decreases s.len() - i,
{
    if i >= s.len() {
        if state is InValue {
            assert(is_value_segment(s, a, i));
        }
        lemma_insert_written(s, acc, name, cur);
    } else {
        match state {
            HashState::InName => match s[i] {
                Tok::Ident(n) => {
                    lemma_hash_values(s, i + 1, HashState::AfterName, dashed(n@), cur, acc, a);
                },
                _ => {},
            },
            HashState::AfterName => if is_punct(s[i], Punct::Colon) {
                assert(render_range(s, i + 1, i + 1) == Seq::<char>::empty());
                assert(cur =~= render_range(s, i + 1, i + 1));
                lemma_hash_values(s, i + 1, HashState::InValue, name, cur, acc, i + 1);
            },
            HashState::InValue => if is_punct(s[i], Punct::Comma) {
                assert(is_value_segment(s, a, i));
                lemma_insert_written(s, acc, name, cur);
                lemma_hash_values(
                    s,
                    i + 1,
                    HashState::InName,
                    Seq::empty(),
                    Seq::empty(),
                    assoc_insert(acc, name, cur),
                    a,
                );
            } else {
                assert(render_range(s, a, i + 1) == render_tok(render_range(s, a, i), s[i]));
                lemma_hash_values(
                    s,
                    i + 1,
                    HashState::InValue,
                    name,
                    render_tok(cur, s[i]),
                    acc,
                    a,
                );
            },
        }
    }
}

/// Each construct property value is kept as written: it is the text of the
/// tokens between a `:` and the next comma (or the end), unchanged (or
/// empty, where no value was written).
pub proof fn law_hash_values_as_written(s: Seq<Tok>)
    ensures
        spec_parse_hash(s) matches Ok(t) ==> values_written(s, t),
{
    lemma_hash_values(s, 0, HashState::InName, Seq::empty(), Seq::empty(), Seq::empty(), 0);
}

// ---------------------------------------------------------------------------
// Widget bodies
// ---------------------------------------------------------------------------

/// The name of the identifier at `i`.
pub open spec fn ident_at(s: Seq<Tok>, i: int) -> Seq<char> {
    match s[i] {
        Tok::Ident(n) => n@,
        _ => Seq::empty(),
    }
}

/// `t` is a `(...)` group.
pub open spec fn is_paren_group(t: Tok) -> bool {
    t matches Tok::Group(Delimiter::Paren, _)
}

/// The item at `q` of a relm widget's body handles a message: an identifier
/// that does not start with a lowercase character, followed by `(` or `=>`.
pub open spec fn is_message_item(s: Seq<Tok>, q: int) -> bool {
    &&& 0 <= q
    &&& q + 1 < s.len()
    &&& s[q] is Ident
    &&& ident_at(s, q).len() > 0
    &&& !char_lowercase(ident_at(s, q)[0])
    &&& (is_paren_group(s[q + 1]) || is_punct(s[q + 1], Punct::FatArrow))
}

/// The handlers of a message after one more has been read.
pub open spec fn with_handler(old: Option<Seq<EventModel>>, ev: EventModel) -> Seq<EventModel> {
    match old {
        Some(l) => l.push(ev),
        None => seq![ev],
    }
}

/// In a relm widget's body, a message handler is added at the end of the
/// handlers already read for that message, so the list keeps every handler
/// written for it, in order; the handlers of other messages stay as they
/// were.
pub proof fn law_relm_message_handler_appended(s: Seq<Tok>, q: int, is_async: bool, st: Body)
    requires
        keys_unique(st.relm_events),
        is_message_item(s, q),
    ensures
        body_item(s, q, true, is_async, st) matches Ok((st2, _)) ==> (spec_parse_event(
            s,
            q + 1,
            false,
        ) matches Ok((ev, _)) && lookup(st2.relm_events, ident_at(s, q)) == Some(
            with_handler(lookup(st.relm_events, ident_at(s, q)), ev),
        ) && forall|k: Seq<char>|
            k != ident_at(s, q) ==> #[trigger] lookup(st2.relm_events, k) == lookup(
                st.relm_events,
                k,
            )),
{
    match spec_parse_event(s, q + 1, false) {
        Ok((ev, _)) => {
            lemma_assoc_push(st.relm_events, ident_at(s, q), ev);
        },
        Err(_) => {},
    }
}

/// A child's event handler `child.event => value` written without a
/// parameter list has the one parameter `_`.
pub proof fn law_child_event_default_param(
    s: Seq<Tok>,
    q: int,
    relm: bool,
    is_async: bool,
    st: Body,
)
    requires
        keys_unique(st.child_events),
        0 <= q,
        q + 3 < s.len(),
        is_punct(s[q + 1], Punct::Dot),
        !is_paren_group(s[q + 3]),
    ensures
        body_item(s, q, relm, is_async, st) matches Ok((st2, _)) ==> (lookup(
            st2.child_events,
            (ident_at(s, q), ident_at(s, q + 2)),
        ) matches Some(ev) && ev.params == seq![seq!['_']]),
{
    match body_item(s, q, relm, is_async, st) {
        Ok((st2, _)) => {
            match spec_parse_event(s, q + 3, true) {
                Ok((ev, _)) => {
                    lemma_assoc_insert(st.child_events, (ident_at(s, q), ident_at(s, q + 2)), ev);
                },
                Err(_) => {},
            }
        },
        Err(_) => {},
    }
}

/// The constructor arguments `(...)` after a gtk widget's type, where they
/// are not construct properties `({ ... })`.
pub open spec fn constructor_args(s: Seq<Tok>, q: int) -> Option<Seq<Tok>> {
    if 0 <= q < s.len() {
        match s[q] {
            Tok::Group(Delimiter::Paren, inner) => if inner@.len() > 0 && !(inner@[0] matches Tok::Group(
                Delimiter::Brace,
                _,
            )) {
                Some(inner@)
            } else {
                None
            },
            _ => None,
        }
    } else {
        None
    }
}

/// A gtk widget's constructor arguments are the expressions written in the
/// `(...)` after its type, one more than there are commas; without `(...)`
/// there are none.
pub proof fn law_gtk_init_parameters(s: Seq<Tok>, a: int, save: bool, names: Seq<(Seq<char>, u32)>)
    ensures
        spec_parse_widget(s, a, save, names) matches Ok((w, _)) ==> ({
            let q = crate::pieces::name_scan(s, a, 0);
            &&& (constructor_args(s, q) matches Some(args) ==> spec_parse_comma_list(args)
                == Ok::<Seq<Seq<char>>, ViewError>(w.init_parameters) && w.init_parameters.len()
                == comma_count(args, 0) + 1)
            &&& (0 <= q < s.len() && !is_paren_group(s[q]) ==> w.init_parameters.len() == 0)
        }),
{
    let q = crate::pieces::name_scan(s, a, 0);
    match constructor_args(s, q) {
        Some(args) => law_comma_list_len(args),
        None => {},
    }
}

/// The value the attributes at `p` hold under `key`.
pub open spec fn attribute_at(s: Seq<Tok>, p: int, key: Seq<char>) -> Option<Option<Seq<char>>> {
    match spec_parse_attributes(s, p) {
        Ok((attrs, _)) => lookup(attrs, key),
        Err(_) => None,
    }
}

/// A widget's container type is what its attributes hold under `container`:
/// none without the attribute, `Some(None)` for `#[container]`, and
/// `Some(Some(v))` for `#[container = "v"]`.
pub proof fn law_child_container(s: Seq<Tok>, p: int, root: bool, names: Seq<(Seq<char>, u32)>)
    ensures
        spec_parse_child(s, p, root, names) matches Ok((w, _, _)) ==> w.container_type
            == attribute_at(s, p, "container"@),
{
}

/// An attribute `#[name = "value"]` with a plain string literal holds its
/// value; `#[name]` holds none.
pub proof fn law_attribute_value(inner: Seq<Tok>)
    ensures
        inner.len() >= 3 && inner[0] is Ident && is_punct(inner[1], Punct::Eq) && (
        inner[2] matches Tok::Str { cooked, .. } && cooked) ==> (spec_attribute(inner) matches Ok(
            Some((n, v)),
        ) && n == ident_at(inner, 0) && v == Some(
            match inner[2] {
                Tok::Str { value, .. } => value@,
                _ => Seq::empty(),
            },
        )),
        inner.len() == 1 && inner[0] is Ident ==> spec_attribute(inner) == Ok::<
            Option<(Seq<char>, Option<Seq<char>>)>,
            ViewError,
        >(Some((ident_at(inner, 0), None))),
{
}

} // verus!
