use relm_gen_widget::names::{next_name, last_segment_lowercase, NameIndex};
use relm_gen_widget::pieces::{
    dash_name, parse_comma_ident_list, parse_comma_list, parse_hash, try_parse_async,
    try_parse_name,
};
use relm_gen_widget::table::Table;
use relm_gen_widget::text::push_decimal;
use relm_gen_widget::tokens::render_into;
use relm_gen_widget::tree::{parse, view_file};
use relm_gen_widget::values::{parse_attributes, parse_event, parse_value};
use relm_gen_widget::{
    Delimiter, EitherWidget, EventValue, EventValueReturn, Punct, Tok, ViewError, Widget,
};

fn id(s: &str) -> Tok {
    Tok::Ident(s.to_string())
}

fn p(x: Punct) -> Tok {
    Tok::Punct(x)
}

fn other(s: &str) -> Tok {
    Tok::Other(s.to_string())
}

fn cooked(s: &str) -> Tok {
    Tok::Str { value: s.to_string(), cooked: true, text: format!("\"{}\"", s) }
}

fn group(d: Delimiter, v: Vec<Tok>) -> Tok {
    Tok::Group(d, v)
}

fn paren(v: Vec<Tok>) -> Tok {
    group(Delimiter::Paren, v)
}

fn brace(v: Vec<Tok>) -> Tok {
    group(Delimiter::Brace, v)
}

fn bracket(v: Vec<Tok>) -> Tok {
    group(Delimiter::Bracket, v)
}

fn path(segments: &[&str]) -> Vec<Tok> {
    let mut v = Vec::new();
    for (i, s) in segments.iter().enumerate() {
        if i > 0 {
            v.push(p(Punct::ModSep));
        }
        v.push(id(s));
    }
    v
}

fn key(s: &str) -> String {
    s.to_string()
}

fn parse_view(tokens: Vec<Tok>) -> Result<Widget, ViewError> {
    let mut names = NameIndex::new();
    parse(&tokens, &mut names)
}

// gtk::Window { gtk::Button { label: "Hi", clicked => Msg::Click, }, }
fn window_with_button() -> Vec<Tok> {
    let mut button = path(&["gtk", "Button"]);
    button.push(brace(vec![
        id("label"),
        p(Punct::Colon),
        cooked("Hi"),
        p(Punct::Comma),
        id("clicked"),
        p(Punct::FatArrow),
        id("Msg"),
        p(Punct::ModSep),
        id("Click"),
        p(Punct::Comma),
    ]));
    button.push(p(Punct::Comma));
    let mut window = path(&["gtk", "Window"]);
    window.push(brace(button));
    window
}

#[test]
fn parses_gtk_window_with_button() {
    let w = parse_view(window_with_button()).unwrap();
    assert_eq!(w.name, "gtkwindow1");
    assert_eq!(w.typ.text, "gtk::Window");
    assert_eq!(w.typ.segments, vec![key("gtk"), key("Window")]);
    assert_eq!(w.children.len(), 1);
    assert_eq!(w.parent_id, None);
    assert_eq!(w.container_type, None);
    match &w.widget {
        EitherWidget::Gtk(g) => assert!(g.save),
        EitherWidget::Relm(_) => panic!("expected a gtk widget"),
    }
    let button = &w.children[0];
    assert_eq!(button.name, "gtkbutton1");
    assert_eq!(button.properties.get(&key("label")), Some(&key("\"Hi\"")));
    match &button.widget {
        EitherWidget::Gtk(g) => {
            assert!(!g.save);
            let e = g.events.get(&key("clicked")).unwrap();
            assert_eq!(e.params, vec![key("_")]);
            assert!(!e.use_self);
            assert!(!e.is_async);
            match &e.value {
                EventValue::CurrentWidget(EventValueReturn::WithoutReturn(m)) => {
                    assert_eq!(m, "Msg :: Click")
                },
                _ => panic!("expected a message to the current widget"),
            }
        },
        EitherWidget::Relm(_) => panic!("expected a gtk widget"),
    }
}

#[test]
fn widgets_of_one_kind_are_numbered() {
    // gtk::Box { gtk::Label { }, gtk::Label { } }
    let mut inner = Vec::new();
    inner.extend(path(&["gtk", "Label"]));
    inner.push(brace(vec![]));
    inner.push(p(Punct::Comma));
    inner.extend(path(&["gtk", "Label"]));
    inner.push(brace(vec![]));
    let mut view = path(&["gtk", "Box"]);
    view.push(brace(inner));
    let w = parse_view(view).unwrap();
    assert_eq!(w.children[0].name, "gtklabel1");
    assert_eq!(w.children[1].name, "gtklabel2");
    assert_eq!(w.name, "gtkbox1");
}

#[test]
fn next_name_counts_per_kind() {
    let mut names = NameIndex::new();
    assert_eq!(next_name(key("button"), &mut names), Ok(key("button1")));
    assert_eq!(next_name(key("button"), &mut names), Ok(key("button2")));
    assert_eq!(next_name(key("label"), &mut names), Ok(key("label1")));
    assert_eq!(names.count(&key("button")), 2);
    assert_eq!(names.count(&key("entry")), 0);
}

#[test]
fn relm_widget_and_attributes() {
    // #[name="counter"] #[parent="box"] #[container] Counter(2) { Inc => Msg::Up, }
    let view = vec![
        p(Punct::Pound),
        bracket(vec![id("name"), p(Punct::Eq), cooked("counter")]),
        p(Punct::Pound),
        bracket(vec![id("parent"), p(Punct::Eq), cooked("box")]),
        p(Punct::Pound),
        bracket(vec![id("container")]),
        id("Counter"),
        paren(vec![other("2")]),
        brace(vec![
            id("Inc"),
            p(Punct::FatArrow),
            id("Msg"),
            p(Punct::ModSep),
            id("Up"),
            p(Punct::Comma),
        ]),
    ];
    let w = parse_view(view).unwrap();
    assert_eq!(w.name, "counter");
    assert_eq!(w.parent_id, Some(key("box")));
    assert_eq!(w.container_type, Some(None));
    assert_eq!(w.init_parameters, vec![key("2")]);
    match &w.widget {
        EitherWidget::Relm(r) => {
            let handlers = r.events.get(&key("Inc")).unwrap();
            assert_eq!(handlers.len(), 1);
            assert_eq!(handlers[0].params.len(), 0);
            assert_eq!(r.gtk_events.len(), 0);
        },
        EitherWidget::Gtk(_) => panic!("expected a relm widget"),
    }
}

#[test]
fn relm_widget_name_starts_with_underscore() {
    let view = vec![id("Counter"), brace(vec![])];
    let w = parse_view(view).unwrap();
    assert_eq!(w.name, "_counter1");
}

#[test]
fn relm_lowercase_event_is_a_gtk_event() {
    let view = vec![
        id("Counter"),
        brace(vec![id("show"), p(Punct::FatArrow), id("Msg"), p(Punct::ModSep), id("Shown")]),
    ];
    let w = parse_view(view).unwrap();
    match &w.widget {
        EitherWidget::Relm(r) => {
            let e = r.gtk_events.get(&key("show")).unwrap();
            assert_eq!(e.params, vec![key("_")]);
            assert_eq!(r.events.len(), 0);
        },
        EitherWidget::Gtk(_) => panic!("expected a relm widget"),
    }
}

#[test]
fn construct_properties_and_child_properties() {
    // gtk::Entry({ max_length: 3 }) { packing: { expand: true, }, #[async] activate(e) => (Msg::A, false), }
    let mut view = path(&["gtk", "Entry"]);
    view.push(paren(vec![brace(vec![id("max_length"), p(Punct::Colon), other("3")])]));
    view.push(brace(vec![
        id("packing"),
        p(Punct::Colon),
        brace(vec![id("expand"), p(Punct::Colon), id("true"), p(Punct::Comma)]),
        p(Punct::Comma),
        p(Punct::Pound),
        bracket(vec![id("async")]),
        id("activate"),
        paren(vec![id("e")]),
        p(Punct::FatArrow),
        paren(vec![id("Msg"), p(Punct::ModSep), id("A"), p(Punct::Comma), id("false")]),
        p(Punct::Comma),
    ]));
    let w = parse_view(view).unwrap();
    assert_eq!(w.child_properties.get(&key("expand")), Some(&key("true")));
    match &w.widget {
        EitherWidget::Gtk(g) => {
            assert_eq!(g.construct_properties.get(&key("max-length")), Some(&key("3")));
            let e = g.events.get(&key("activate")).unwrap();
            assert!(e.is_async);
            assert_eq!(e.params, vec![key("e")]);
            match &e.value {
                EventValue::CurrentWidget(EventValueReturn::Return(v, m)) => {
                    assert_eq!(v, "Msg :: A");
                    assert_eq!(m, "false");
                },
                _ => panic!("expected a value and a message"),
            }
        },
        EitherWidget::Relm(_) => panic!("expected a gtk widget"),
    }
}

#[test]
fn child_event_and_foreign_widget() {
    // gtk::Box { child.clicked => other@Msg::Go, }
    let mut view = path(&["gtk", "Box"]);
    view.push(brace(vec![
        id("child"),
        p(Punct::Dot),
        id("clicked"),
        p(Punct::FatArrow),
        id("other"),
        p(Punct::At),
        id("Msg"),
        p(Punct::ModSep),
        id("Go"),
    ]));
    let w = parse_view(view).unwrap();
    let e = w.child_events.get(&(key("child"), key("clicked"))).unwrap();
    match &e.value {
        EventValue::ForeignWidget(target, EventValueReturn::WithoutReturn(m)) => {
            assert_eq!(target, "other");
            assert_eq!(m, "Msg :: Go");
        },
        _ => panic!("expected a message to another widget"),
    }
}

#[test]
fn value_rewrites_self() {
    let v = vec![id("self"), p(Punct::Dot), id("x"), p(Punct::Comma), id("y")];
    let (text, end, use_self) = parse_value(&v, 0, false);
    assert_eq!(text, "self . x");
    assert_eq!(end, 3);
    assert!(use_self);
    let (text, _, _) = parse_value(&v, 0, true);
    assert_eq!(text, "__relm_widget_self_clone . x");
}

#[test]
fn value_inside_closure_keeps_commas() {
    // |a, b| self.f(a, b)
    let v = vec![
        p(Punct::Or),
        id("a"),
        p(Punct::Comma),
        id("b"),
        p(Punct::Or),
        id("self"),
        p(Punct::Dot),
        id("f"),
        paren(vec![id("a"), p(Punct::Comma), id("b")]),
        p(Punct::Comma),
        id("rest"),
    ];
    let (text, end, use_self) = parse_value(&v, 0, false);
    assert_eq!(text, "| a , b | __relm_widget_self_clone . f ( a , b )");
    assert_eq!(end, 9);
    assert!(use_self);
}

#[test]
fn value_without_self() {
    let v = vec![other("1"), other("+"), other("2")];
    let (text, end, use_self) = parse_value(&v, 0, false);
    assert_eq!(text, "1 + 2");
    assert_eq!(end, 3);
    assert!(!use_self);
}

#[test]
fn event_with_return() {
    let v = vec![p(Punct::FatArrow), id("return"), id("true")];
    let (e, end) = parse_event(&v, 0, true).unwrap();
    assert_eq!(end, 3);
    match e.value {
        EventValue::CurrentWidget(EventValueReturn::CallReturn(value)) => assert_eq!(value, "true"),
        _ => panic!("expected a returned value"),
    }
}

#[test]
fn comma_list_counts_commas() {
    let v = vec![other("1"), p(Punct::Comma), other("2"), p(Punct::Comma), id("x")];
    assert_eq!(parse_comma_list(&v), Ok(vec![key("1"), key("2"), key("x")]));
}

#[test]
fn comma_ident_list() {
    let v = vec![id("a"), p(Punct::Comma), id("b")];
    assert_eq!(parse_comma_ident_list(&v), Ok(vec![key("a"), key("b")]));
}

#[test]
fn hash_replaces_underscores() {
    let v = vec![
        id("max_width_chars"),
        p(Punct::Colon),
        other("10"),
        p(Punct::Comma),
        id("text"),
        p(Punct::Colon),
        cooked("a"),
    ];
    let t: Table<String, String> = parse_hash(&v).unwrap();
    assert_eq!(t.len(), 2);
    assert_eq!(t.get(&key("max-width-chars")), Some(&key("10")));
    assert_eq!(t.get(&key("text")), Some(&key("\"a\"")));
    assert_eq!(dash_name(&key("a_b_")), "a-b-");
}

#[test]
fn decimal_numerals() {
    let mut s = key("n");
    push_decimal(&mut s, 0);
    assert_eq!(s, "n0");
    let mut s = String::new();
    push_decimal(&mut s, 4294967295);
    assert_eq!(s, "4294967295");
}

#[test]
fn render_group() {
    let mut s = key("f");
    render_into(&mut s, &paren(vec![id("a"), p(Punct::Comma), other("1")]));
    assert_eq!(s, "f ( a , 1 )");
}

#[test]
fn async_attribute() {
    let v = vec![p(Punct::Pound), bracket(vec![id("async")]), id("x")];
    assert_eq!(try_parse_async(&v, 0), Ok((true, 2)));
    let v = vec![p(Punct::Pound), bracket(vec![id("name")]), id("x")];
    assert_eq!(try_parse_async(&v, 0), Ok((false, 0)));
}

#[test]
fn type_names() {
    let mut v = path(&["gtk", "Button"]);
    v.push(brace(vec![]));
    let (t, end) = try_parse_name(&v, 0).unwrap().unwrap();
    assert_eq!(t.text, "gtk::Button");
    assert_eq!(end, 3);
    // a lowercase last segment names no widget type
    let mut v = path(&["gtk", "button"]);
    v.push(brace(vec![]));
    assert!(try_parse_name(&v, 0).unwrap().is_none());
    // a path followed by something else than a group or a comma
    let v = vec![id("Button"), p(Punct::Colon)];
    assert!(try_parse_name(&v, 0).unwrap().is_none());
    // generic arguments
    let v = vec![id("Vec"), p(Punct::Lt), id("T"), p(Punct::Comma), id("U"), p(Punct::Gt), p(Punct::Comma)];
    let (t, end) = try_parse_name(&v, 0).unwrap().unwrap();
    assert_eq!(t.text, "Vec<T,U>");
    assert_eq!(end, 6);
}

#[test]
fn attributes_table() {
    let v = vec![
        p(Punct::Pound),
        bracket(vec![id("name"), p(Punct::Eq), cooked("a")]),
        p(Punct::Pound),
        bracket(vec![id("name"), p(Punct::Eq), cooked("b")]),
        id("X"),
    ];
    let (t, end) = parse_attributes(&v, 0).unwrap();
    assert_eq!(end, 4);
    assert_eq!(t.len(), 1);
    assert_eq!(t.get(&key("name")), Some(&Some(key("b"))));
}

#[test]
fn view_file_name() {
    let v = vec![cooked("view.rs")];
    assert_eq!(view_file(&v), Ok(Some(key("view.rs"))));
    let v = vec![id("X")];
    assert_eq!(view_file(&v), Ok(None));
    assert_eq!(view_file(&vec![]), Err(ViewError::UnexpectedEnd));
}

// --- Errors -------------------------------------------------------------

#[test]
fn error_unexpected_end() {
    assert_eq!(parse_view(vec![]).err(), Some(ViewError::UnexpectedEnd));
    // gtk::Button() { }: empty constructor arguments
    let mut v = path(&["gtk", "Button"]);
    v.push(paren(vec![]));
    v.push(brace(vec![]));
    assert_eq!(parse_view(v).err(), Some(ViewError::UnexpectedEnd));
}

#[test]
fn error_expected_ident() {
    let mut v = path(&["gtk", "Button"]);
    v.push(brace(vec![other("1")]));
    assert_eq!(parse_view(v).err(), Some(ViewError::ExpectedIdent));
}

#[test]
fn error_expected_qualified_name() {
    let v = vec![id("button"), brace(vec![])];
    assert_eq!(parse_view(v).err(), Some(ViewError::ExpectedQualifiedName));
}

#[test]
fn error_expected_brace() {
    let mut v = path(&["gtk", "Button"]);
    v.push(paren(vec![other("1")]));
    v.push(p(Punct::Comma));
    assert_eq!(parse_view(v).err(), Some(ViewError::ExpectedBrace));
}

#[test]
fn error_expected_colon_or_paren() {
    let mut v = path(&["gtk", "Button"]);
    v.push(brace(vec![id("label"), p(Punct::Eq)]));
    assert_eq!(parse_view(v).err(), Some(ViewError::ExpectedColonOrParen));
}

#[test]
fn error_expected_colon_arrow_or_paren() {
    let v = vec![id("Counter"), brace(vec![id("label"), p(Punct::Eq)])];
    assert_eq!(parse_view(v).err(), Some(ViewError::ExpectedColonArrowOrParen));
}

#[test]
fn error_expected_fat_arrow() {
    let v = vec![paren(vec![id("a")]), id("Msg")];
    assert_eq!(parse_event(&v, 0, true).err(), Some(ViewError::ExpectedFatArrow));
}

#[test]
fn event_pair_without_comma() {
    // A value only stops at a comma or at the end, so `(a b)` runs out of
    // tokens before its second part.
    let v = vec![p(Punct::FatArrow), paren(vec![id("a"), id("b")])];
    assert_eq!(parse_event(&v, 0, true).err(), Some(ViewError::UnexpectedEnd));
}

#[test]
fn error_expected_token() {
    let v = vec![id("a"), paren(vec![])];
    assert_eq!(parse_comma_ident_list(&v), Err(ViewError::ExpectedToken));
}

#[test]
fn error_expected_colon() {
    let v = vec![id("a"), p(Punct::Eq), other("1")];
    assert_eq!(parse_hash(&v).err(), Some(ViewError::ExpectedColon));
}

#[test]
fn error_invalid_expression() {
    let v = vec![other("1"), p(Punct::Comma)];
    assert_eq!(parse_comma_list(&v), Err(ViewError::InvalidExpression));
    assert_eq!(parse_hash(&vec![]).err(), Some(ViewError::InvalidExpression));
}

#[test]
fn error_empty_path_and_segment() {
    assert_eq!(last_segment_lowercase(&vec![]), Err(ViewError::EmptyPath));
    assert_eq!(last_segment_lowercase(&vec![key("gtk"), key("")]), Err(ViewError::EmptySegment));
    assert_eq!(last_segment_lowercase(&vec![key("gtk"), key("Button")]), Ok(false));
    assert_eq!(last_segment_lowercase(&vec![key("gtk"), key("button")]), Ok(true));
}


#[test]
fn names_carry_over_between_views() {
    let mut names = NameIndex::new();
    let first = parse(&window_with_button(), &mut names).unwrap();
    let second = parse(&window_with_button(), &mut names).unwrap();
    assert_eq!(first.name, "gtkwindow1");
    assert_eq!(second.name, "gtkwindow2");
    assert_eq!(second.children[0].name, "gtkbutton2");
    assert_eq!(names.count(&key("gtkwindow")), 2);
}

#[test]
fn hash_with_trailing_comma_is_refused() {
    let v = vec![id("a"), p(Punct::Colon), other("1"), p(Punct::Comma)];
    assert_eq!(parse_hash(&v).err(), Some(ViewError::InvalidExpression));
}
