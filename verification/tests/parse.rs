//! End-to-end and per-construct tests of the configuration parser.

use appcfg::app;
use appcfg::parse::bool_lit;
use appcfg::parse::idents;
use appcfg::parse::path;
use appcfg::parse::static_;
use appcfg::parse::statics;
use appcfg::parse::task;
use appcfg::parse::tasks;
use appcfg::parse::u8_lit;
use appcfg::Context;
use appcfg::Delim;
use appcfg::ErrorKind;
use appcfg::Lit;
use appcfg::Token;

fn id(s: &str) -> Token {
    Token::Ident(s.to_string())
}

fn pu(c: char) -> Token {
    Token::Punct(c)
}

fn grp(d: Delim, ts: Vec<Token>) -> Token {
    Token::Group(d, ts)
}

fn lit_int(n: u64) -> Token {
    Token::Literal(Lit::Int(n, false))
}

fn lit_int_suffixed(n: u64) -> Token {
    Token::Literal(Lit::Int(n, true))
}

fn boolean(v: bool) -> Token {
    Token::Literal(Lit::Bool(v))
}

/// A canonical rendering of a token, for comparing fragments.
fn show(t: &Token) -> String {
    match t {
        Token::Ident(s) => format!("i({})", s),
        Token::Punct(c) => format!("p({})", c),
        Token::Literal(Lit::Bool(b)) => format!("lb({})", b),
        Token::Literal(Lit::Int(n, s)) => format!("li({},{})", n, s),
        Token::Literal(Lit::Other(x)) => format!("lo({})", x),
        Token::Group(d, ts) => format!("g({:?},[{}])", d, show_all(ts)),
    }
}

fn show_all(ts: &[Token]) -> String {
    let mut out = String::new();
    for (i, t) in ts.iter().enumerate() {
        if i > 0 {
            out.push(' ');
        }
        out.push_str(&show(t));
    }
    out
}

/// `{ device: stm32, idle: { path: idle_fn }, init: { path: init_fn } }`
fn minimal_input() -> Vec<Token> {
    vec![grp(
        Delim::Brace,
        vec![
            id("device"),
            pu(':'),
            id("stm32"),
            pu(','),
            id("idle"),
            pu(':'),
            grp(Delim::Brace, vec![id("path"), pu(':'), id("idle_fn"), pu(',')]),
            pu(','),
            id("init"),
            pu(':'),
            grp(Delim::Brace, vec![id("path"), pu(':'), id("init_fn"), pu(',')]),
        ],
    )]
}

#[test]
fn minimal_app_parses_verbatim() {
    let a = app(&minimal_input()).unwrap_or_else(|_| panic!("minimal input must parse"));
    assert_eq!(show_all(&a.device.0), "i(stm32)");
    assert_eq!(show_all(&a.idle.path.0), "i(idle_fn)");
    assert_eq!(show_all(&a.init.path.0), "i(init_fn)");
    assert!(a.idle.locals.is_empty());
    assert!(a.idle.resources.is_empty());
    assert!(a.resources.is_empty());
    assert!(a.tasks.is_empty());
}

#[test]
fn end_to_end_full_scenario() {
    // { device: stm32, idle: { path: idle_fn }, init: { path: init_fn },
    //   resources: { R: u8 = 0; }, tasks: { t1: { priority: 1, resources: [R] } } }
    let input = vec![grp(
        Delim::Brace,
        vec![
            id("device"),
            pu(':'),
            id("stm32"),
            pu(','),
            id("idle"),
            pu(':'),
            grp(Delim::Brace, vec![id("path"), pu(':'), id("idle_fn"), pu(',')]),
            pu(','),
            id("init"),
            pu(':'),
            grp(Delim::Brace, vec![id("path"), pu(':'), id("init_fn"), pu(',')]),
            pu(','),
            id("resources"),
            pu(':'),
            grp(Delim::Brace, vec![id("R"), pu(':'), id("u8"), pu('='), lit_int(0), pu(';')]),
            pu(','),
            id("tasks"),
            pu(':'),
            grp(
                Delim::Brace,
                vec![
                    id("t1"),
                    pu(':'),
                    grp(
                        Delim::Brace,
                        vec![
                            id("priority"),
                            pu(':'),
                            lit_int(1),
                            pu(','),
                            id("resources"),
                            pu(':'),
                            grp(Delim::Bracket, vec![id("R")]),
                        ],
                    ),
                ],
            ),
        ],
    )];
    let a = app(&input).unwrap_or_else(|_| panic!("full scenario must parse"));
    assert_eq!(show_all(&a.device.0), "i(stm32)");
    assert_eq!(a.resources.len(), 1);
    assert_eq!(a.resources[0].0, "R");
    assert_eq!(show_all(&a.resources[0].1.ty.0), "i(u8)");
    assert_eq!(show_all(&a.resources[0].1.expr.0), "li(0,false)");
    assert_eq!(a.tasks.len(), 1);
    assert_eq!(a.tasks[0].0, "t1");
    let t = &a.tasks[0].1;
    assert_eq!(t.priority, Some(1));
    assert_eq!(t.enabled, None);
    assert_eq!(t.resources, vec!["R".to_string()]);
}

#[test]
fn duplicate_device_fails() {
    let input = vec![grp(
        Delim::Brace,
        vec![
            id("device"),
            pu(':'),
            id("a"),
            pu(','),
            id("device"),
            pu(':'),
            id("b"),
            pu(','),
        ],
    )];
    let e = match app(&input) {
        Err(e) => e,
        Ok(_) => panic!("duplicated device must fail"),
    };
    assert!(matches!(e.kind, ErrorKind::DuplicateField(ref s) if s == "device"));
}

#[test]
fn duplicate_idle_fails_whatever_the_order() {
    // the duplicated field comes after other fields
    let input = vec![grp(
        Delim::Brace,
        vec![
            id("idle"),
            pu(':'),
            grp(Delim::Brace, vec![id("path"), pu(':'), id("f"), pu(',')]),
            pu(','),
            id("device"),
            pu(':'),
            id("d"),
            pu(','),
            id("idle"),
            pu(':'),
            grp(Delim::Brace, vec![id("path"), pu(':'), id("g"), pu(',')]),
        ],
    )];
    let e = match app(&input) {
        Err(e) => e,
        Ok(_) => panic!("duplicated idle must fail"),
    };
    assert!(matches!(e.kind, ErrorKind::DuplicateField(ref s) if s == "idle"));
}

#[test]
fn ident_set_duplicate_fails() {
    let input = vec![grp(
        Delim::Bracket,
        vec![id("a"), pu(','), id("b"), pu(','), id("a")],
    )];
    let e = match idents(&input, 0) {
        Err(e) => e,
        Ok(_) => panic!("[a, b, a] must fail"),
    };
    assert!(matches!(e.kind, ErrorKind::DuplicateIdent(ref s) if s == "a"));
}

#[test]
fn ident_set_two_elements() {
    let input = vec![grp(Delim::Bracket, vec![id("a"), pu(','), id("b")])];
    let r = idents(&input, 0).unwrap_or_else(|_| panic!("[a, b] must parse"));
    assert_eq!(r, vec!["a".to_string(), "b".to_string()]);
}

#[test]
fn ident_set_trailing_comma() {
    let input = vec![grp(Delim::Bracket, vec![id("a"), pu(','), id("b"), pu(',')])];
    let r = idents(&input, 0).unwrap_or_else(|_| panic!("[a, b,] must parse"));
    assert_eq!(r, vec!["a".to_string(), "b".to_string()]);
}

#[test]
fn ident_set_empty() {
    let input = vec![grp(Delim::Bracket, vec![])];
    let r = idents(&input, 0).unwrap_or_else(|_| panic!("[] must parse"));
    assert!(r.is_empty());
}

#[test]
fn ident_set_missing_separator() {
    let input = vec![grp(Delim::Bracket, vec![id("a"), id("b")])];
    let e = match idents(&input, 0) {
        Err(e) => e,
        Ok(_) => panic!("[a b] must fail"),
    };
    assert!(matches!(e.kind, ErrorKind::ExpectedComma));
}

#[test]
fn static_declaration_simple() {
    // x: u8 = 0;
    let input = vec![grp(
        Delim::Brace,
        vec![id("x"), pu(':'), id("u8"), pu('='), lit_int(0), pu(';')],
    )];
    let r = statics(&input, 0).unwrap_or_else(|_| panic!("x: u8 = 0; must parse"));
    assert_eq!(r.len(), 1);
    assert_eq!(r[0].0, "x");
    assert_eq!(show_all(&r[0].1.ty.0), "i(u8)");
    assert_eq!(show_all(&r[0].1.expr.0), "li(0,false)");
}

#[test]
fn static_declaration_groups_are_opaque() {
    // x: Foo < Bar > = Foo : : new ( = ; ) ;
    // the parenthesis group holds separators, which must not split the scan
    let input = vec![grp(
        Delim::Brace,
        vec![
            id("x"),
            pu(':'),
            id("Foo"),
            pu('<'),
            id("Bar"),
            pu('>'),
            pu('='),
            id("Foo"),
            pu(':'),
            pu(':'),
            id("new"),
            grp(Delim::Paren, vec![pu('='), pu(';')]),
            pu(';'),
        ],
    )];
    let r = statics(&input, 0).unwrap_or_else(|_| panic!("generic static must parse"));
    assert_eq!(r.len(), 1);
    assert_eq!(show_all(&r[0].1.ty.0), "i(Foo) p(<) i(Bar) p(>)");
    assert_eq!(
        show_all(&r[0].1.expr.0),
        "i(Foo) p(:) p(:) i(new) g(Paren,[p(=) p(;)])"
    );
}

#[test]
fn duplicate_resource_fails() {
    let input = vec![grp(
        Delim::Brace,
        vec![
            id("x"),
            pu(':'),
            id("u8"),
            pu('='),
            lit_int(0),
            pu(';'),
            id("x"),
            pu(':'),
            id("u8"),
            pu('='),
            lit_int(1),
            pu(';'),
        ],
    )];
    let e = match statics(&input, 0) {
        Err(e) => e,
        Ok(_) => panic!("duplicated resource must fail"),
    };
    assert!(matches!(e.kind, ErrorKind::DuplicateResource(ref s) if s == "x"));
}

#[test]
fn static_missing_equals() {
    let input = vec![grp(Delim::Brace, vec![id("x"), pu(':'), id("u8"), lit_int(0), pu(';')])];
    let e = match statics(&input, 0) {
        Err(e) => e,
        Ok(_) => panic!("missing = must fail"),
    };
    assert!(matches!(e.kind, ErrorKind::ExpectedEq));
    assert!(matches!(e.context[..], [Context::Static(ref s)] if s == "x"));
}

#[test]
fn static_missing_semicolon() {
    let input = vec![grp(Delim::Brace, vec![id("x"), pu(':'), id("u8"), pu('='), lit_int(0)])];
    let e = match statics(&input, 0) {
        Err(e) => e,
        Ok(_) => panic!("missing ; must fail"),
    };
    assert!(matches!(e.kind, ErrorKind::ExpectedSemi));
}

#[test]
fn static_empty_type() {
    let input = vec![grp(Delim::Brace, vec![id("x"), pu(':'), pu('='), lit_int(0), pu(';')])];
    let e = match statics(&input, 0) {
        Err(e) => e,
        Ok(_) => panic!("empty type must fail"),
    };
    assert!(matches!(e.kind, ErrorKind::MissingType));
}

#[test]
fn static_empty_initializer() {
    let input = vec![grp(Delim::Brace, vec![id("x"), pu(':'), id("u8"), pu('='), pu(';')])];
    let e = match statics(&input, 0) {
        Err(e) => e,
        Ok(_) => panic!("empty initializer must fail"),
    };
    assert!(matches!(e.kind, ErrorKind::MissingExpr));
}

#[test]
fn priority_256_is_out_of_range() {
    let input = vec![grp(Delim::Brace, vec![id("priority"), pu(':'), lit_int(256)])];
    let e = match task(&input, 0) {
        Err(e) => e,
        Ok(_) => panic!("priority 256 must fail"),
    };
    assert!(matches!(e.kind, ErrorKind::OutOfRange(256)));
    assert!(matches!(e.context[..], [Context::Priority]));
}

#[test]
fn priority_255_is_accepted() {
    let input = vec![grp(Delim::Brace, vec![id("priority"), pu(':'), lit_int(255)])];
    let t = task(&input, 0).unwrap_or_else(|_| panic!("priority 255 must parse"));
    assert_eq!(t.priority, Some(255));
}

#[test]
fn priority_signed_fails_the_kind_check() {
    // a leading minus is a punctuation token, not part of the literal
    let input = vec![grp(Delim::Brace, vec![id("priority"), pu(':'), pu('-'), lit_int(1)])];
    let e = match task(&input, 0) {
        Err(e) => e,
        Ok(_) => panic!("priority -1 must fail"),
    };
    assert!(matches!(e.kind, ErrorKind::ExpectedInt(Some(_))));
}

#[test]
fn priority_suffixed_literal_fails() {
    let input = vec![grp(Delim::Brace, vec![id("priority"), pu(':'), lit_int_suffixed(1)])];
    let e = match task(&input, 0) {
        Err(e) => e,
        Ok(_) => panic!("suffixed priority must fail"),
    };
    assert!(matches!(e.kind, ErrorKind::ExpectedInt(Some(_))));
}

#[test]
fn enabled_boolean_accepted() {
    let input = vec![grp(Delim::Brace, vec![id("enabled"), pu(':'), boolean(true)])];
    let t = task(&input, 0).unwrap_or_else(|_| panic!("enabled: true must parse"));
    assert_eq!(t.enabled, Some(true));
    assert_eq!(t.priority, None);
    assert!(t.resources.is_empty());
}

#[test]
fn enabled_non_boolean_fails() {
    let input = vec![grp(Delim::Brace, vec![id("enabled"), pu(':'), lit_int(1)])];
    let e = match task(&input, 0) {
        Err(e) => e,
        Ok(_) => panic!("enabled: 1 must fail"),
    };
    assert!(matches!(e.kind, ErrorKind::ExpectedBool(Some(_))));
    assert!(matches!(e.context[..], [Context::Enabled]));
}

#[test]
fn empty_task_has_defaults() {
    let input = vec![grp(Delim::Brace, vec![])];
    let t = task(&input, 0).unwrap_or_else(|_| panic!("empty task must parse"));
    assert_eq!(t.enabled, None);
    assert_eq!(t.priority, None);
    assert!(t.resources.is_empty());
}

#[test]
fn duplicate_task_fails() {
    let input = vec![grp(
        Delim::Brace,
        vec![
            id("t"),
            pu(':'),
            grp(Delim::Brace, vec![]),
            pu(','),
            id("t"),
            pu(':'),
            grp(Delim::Brace, vec![]),
        ],
    )];
    let e = match tasks(&input, 0) {
        Err(e) => e,
        Ok(_) => panic!("duplicated task must fail"),
    };
    assert!(matches!(e.kind, ErrorKind::DuplicateTask(ref s) if s == "t"));
}

#[test]
fn unknown_field_fails() {
    let input = vec![grp(Delim::Brace, vec![id("frequency"), pu(':'), lit_int(8)])];
    let e = match app(&input) {
        Err(e) => e,
        Ok(_) => panic!("unknown field must fail"),
    };
    assert!(matches!(e.kind, ErrorKind::UnknownField(ref s) if s == "frequency"));
}

#[test]
fn missing_device_fails() {
    let input = vec![grp(
        Delim::Brace,
        vec![
            id("idle"),
            pu(':'),
            grp(Delim::Brace, vec![id("path"), pu(':'), id("f"), pu(',')]),
            pu(','),
            id("init"),
            pu(':'),
            grp(Delim::Brace, vec![id("path"), pu(':'), id("g"), pu(',')]),
        ],
    )];
    let e = match app(&input) {
        Err(e) => e,
        Ok(_) => panic!("missing device must fail"),
    };
    assert!(matches!(e.kind, ErrorKind::MissingField(ref s) if s == "device"));
}

#[test]
fn missing_idle_path_fails_under_idle_context() {
    let input = vec![grp(
        Delim::Brace,
        vec![
            id("device"),
            pu(':'),
            id("d"),
            pu(','),
            id("idle"),
            pu(':'),
            grp(Delim::Brace, vec![]),
        ],
    )];
    let e = match app(&input) {
        Err(e) => e,
        Ok(_) => panic!("idle without path must fail"),
    };
    assert!(matches!(e.kind, ErrorKind::MissingField(ref s) if s == "path"));
    assert!(matches!(e.context[..], [Context::Idle]));
}

#[test]
fn wrong_delimiter_at_top_level() {
    let input = vec![grp(Delim::Bracket, vec![])];
    let e = match app(&input) {
        Err(e) => e,
        Ok(_) => panic!("bracket at top level must fail"),
    };
    assert!(matches!(e.kind, ErrorKind::WrongDelim(Delim::Brace, Delim::Bracket)));
}

#[test]
fn leaf_where_group_expected() {
    let input = vec![id("x")];
    let e = match app(&input) {
        Err(e) => e,
        Ok(_) => panic!("leaf at top level must fail"),
    };
    assert!(matches!(e.kind, ErrorKind::ExpectedGroup(Delim::Brace)));
}

#[test]
fn empty_input_fails() {
    let input: Vec<Token> = vec![];
    let e = match app(&input) {
        Err(e) => e,
        Ok(_) => panic!("empty input must fail"),
    };
    assert!(matches!(e.kind, ErrorKind::ExpectedGroup(Delim::Brace)));
}

#[test]
fn non_ident_field_key_fails() {
    let input = vec![grp(Delim::Brace, vec![lit_int(1), pu(':'), lit_int(2)])];
    let e = match app(&input) {
        Err(e) => e,
        Ok(_) => panic!("literal field key must fail"),
    };
    assert!(matches!(e.kind, ErrorKind::ExpectedIdent));
}

#[test]
fn missing_colon_fails() {
    let input = vec![grp(Delim::Brace, vec![id("device"), id("stm32")])];
    let e = match app(&input) {
        Err(e) => e,
        Ok(_) => panic!("missing colon must fail"),
    };
    assert!(matches!(e.kind, ErrorKind::ExpectedColon));
}

#[test]
fn device_without_trailing_comma_fails() {
    // the dotted-path capture requires the field to end with a comma
    let input = vec![grp(Delim::Brace, vec![id("device"), pu(':'), id("stm32")])];
    let e = match app(&input) {
        Err(e) => e,
        Ok(_) => panic!("device without comma must fail"),
    };
    assert!(matches!(e.kind, ErrorKind::ExpectedComma));
    assert!(matches!(e.context[..], [Context::Device]));
}

#[test]
fn context_chain_is_outermost_first() {
    // tasks -> task t1 -> enabled -> expected boolean
    let input = vec![grp(
        Delim::Brace,
        vec![
            id("tasks"),
            pu(':'),
            grp(
                Delim::Brace,
                vec![
                    id("t1"),
                    pu(':'),
                    grp(Delim::Brace, vec![id("enabled"), pu(':'), lit_int(5)]),
                ],
            ),
        ],
    )];
    let e = match app(&input) {
        Err(e) => e,
        Ok(_) => panic!("bad enabled value must fail"),
    };
    assert!(matches!(e.kind, ErrorKind::ExpectedBool(Some(_))));
    assert!(matches!(
        e.context[..],
        [Context::Tasks, Context::Task(ref s), Context::Enabled] if s == "t1"
    ));
}

fn sample_path_tokens() -> Vec<Token> {
    vec![id("stm32f103"), pu(':'), pu(':'), id("Peripherals")]
}

#[test]
fn path_round_trip_is_verbatim() {
    // capture a dotted path, feed the captured run back, capture again
    let expected = show_all(&sample_path_tokens());
    let mut input = sample_path_tokens();
    input.push(pu(','));
    let (captured, at) = path(&input, 0).unwrap_or_else(|_| panic!("path must parse"));
    assert_eq!(at, 4);
    assert_eq!(show_all(&captured.0), expected);
    let mut again = captured.0;
    again.push(pu(','));
    let (captured2, _) = path(&again, 0).unwrap_or_else(|_| panic!("recapture must parse"));
    assert_eq!(show_all(&captured2.0), expected);
}

#[test]
fn static_round_trip_is_verbatim() {
    // parse `ty = expr ;`, reassemble the two fragments, parse again
    let input = vec![
        id("Foo"),
        pu('<'),
        id("Bar"),
        pu('>'),
        pu('='),
        id("Foo"),
        grp(Delim::Paren, vec![pu(';')]),
        pu(';'),
    ];
    let (st, end) = static_(&input, 0).unwrap_or_else(|_| panic!("static must parse"));
    assert_eq!(end, 8);
    let ty_shown = show_all(&st.ty.0);
    let expr_shown = show_all(&st.expr.0);
    let mut reassembled = st.ty.0;
    reassembled.push(pu('='));
    reassembled.extend(st.expr.0);
    reassembled.push(pu(';'));
    let (st2, _) = static_(&reassembled, 0).unwrap_or_else(|_| panic!("reparse must work"));
    assert_eq!(show_all(&st2.ty.0), ty_shown);
    assert_eq!(show_all(&st2.expr.0), expr_shown);
}

#[test]
fn bool_and_u8_coercers() {
    assert_eq!(bool_lit(Some(&boolean(false))).ok(), Some(false));
    assert!(matches!(
        bool_lit(Some(&lit_int(0))),
        Err(e) if matches!(e.kind, ErrorKind::ExpectedBool(Some(Token::Literal(Lit::Int(0, false)))))
    ));
    assert!(matches!(
        bool_lit(None),
        Err(e) if matches!(e.kind, ErrorKind::ExpectedBool(None))
    ));
    assert_eq!(u8_lit(Some(&lit_int(255))).ok(), Some(255));
    assert!(u8_lit(Some(&lit_int(256))).is_err());
    assert!(u8_lit(Some(&boolean(true))).is_err());
    assert!(u8_lit(None).is_err());
}

#[test]
fn idle_with_locals_and_resources() {
    let input = vec![grp(
        Delim::Brace,
        vec![
            id("device"),
            pu(':'),
            id("d"),
            pu(','),
            id("idle"),
            pu(':'),
            grp(
                Delim::Brace,
                vec![
                    id("path"),
                    pu(':'),
                    id("f"),
                    pu(','),
                    id("locals"),
                    pu(':'),
                    grp(Delim::Brace, vec![id("C"), pu(':'), id("u8"), pu('='), lit_int(7), pu(';')]),
                    pu(','),
                    id("resources"),
                    pu(':'),
                    grp(Delim::Bracket, vec![id("R")]),
                ],
            ),
            pu(','),
            id("init"),
            pu(':'),
            grp(Delim::Brace, vec![id("path"), pu(':'), id("g"), pu(',')]),
        ],
    )];
    let a = app(&input).unwrap_or_else(|_| panic!("idle with locals must parse"));
    assert_eq!(a.idle.locals.len(), 1);
    assert_eq!(a.idle.locals[0].0, "C");
    assert_eq!(show_all(&a.idle.locals[0].1.expr.0), "li(7,false)");
    assert_eq!(a.idle.resources, vec!["R".to_string()]);
}
