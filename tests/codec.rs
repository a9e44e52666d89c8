use dtlc::ast::{Abs, App, Exp, Idx, Prd, Sum, Sym, Unv, Var};
use dtlc::enc::lex::{tokenize, Tok};
use dtlc::enc::par::Core;
use dtlc::err::{DecodeErr, SystemErr};

fn sym(s: &str) -> Exp {
    Exp::Var(Var::Sym(Sym::new(s)))
}

fn idx(v: u64, s: &str) -> Exp {
    Exp::Var(Var::Idx(Idx {
        val: v,
        sym: Sym::new(s),
    }))
}

fn app(a: Exp, b: Exp) -> Exp {
    Exp::App(App::new(a, b))
}

fn check(err: &mut Vec<String>, items: &Vec<&str>) {
    for val in items {
        match Core::new().decode(&val.to_string()) {
            Ok(exp) => {
                let can = Core::new().encode(&exp);
                if val != &can.as_str() {
                    err.push(format!("assertion failed: {} != {}", val, can))
                }
            }
            Err(e) => err.push(format!(
                "decoding failed for expression: {}, error: {:?}",
                val, e
            )),
        }
    }
}

#[test]
fn test_decode_encode() {
    let mut err = vec![];
    let items = vec![
        "foo",
        "foo bar",
        "foo (bar moo)",
        "λbar : float . λmoo : char . λfoo : int . foo (bar moo)",
        "λfoo : int . foo (bar moo)",
        "λbar : char . λfoo : int . foo (bar moo)",
        "λbar : Πf : int . f . λmoo : char . λfoo : int . foo (bar moo)",
        "λfoo : Πf : int . f . foo (bar moo)",
        "λbar : Πf : char . f . λfoo : int . foo (bar moo)",
        "λbar : Σf : int . f . λmoo : char . λfoo : int . foo (bar moo)",
        "λfoo : Σf : int . f . foo (bar moo)",
        "λbar : Σf : char . f . λfoo : int . foo (bar moo)",
        "foo λbar : int . bar moo",
        "(λfoo : □ . bar) λmoo : □ . moo",
    ];
    check(&mut err, &items);
    assert!(err.is_empty(), "checks failed:\n{}", err.join("\n"));
}

#[test]
fn literal_scenario() {
    let text = "λfoo : int . foo (bar moo)".to_string();
    let exp = Core::new().decode(&text).unwrap();
    let want = Exp::Abs(Abs {
        sym: Sym::new("foo"),
        typ: Box::new(sym("int")),
        exp: Box::new(app(idx(0, "foo"), app(sym("bar"), sym("moo")))),
    });
    assert_eq!(exp, want);
    assert_eq!(Core::new().encode(&exp), text);
}

#[test]
fn application_associates_left() {
    let exp = Core::new().decode(&"foo bar moo".to_string()).unwrap();
    assert_eq!(exp, app(app(sym("foo"), sym("bar")), sym("moo")));
    assert_ne!(exp, app(sym("foo"), app(sym("bar"), sym("moo"))));
}

#[test]
fn binder_body_is_greedy() {
    let exp = Core::new()
        .decode(&"foo λbar:int.bar moo".to_string())
        .unwrap();
    let want = app(
        sym("foo"),
        Exp::Abs(Abs {
            sym: Sym::new("bar"),
            typ: Box::new(sym("int")),
            exp: Box::new(app(idx(0, "bar"), sym("moo"))),
        }),
    );
    assert_eq!(exp, want);
}

#[test]
fn shadowing_keeps_inner_binding() {
    let inner = Abs::new(Sym::new("x"), sym("u"), sym("x")).unwrap();
    assert_eq!(*inner.exp, idx(0, "x"));
    let outer = Abs::new(Sym::new("x"), sym("t"), app(Exp::Abs(inner), sym("x"))).unwrap();
    let want_inner = Exp::Abs(Abs {
        sym: Sym::new("x"),
        typ: Box::new(sym("u")),
        exp: Box::new(idx(0, "x")),
    });
    assert_eq!(*outer.exp, app(want_inner, idx(0, "x")));

    let decoded = Core::new()
        .decode(&"λx : t . (λx : u . x) x".to_string())
        .unwrap();
    assert_eq!(decoded, Exp::Abs(outer));
}

#[test]
fn index_counts_binders_crossed() {
    let body = Exp::Prd(Prd::new(Sym::new("y"), sym("x"), app(sym("x"), sym("y"))).unwrap());
    let abs = Sum::new(Sym::new("x"), Exp::Unv(Unv::new()), body).unwrap();
    let want = Exp::Prd(Prd {
        sym: Sym::new("y"),
        typ: Box::new(sym("x")),
        exp: Box::new(app(idx(1, "x"), idx(0, "y"))),
    });
    assert_eq!(*abs.exp, want);
}

#[test]
fn index_overflow_leaves_expression() {
    let mut e = Exp::Abs(Abs {
        sym: Sym::new("y"),
        typ: Box::new(sym("t")),
        exp: Box::new(sym("x")),
    });
    let top = Idx {
        val: u64::MAX,
        sym: Sym::new("x"),
    };
    assert_eq!(e.index(&Sym::new("x"), &top), Err(SystemErr::MaxLimitIdx(u64::MAX)));
    assert_eq!(
        e,
        Exp::Abs(Abs {
            sym: Sym::new("y"),
            typ: Box::new(sym("t")),
            exp: Box::new(sym("x")),
        })
    );
    let below = Idx {
        val: u64::MAX - 1,
        sym: Sym::new("x"),
    };
    assert_eq!(e.index(&Sym::new("x"), &below), Ok(()));
    assert_eq!(
        e,
        Exp::Abs(Abs {
            sym: Sym::new("y"),
            typ: Box::new(sym("t")),
            exp: Box::new(idx(u64::MAX, "x")),
        })
    );
}

#[test]
fn structural_round_trip() {
    let exps = vec![
        app(sym("a"), app(sym("b"), sym("c"))),
        app(
            Exp::Abs(Abs::new(Sym::new("x"), Exp::Unv(Unv::new()), sym("x")).unwrap()),
            sym("y"),
        ),
        Exp::Prd(Prd::new(Sym::new("x"), sym("t"), app(sym("f"), sym("x"))).unwrap()),
        app(sym("f"), Exp::Sum(Sum::new(Sym::new("z"), sym("t"), sym("z")).unwrap())),
    ];
    for e in exps {
        let text = Core::new().encode(&e);
        assert_eq!(Core::new().decode(&text).unwrap(), e, "{}", text);
    }
}

#[test]
fn show_indices_prints_values() {
    let e = Exp::Abs(Abs::new(Sym::new("foo"), sym("int"), app(sym("foo"), sym("bar"))).unwrap());
    assert_eq!(Core::with_show_indices(true).encode(&e), "λfoo : int . 0 bar");
    assert_eq!(Core::with_show_indices(false).encode(&e), "λfoo : int . foo bar");
    assert_eq!(Core::new().reset(), Core::new());
}

#[test]
fn binder_on_the_left_is_parenthesized() {
    let e = app(
        app(
            Exp::Abs(Abs::new(Sym::new("x"), sym("t"), sym("x")).unwrap()),
            sym("y"),
        ),
        sym("z"),
    );
    assert_eq!(Core::new().encode(&e), "(λx : t . x) y z");
}

#[test]
fn lexer_rejects_uppercase() {
    assert_eq!(
        Core::new().decode(&"foo Bar".to_string()),
        Err(DecodeErr::InvalidToken(4))
    );
}

#[test]
fn lexer_rejects_leading_digit() {
    assert_eq!(
        Core::new().decode(&"λx : t . 9x".to_string()),
        Err(DecodeErr::InvalidToken(10))
    );
}

#[test]
fn lexer_offsets_are_bytes() {
    let toks = tokenize("λx:□").unwrap();
    assert_eq!(
        toks,
        vec![
            (0, Tok::Lambda, 2),
            (2, Tok::Ident("x".to_string()), 3),
            (3, Tok::Colon, 4),
            (4, Tok::Box, 7),
        ]
    );
    assert_eq!(tokenize(" \t\n\x0c"), Ok(vec![]));
}

#[test]
fn decode_reports_end_of_stream() {
    assert_eq!(
        Core::new().decode(&"λx :".to_string()),
        Err(DecodeErr::EndOfStream(
            5,
            vec![
                "identifier".to_string(),
                "(".to_string(),
                "□".to_string(),
                "λ".to_string(),
                "Π".to_string(),
                "Σ".to_string()
            ]
        ))
    );
    assert_eq!(
        Core::new().decode(&"".to_string()),
        Err(DecodeErr::EndOfStream(
            0,
            vec![
                "identifier".to_string(),
                "(".to_string(),
                "□".to_string(),
                "λ".to_string(),
                "Π".to_string(),
                "Σ".to_string()
            ]
        ))
    );
}

#[test]
fn decode_reports_unexpected_token() {
    assert_eq!(
        Core::new().decode(&"foo )".to_string()),
        Err(DecodeErr::UnexpectedToken(
            Tok::RParen,
            4,
            5,
            vec![
                "identifier".to_string(),
                "(".to_string(),
                "□".to_string(),
                "λ".to_string(),
                "Π".to_string(),
                "Σ".to_string()
            ]
        ))
    );
    assert_eq!(
        Core::new().decode(&"λ : t . x".to_string()),
        Err(DecodeErr::UnexpectedToken(
            Tok::Colon,
            3,
            4,
            vec!["identifier".to_string()]
        ))
    );
}

#[test]
fn decode_of_universe_is_level_zero() {
    assert_eq!(
        Core::new().decode(&"□".to_string()),
        Ok(Exp::Unv(Unv::new()))
    );
    assert_eq!(Core::new().encode(&Exp::Unv(Unv { level: 5 })), "□");
}
