use dtlc::ast::{Abs, App, Binder, Exp, Prd, Sum, Sym, Var};
use dtlc::enc::lex::{Lexer, Tok};
use dtlc::enc::par::Core;
use dtlc::enc::Codec;
use dtlc::err::{DecodeErr, SystemErr};

fn sym(s: &str) -> Exp {
    Exp::Var(Var::Sym(Sym::new(s)))
}

#[test]
fn system_err_text() {
    assert_eq!(
        SystemErr::MaxLimitIdx(7).to_string(),
        "max limit 7 for indices has been reached"
    );
    assert_eq!(
        SystemErr::MaxLimitUnv(12).to_string(),
        "max limit 12 for universe levels has been reached"
    );
}

#[test]
fn decode_err_text() {
    assert_eq!(
        DecodeErr::InvalidToken(3).to_string(),
        "invalid token, at location 3"
    );
    assert_eq!(
        DecodeErr::EndOfStream(5, vec![":".to_string(), ".".to_string()]).to_string(),
        "unexpected end of stream, at location: 5, expected: : | ."
    );
    assert_eq!(
        DecodeErr::UnexpectedToken(Tok::Ident("foo".to_string()), 1, 4, vec![]).to_string(),
        "unexpected token: foo, at location: 1..4, expected: none"
    );
    assert_eq!(
        DecodeErr::UnexpectedToken(Tok::Lambda, 0, 2, vec!["identifier".to_string()])
            .to_string(),
        "unexpected token: λ, at location: 0..2, expected: identifier"
    );
    assert_eq!(
        DecodeErr::SystemErr(SystemErr::MaxLimitIdx(1)).to_string(),
        "max limit 1 for indices has been reached"
    );
}

#[test]
fn token_text() {
    assert_eq!(Tok::Sigma.to_string(), "Σ");
    assert_eq!(Tok::Box.to_string(), "□");
    assert_eq!(Tok::Ident("x_1".to_string()).to_string(), "x_1");
}

#[test]
fn lexer_hands_out_tokens_in_order() {
    let mut lex = Lexer::new("f (x)");
    assert_eq!(lex.next(), Some(Ok((0, Tok::Ident("f".to_string()), 1))));
    assert_eq!(lex.next(), Some(Ok((2, Tok::LParen, 3))));
    assert_eq!(lex.next(), Some(Ok((3, Tok::Ident("x".to_string()), 4))));
    assert_eq!(lex.next(), Some(Ok((4, Tok::RParen, 5))));
    assert_eq!(lex.next(), None);
    assert_eq!(lex.next(), None);
}

#[test]
fn lexer_stops_at_invalid_token() {
    let mut lex = Lexer::new("Πa : X");
    assert_eq!(lex.next(), Some(Ok((0, Tok::Pi, 2))));
    assert_eq!(lex.next(), Some(Ok((2, Tok::Ident("a".to_string()), 3))));
    assert_eq!(lex.next(), Some(Ok((4, Tok::Colon, 5))));
    assert_eq!(lex.next(), Some(Err(DecodeErr::InvalidToken(6))));
    assert_eq!(lex.next(), None);
    assert_eq!(lex.next(), None);

    let mut lex = Lexer::new("a B");
    assert_eq!(lex.next(), Some(Ok((0, Tok::Ident("a".to_string()), 1))));
    assert_eq!(lex.next(), Some(Err(DecodeErr::InvalidToken(2))));
    assert_eq!(lex.next(), None);
}

#[test]
fn binder_parts() {
    let abs = Abs::new(Sym::new("a"), sym("t"), sym("a")).unwrap();
    let prd = Prd::new(Sym::new("b"), sym("t"), sym("c")).unwrap();
    let sum = Sum::new(Sym::new("c"), sym("t"), sym("c")).unwrap();
    assert_eq!(abs.prefix(), "λ");
    assert_eq!(prd.prefix(), "Π");
    assert_eq!(sum.prefix(), "Σ");
    assert_eq!(prd.sym(), &Sym::new("b"));
    assert_eq!(prd.typ(), &sym("t"));
    assert_eq!(prd.exp(), &sym("c"));
}

#[test]
fn codec_trait_matches_methods() {
    let text = "Σa : □ . a b".to_string();
    let core = Core::default();
    let exp = Codec::decode(&core, &text).unwrap();
    assert_eq!(Codec::encode(&core, &exp), text);
}

#[test]
fn binder_first_in_parenthesized_application() {
    let e = Exp::App(App::new(
        sym("x"),
        Exp::App(App::new(
            Exp::Abs(Abs::new(Sym::new("y"), sym("t"), sym("b")).unwrap()),
            sym("a"),
        )),
    ));
    let text = Core::new().encode(&e);
    assert_eq!(text, "x ((λy : t . b) a)");
    assert_eq!(Core::new().decode(&text).unwrap(), e);
}

#[test]
fn right_nested_application_inside_parentheses() {
    let e = Exp::App(App::new(
        sym("a"),
        Exp::App(App::new(
            sym("b"),
            Exp::App(App::new(sym("c"), sym("d"))),
        )),
    ));
    let text = Core::new().encode(&e);
    assert_eq!(text, "a (b (c d))");
    assert_eq!(Core::new().decode(&text).unwrap(), e);
}

#[test]
fn left_spine_inside_parentheses_is_bare() {
    let text = "x (a b c)".to_string();
    let e = Core::new().decode(&text).unwrap();
    let want = Exp::App(App::new(
        sym("x"),
        Exp::App(App::new(Exp::App(App::new(sym("a"), sym("b"))), sym("c"))),
    ));
    assert_eq!(e, want);
    assert_eq!(Core::new().encode(&e), text);
}

#[test]
fn binder_on_the_right_inside_parentheses() {
    let e = Exp::App(App::new(
        Exp::App(App::new(
            sym("f"),
            Exp::App(App::new(
                sym("g"),
                Exp::Abs(Abs::new(Sym::new("z"), sym("t"), sym("z")).unwrap()),
            )),
        )),
        sym("w"),
    ));
    let text = Core::new().encode(&e);
    assert_eq!(text, "f (g λz : t . z) w");
    assert_eq!(Core::new().decode(&text).unwrap(), e);
}
