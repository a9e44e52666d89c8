//! The grammar of the core language, over tokens.
//!
//! ```text
//! Exp    := Binder | Atom+ Binder?
//! Binder := ('λ' | 'Π' | 'Σ') Ident ':' Exp '.' Exp
//! Atom   := Ident | '□' | '(' Exp ')'
//! ```
//!
//! A run of atoms is an application, associating to the left; a trailing binder is its last
//! argument. A binder body extends as far to the right as it can. Each binder is built by its
//! constructor, which indexes its body against its symbol.

use super::lex::{Spanned, Tok};
use crate::ast::{indexed, Abs, App, Exp, Idx, Prd, Sum, Sym, Unv, Var};
use crate::err::{DecodeErr, SystemErr};
use vstd::prelude::*;

verus! {

/// What ends the expression being parsed.
#[derive(Clone, Copy, Debug, Eq, Hash, PartialEq)]
pub enum Until {
    /// The end of the input.
    End,
    /// A right parenthesis.
    RParen,
    /// A dot, which ends the type of a binder.
    Dot,
}

/// The tokens that the grammar accepts at the place of an error.
#[derive(Clone, Copy, Debug, Eq, Hash, PartialEq)]
pub enum Expect {
    /// The start of an expression.
    Exp,
    /// Another argument of an application, or what ends the expression.
    More(Until),
    /// The symbol of a binder.
    Ident,
    /// The colon after the symbol of a binder.
    Colon,
    /// The token that closes the expression.
    Close(Until),
}

/// A syntax error, or an error of the system met while building a binder.
#[derive(Clone, Copy, Debug, Eq, Hash, PartialEq)]
pub enum SyntaxErr {
    /// The tokens ended where the grammar expected more.
    EndOfStream(Expect),
    /// The token at this position is not one that the grammar accepts there.
    Unexpected(usize, Expect),
    /// Building a binder failed.
    System(SystemErr),
}

/// An expression with the position of the first token after it, or the error met.
///
/// The definitions below test, after each nested parse, that the position moved forward and
/// that the token which ended the nested expression is there. Both always hold (see the
/// progress lemmas); the tests make each recursive call plainly smaller.
pub type Parsed = Result<(Exp, int), SyntaxErr>;

/// Tokens that start a binder.
pub open spec fn is_binder_tok(t: Tok) -> bool {
    t is Lambda || t is Pi || t is Sigma
}

/// Tokens that start an atom.
pub open spec fn is_atom_tok(t: Tok) -> bool {
    t is Ident || t is LParen || t is Box
}

/// Whether `t` is the token that `u` waits for.
pub open spec fn closes(t: Tok, u: Until) -> bool {
    (u is RParen && t is RParen) || (u is Dot && t is Dot)
}

/// The binder of the kind that `k` starts, over symbol `x`, type `typ` and body `body`, with the
/// body indexed against `x`.
pub open spec fn binder_of(k: Tok, x: String, typ: Exp, body: Exp) -> Result<Exp, SyntaxErr> {
    let sym = Sym { val: x };
    match indexed(body, x@, Idx { val: 0, sym: sym }) {
        Some(b) => if k is Lambda {
            Ok(Exp::Abs(Abs { sym, typ: Box::new(typ), exp: Box::new(b) }))
        } else if k is Pi {
            Ok(Exp::Prd(Prd { sym, typ: Box::new(typ), exp: Box::new(b) }))
        } else {
            Ok(Exp::Sum(Sum { sym, typ: Box::new(typ), exp: Box::new(b) }))
        },
        None => Err(SyntaxErr::System(SystemErr::MaxLimitIdx(u64::MAX))),
    }
}

/// Parses an expression from position `i`, up to what `u` waits for.
pub open spec fn parse_exp(t: Seq<Spanned>, i: int, u: Until) -> Parsed
    decreases t.len() - i, 3nat,
{
    if !(0 <= i < t.len()) {
        Err(SyntaxErr::EndOfStream(Expect::Exp))
    } else if is_binder_tok(t[i].1) {
        parse_binder(t, i, u)
    } else if is_atom_tok(t[i].1) {
        match parse_atom(t, i) {
            Ok((a, j)) => if i < j <= t.len() {
                parse_chain(t, j, a, u)
            } else {
                Err(SyntaxErr::EndOfStream(Expect::Exp))
            },
            Err(e) => Err(e),
        }
    } else {
        Err(SyntaxErr::Unexpected(i as usize, Expect::Exp))
    }
}

/// Parses the rest of an application whose arguments so far make `acc`, from position `i`.
pub open spec fn parse_chain(t: Seq<Spanned>, i: int, acc: Exp, u: Until) -> Parsed
    decreases t.len() - i, 2nat,
{
    if !(0 <= i < t.len()) {
        if u is End {
            Ok((acc, i))
        } else {
            Err(SyntaxErr::EndOfStream(Expect::More(u)))
        }
    } else if is_binder_tok(t[i].1) {
        match parse_binder(t, i, u) {
            Ok((b, j)) => Ok((Exp::App(App { fst: Box::new(acc), snd: Box::new(b) }), j)),
            Err(e) => Err(e),
        }
    } else if is_atom_tok(t[i].1) {
        match parse_atom(t, i) {
            Ok((a, j)) => if i < j <= t.len() {
                parse_chain(t, j, Exp::App(App { fst: Box::new(acc), snd: Box::new(a) }), u)
            } else {
                Err(SyntaxErr::EndOfStream(Expect::Exp))
            },
            Err(e) => Err(e),
        }
    } else if closes(t[i].1, u) {
        Ok((acc, i))
    } else {
        Err(SyntaxErr::Unexpected(i as usize, Expect::More(u)))
    }
}

/// Parses an atom at position `i`, which holds an identifier, a box or a left parenthesis.
pub open spec fn parse_atom(t: Seq<Spanned>, i: int) -> Parsed
    decreases t.len() - i, 1nat,
{
    if !(0 <= i < t.len()) {
        Err(SyntaxErr::EndOfStream(Expect::Exp))
    } else {
        match t[i].1 {
            Tok::Ident(x) => Ok((Exp::Var(Var::Sym(Sym { val: x })), i + 1)),
            Tok::Box => Ok((Exp::Unv(Unv { level: 0 }), i + 1)),
            _ => match parse_exp(t, i + 1, Until::RParen) {
                Ok((e, j)) => if 0 <= j < t.len() && t[j].1 is RParen {
                    Ok((e, j + 1))
                } else {
                    Err(SyntaxErr::EndOfStream(Expect::Close(Until::RParen)))
                },
                Err(e) => Err(e),
            },
        }
    }
}

/// Parses a binder at position `i`, whose body extends up to what `u` waits for.
pub open spec fn parse_binder(t: Seq<Spanned>, i: int, u: Until) -> Parsed
    decreases t.len() - i, 0nat,
{
    if !(0 <= i && i + 1 < t.len()) {
        Err(SyntaxErr::EndOfStream(Expect::Ident))
    } else if !(t[i + 1].1 is Ident) {
        Err(SyntaxErr::Unexpected((i + 1) as usize, Expect::Ident))
    } else if !(i + 2 < t.len()) {
        Err(SyntaxErr::EndOfStream(Expect::Colon))
    } else if !(t[i + 2].1 is Colon) {
        Err(SyntaxErr::Unexpected((i + 2) as usize, Expect::Colon))
    } else {
        match parse_exp(t, i + 3, Until::Dot) {
            Ok((typ, j)) => if i + 3 <= j < t.len() && t[j].1 is Dot {
                match parse_exp(t, j + 1, u) {
                    Ok((body, k)) => match binder_of(t[i].1, t[i + 1].1->Ident_0, typ, body) {
                        Ok(b) => Ok((b, k)),
                        Err(e) => Err(e),
                    },
                    Err(e) => Err(e),
                }
            } else {
                Err(SyntaxErr::EndOfStream(Expect::Close(Until::Dot)))
            },
            Err(e) => Err(e),
        }
    }
}

/// The expression that the tokens `t` make, or the first error met.
pub open spec fn parse(t: Seq<Spanned>) -> Result<Exp, SyntaxErr> {
    match parse_exp(t, 0, Until::End) {
        Ok((e, _)) => Ok(e),
        Err(e) => Err(e),
    }
}

/// What holds of a successful parse that ends where `u` says: at the end of the tokens, or at
/// the token that `u` waits for.
pub open spec fn ends_well(t: Seq<Spanned>, j: int, u: Until) -> bool {
    if u is End {
        j == t.len()
    } else {
        0 <= j < t.len() && closes(t[j].1, u)
    }
}

proof fn lemma_exp_progress(t: Seq<Spanned>, i: int, u: Until)
    ensures
        parse_exp(t, i, u) matches Ok((_, j)) ==> i < j && ends_well(t, j, u),
    decreases t.len() - i, 3nat,
{
    if 0 <= i < t.len() {
        if is_binder_tok(t[i].1) {
            lemma_binder_progress(t, i, u);
        } else if is_atom_tok(t[i].1) {
            lemma_atom_progress(t, i);
            if let Ok((a, j)) = parse_atom(t, i) {
                if i < j <= t.len() {
                    lemma_chain_progress(t, j, a, u);
                }
            }
        }
    }
}

proof fn lemma_chain_progress(t: Seq<Spanned>, i: int, acc: Exp, u: Until)
    requires
        0 <= i <= t.len(),
    ensures
        parse_chain(t, i, acc, u) matches Ok((_, j)) ==> i <= j && ends_well(t, j, u),
    decreases t.len() - i, 2nat,
{
    if 0 <= i < t.len() {
        if is_binder_tok(t[i].1) {
            lemma_binder_progress(t, i, u);
        } else if is_atom_tok(t[i].1) {
            lemma_atom_progress(t, i);
            if let Ok((a, j)) = parse_atom(t, i) {
                if i < j <= t.len() {
                    lemma_chain_progress(t, j, Exp::App(App { fst: Box::new(acc), snd: Box::new(a) }), u);
                }
            }
        }
    }
}

proof fn lemma_atom_progress(t: Seq<Spanned>, i: int)
    ensures
        parse_atom(t, i) matches Ok((_, j)) ==> i < j <= t.len(),
    decreases t.len() - i, 1nat,
{
    if 0 <= i < t.len() {
        lemma_exp_progress(t, i + 1, Until::RParen);
    }
}

proof fn lemma_binder_progress(t: Seq<Spanned>, i: int, u: Until)
    ensures
        parse_binder(t, i, u) matches Ok((_, j)) ==> i < j && ends_well(t, j, u),
    decreases t.len() - i, 0nat,
{
    if 0 <= i && i + 2 < t.len() {
        lemma_exp_progress(t, i + 3, Until::Dot);
        if let Ok((_, j)) = parse_exp(t, i + 3, Until::Dot) {
            if i + 3 <= j < t.len() {
                lemma_exp_progress(t, j + 1, u);
            }
        }
    }
}

/// The left-nested application of the identifiers `t[0]`, ..., `t[n - 1]`.
pub open spec fn spine(t: Seq<Spanned>, n: int) -> Exp
    decreases n,
{
    if n <= 1 {
        Exp::Var(Var::Sym(Sym { val: t[0].1->Ident_0 }))
    } else {
        Exp::App(App { fst: Box::new(spine(t, n - 1)), snd: Box::new(Exp::Var(Var::Sym(Sym { val: t[n - 1].1->Ident_0 }))) })
    }
}

proof fn lemma_spine_from(t: Seq<Spanned>, i: int)
    requires
        1 <= i <= t.len(),
        forall|k: int| 0 <= k < t.len() ==> (#[trigger] t[k].1) is Ident,
    ensures
        parse_chain(t, i, spine(t, i), Until::End) == Ok::<(Exp, int), SyntaxErr>((spine(t, t.len() as int), t.len() as int)),
    decreases t.len() - i,
{
    if i < t.len() {
        assert(t[i].1 is Ident);
        let v = Exp::Var(Var::Sym(Sym { val: t[i].1->Ident_0 }));
        assert(parse_atom(t, i) == Ok::<(Exp, int), SyntaxErr>((v, i + 1)));
        assert(spine(t, i + 1) == Exp::App(App { fst: Box::new(spine(t, i)), snd: Box::new(v) }));
        lemma_spine_from(t, i + 1);
    }
}

/// Application associates to the left: a run of identifiers parses as the first applied to
/// the second, that applied to the third, and so on.
pub proof fn lemma_left_associative(t: Seq<Spanned>)
    requires
        t.len() >= 1,
        forall|k: int| 0 <= k < t.len() ==> (#[trigger] t[k].1) is Ident,
    ensures
        parse(t) == Ok::<Exp, SyntaxErr>(spine(t, t.len() as int)),
{
    assert(t[0].1 is Ident);
    lemma_spine_from(t, 1);
}

/// A binder body extends as far right as it can: a binder that follows a run of atoms is the
/// last argument of the application, and its body takes every token up to the end.
pub proof fn lemma_greedy_binder(t: Seq<Spanned>, i: int, acc: Exp)
    requires
        0 <= i < t.len(),
        is_binder_tok(t[i].1),
    ensures
        parse_chain(t, i, acc, Until::End) == match parse_binder(t, i, Until::End) {
            Ok((b, j)) => Ok::<(Exp, int), SyntaxErr>((Exp::App(App { fst: Box::new(acc), snd: Box::new(b) }), j)),
            Err(e) => Err(e),
        },
        parse_binder(t, i, Until::End) matches Ok((_, j)) ==> j == t.len(),
{
    lemma_binder_progress(t, i, Until::End);
}

/// Whether an executable parse result `r` is the parse result `p`.
pub open spec fn agrees(r: Result<(Exp, usize), SyntaxErr>, p: Parsed) -> bool {
    match (r, p) {
        (Ok((e, j)), Ok((f, k))) => e == f && j as int == k,
        (Err(x), Err(y)) => x == y,
        _ => false,
    }
}

impl Tok {
    /// A copy of this token, equal to it.
    pub fn dup(&self) -> (r: Tok)
        ensures
            r == *self,
    {
        match self {
            Tok::Ident(x) => Tok::Ident(x.clone()),
            Tok::LParen => Tok::LParen,
            Tok::RParen => Tok::RParen,
            Tok::Dot => Tok::Dot,
            Tok::Colon => Tok::Colon,
            Tok::Lambda => Tok::Lambda,
            Tok::Pi => Tok::Pi,
            Tok::Sigma => Tok::Sigma,
            Tok::Box => Tok::Box,
        }
    }
}

fn is_binder_exec(t: &Tok) -> (r: bool)
    ensures
        r == is_binder_tok(*t),
{
    match t {
        Tok::Lambda | Tok::Pi | Tok::Sigma => true,
        _ => false,
    }
}

fn is_atom_exec(t: &Tok) -> (r: bool)
    ensures
        r == is_atom_tok(*t),
{
    match t {
        Tok::Ident(_) | Tok::LParen | Tok::Box => true,
        _ => false,
    }
}

fn closes_exec(t: &Tok, u: Until) -> (r: bool)
    ensures
        r == closes(*t, u),
{
    match (t, u) {
        (Tok::RParen, Until::RParen) => true,
        (Tok::Dot, Until::Dot) => true,
        _ => false,
    }
}

fn build_binder(k: &Tok, x: &String, typ: Exp, body: Exp) -> (r: Result<Exp, SyntaxErr>)
    ensures
        r == binder_of(*k, *x, typ, body),
{
    let sym = Sym { val: x.clone() };
    match k {
        Tok::Lambda => match Abs::new(sym, typ, body) {
            Ok(b) => Ok(Exp::Abs(b)),
            Err(e) => Err(SyntaxErr::System(e)),
        },
        Tok::Pi => match Prd::new(sym, typ, body) {
            Ok(b) => Ok(Exp::Prd(b)),
            Err(e) => Err(SyntaxErr::System(e)),
        },
        _ => match Sum::new(sym, typ, body) {
            Ok(b) => Ok(Exp::Sum(b)),
            Err(e) => Err(SyntaxErr::System(e)),
        },
    }
}

/// Parses an expression from position `i`, up to what `u` waits for.
pub fn exp_at(t: &Vec<Spanned>, i: usize, u: Until) -> (r: Result<(Exp, usize), SyntaxErr>)
    ensures
        agrees(r, parse_exp(t@, i as int, u)),
    decreases t@.len() - i, 3nat,
{
    if i >= t.len() {
        Err(SyntaxErr::EndOfStream(Expect::Exp))
    } else if is_binder_exec(&t[i].1) {
        binder_at(t, i, u)
    } else if is_atom_exec(&t[i].1) {
        proof {
            lemma_atom_progress(t@, i as int);
        }
        match atom_at(t, i) {
            Ok((a, j)) => chain_at(t, j, a, u),
            Err(e) => Err(e),
        }
    } else {
        Err(SyntaxErr::Unexpected(i, Expect::Exp))
    }
}

/// Parses the rest of an application whose arguments so far make `acc`, from position `i`.
fn chain_at(t: &Vec<Spanned>, i: usize, acc: Exp, u: Until) -> (r: Result<(Exp, usize), SyntaxErr>)
    ensures
        agrees(r, parse_chain(t@, i as int, acc, u)),
    decreases t@.len() - i, 2nat,
{
    if i >= t.len() {
        if matches!(u, Until::End) {
            Ok((acc, i))
        } else {
            Err(SyntaxErr::EndOfStream(Expect::More(u)))
        }
    } else if is_binder_exec(&t[i].1) {
        match binder_at(t, i, u) {
            Ok((b, j)) => Ok((Exp::App(App::new(acc, b)), j)),
            Err(e) => Err(e),
        }
    } else if is_atom_exec(&t[i].1) {
        proof {
            lemma_atom_progress(t@, i as int);
        }
        match atom_at(t, i) {
            Ok((a, j)) => chain_at(t, j, Exp::App(App::new(acc, a)), u),
            Err(e) => Err(e),
        }
    } else if closes_exec(&t[i].1, u) {
        Ok((acc, i))
    } else {
        Err(SyntaxErr::Unexpected(i, Expect::More(u)))
    }
}

/// Parses an atom at position `i`.
fn atom_at(t: &Vec<Spanned>, i: usize) -> (r: Result<(Exp, usize), SyntaxErr>)
    ensures
        agrees(r, parse_atom(t@, i as int)),
    decreases t@.len() - i, 1nat,
{
    if i >= t.len() {
        return Err(SyntaxErr::EndOfStream(Expect::Exp));
    }
    match &t[i].1 {
        Tok::Ident(x) => Ok((Exp::Var(Var::Sym(Sym { val: x.clone() })), i + 1)),
        Tok::Box => Ok((Exp::Unv(Unv::new()), i + 1)),
        _ => {
            proof {
                lemma_exp_progress(t@, i + 1, Until::RParen);
            }
            match exp_at(t, i + 1, Until::RParen) {
                Ok((e, j)) => Ok((e, j + 1)),  // j holds the closing parenthesis
                Err(e) => Err(e),
            }
        },
    }
}

/// Parses a binder at position `i`, whose body extends up to what `u` waits for.
fn binder_at(t: &Vec<Spanned>, i: usize, u: Until) -> (r: Result<(Exp, usize), SyntaxErr>)
    ensures
        agrees(r, parse_binder(t@, i as int, u)),
    decreases t@.len() - i, 0nat,
{
    if i >= t.len() || t.len() - i < 2 {
        return Err(SyntaxErr::EndOfStream(Expect::Ident));
    }
    let x = match &t[i + 1].1 {
        Tok::Ident(x) => x,
        _ => {
            return Err(SyntaxErr::Unexpected(i + 1, Expect::Ident));
        },
    };
    if t.len() - i < 3 {
        return Err(SyntaxErr::EndOfStream(Expect::Colon));
    }
    match &t[i + 2].1 {
        Tok::Colon => {},
        _ => {
            return Err(SyntaxErr::Unexpected(i + 2, Expect::Colon));
        },
    }
    proof {
        lemma_exp_progress(t@, i + 3, Until::Dot);
    }
    match exp_at(t, i + 3, Until::Dot) {
        Ok((typ, j)) => match exp_at(t, j + 1, u) {  // j holds the dot
            Ok((body, k)) => match build_binder(&t[i].1, x, typ, body) {
                Ok(b) => Ok((b, k)),
                Err(e) => Err(e),
            },
            Err(e) => Err(e),
        },
        Err(e) => Err(e),
    }
}

/// Name of the identifier token in lists of expected tokens.
pub open spec fn ident_name() -> Seq<char> {
    "identifier"@
}

/// Names of the tokens that start an expression.
pub open spec fn exp_names() -> Seq<Seq<char>> {
    seq![ident_name(), "("@, "□"@, "λ"@, "Π"@, "Σ"@]
}

/// Names of the tokens that the grammar accepts where `x` says.
pub open spec fn expect_names(x: Expect) -> Seq<Seq<char>> {
    match x {
        Expect::Exp => exp_names(),
        Expect::More(Until::End) => exp_names(),
        Expect::More(Until::RParen) => exp_names().push(")"@),
        Expect::More(Until::Dot) => exp_names().push("."@),
        Expect::Ident => seq![ident_name()],
        Expect::Colon => seq![":"@],
        Expect::Close(Until::RParen) => seq![")"@],
        Expect::Close(Until::Dot) => seq!["."@],
        Expect::Close(Until::End) => seq![],
    }
}

/// The texts of a list of strings.
pub open spec fn texts(v: Vec<String>) -> Seq<Seq<char>> {
    v@.map_values(|s: String| s@)
}

/// Where the tokens `t` end: the end of the last token, or 0 when there is none.
pub open spec fn end_of(t: Seq<Spanned>) -> usize {
    if t.len() == 0 {
        0
    } else {
        t.last().2
    }
}

/// Whether the decode error `d` reports the syntax error `e` met in the tokens `t`.
pub open spec fn reports(d: DecodeErr, e: SyntaxErr, t: Seq<Spanned>) -> bool {
    match e {
        SyntaxErr::Unexpected(n, x) => if n < t.len() {
            d is UnexpectedToken && d->UnexpectedToken_0 == t[n as int].1
                && d->UnexpectedToken_1 == t[n as int].0 && d->UnexpectedToken_2 == t[n as int].2
                && texts(d->UnexpectedToken_3) == expect_names(x)
        } else {
            d is EndOfStream && d->EndOfStream_0 == end_of(t)
                && texts(d->EndOfStream_1) == expect_names(x)
        },
        SyntaxErr::EndOfStream(x) => d is EndOfStream && d->EndOfStream_0 == end_of(t)
            && texts(d->EndOfStream_1) == expect_names(x),
        SyntaxErr::System(s) => d == DecodeErr::SystemErr(s),
    }
}

/// Whether `r` is the outcome of decoding tokens `t` whose parse is `p`.
pub open spec fn decodes_as(r: Result<Exp, DecodeErr>, p: Result<Exp, SyntaxErr>, t: Seq<Spanned>) -> bool {
    match p {
        Ok(e) => r == Ok::<Exp, DecodeErr>(e),
        Err(x) => r is Err && reports(r->Err_0, x, t),
    }
}

fn exp_list() -> (r: Vec<String>)
    ensures
        texts(r) == exp_names(),
{
    let mut v: Vec<String> = Vec::new();
    v.push(String::from_str("identifier"));
    v.push(String::from_str("("));
    v.push(String::from_str("□"));
    v.push(String::from_str("λ"));
    v.push(String::from_str("Π"));
    v.push(String::from_str("Σ"));
    assert(texts(v) =~= exp_names());
    v
}

fn one(s: &str) -> (r: Vec<String>)
    ensures
        texts(r) == seq![s@],
{
    let mut v: Vec<String> = Vec::new();
    v.push(String::from_str(s));
    assert(texts(v) =~= seq![s@]);
    v
}

/// Names of the tokens that the grammar accepts where `x` says.
fn expect_list(x: Expect) -> (r: Vec<String>)
    ensures
        texts(r) == expect_names(x),
{
    match x {
        Expect::Exp => exp_list(),
        Expect::More(Until::End) => exp_list(),
        Expect::More(Until::RParen) => {
            let mut v = exp_list();
            v.push(String::from_str(")"));
            assert(texts(v) =~= exp_names().push(")"@));
            v
        },
        Expect::More(Until::Dot) => {
            let mut v = exp_list();
            v.push(String::from_str("."));
            assert(texts(v) =~= exp_names().push("."@));
            v
        },
        Expect::Ident => one("identifier"),
        Expect::Colon => one(":"),
        Expect::Close(Until::RParen) => one(")"),
        Expect::Close(Until::Dot) => one("."),
        Expect::Close(Until::End) => {
            let v: Vec<String> = Vec::new();
            assert(texts(v) =~= Seq::<Seq<char>>::empty());
            v
        },
    }
}

fn end_exec(t: &Vec<Spanned>) -> (r: usize)
    ensures
        r == end_of(t@),
{
    if t.len() == 0 {
        0
    } else {
        t[t.len() - 1].2
    }
}

/// The decode error that reports the syntax error `e` met in the tokens `t`.
fn report(e: SyntaxErr, t: &Vec<Spanned>) -> (r: DecodeErr)
    ensures
        reports(r, e, t@),
{
    match e {
        SyntaxErr::Unexpected(n, x) => if n < t.len() {
            DecodeErr::UnexpectedToken(t[n].1.dup(), t[n].0, t[n].2, expect_list(x))
        } else {
            DecodeErr::EndOfStream(end_exec(t), expect_list(x))
        },
        SyntaxErr::EndOfStream(x) => DecodeErr::EndOfStream(end_exec(t), expect_list(x)),
        SyntaxErr::System(s) => DecodeErr::SystemErr(s),
    }
}

/// Builds the expression that the tokens `t` make.
pub fn parse_tokens(t: &Vec<Spanned>) -> (r: Result<Exp, DecodeErr>)
    ensures
        decodes_as(r, parse(t@), t@),
{
    match exp_at(t, 0, Until::End) {
        Ok((e, _)) => Ok(e),
        Err(x) => Err(report(x, t)),
    }
}

} // verus!
