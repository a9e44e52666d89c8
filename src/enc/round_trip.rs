//! Decoding the canonical text of an application tree gives the tree back.
//!
//! This is proved of trees built from free variables with well-formed names, universes and
//! applications, whatever their shape.

use super::canon::encoded;
use super::grammar::{
    is_atom_tok, parse, parse_atom, parse_chain, parse_exp, SyntaxErr, Until,
};
use super::lex::{
    glyph, ident_end, is_ident_char, is_lower, is_ws, lemma_ident_end, lemma_skip_ws, lexes,
    lex_error_from, skip_ws, spans_from, starts_token, token_end, token_is, Spanned, Tok,
};
use crate::ast::{App, Exp, Var};
use vstd::prelude::*;

verus! {

/// A name that the lexer reads as one identifier.
pub open spec fn valid_name(n: Seq<char>) -> bool {
    &&& n.len() > 0
    &&& is_lower(n[0])
    &&& forall|k: int| 1 <= k < n.len() ==> is_ident_char(#[trigger] n[k])
}

/// Trees of free variables with valid names, universes and applications.
pub open spec fn applicative(e: Exp) -> bool
    decreases e,
{
    match e {
        Exp::Var(Var::Sym(x)) => valid_name(x.val@),
        Exp::Unv(_) => true,
        Exp::App(a) => applicative(*a.fst) && applicative(*a.snd),
        _ => false,
    }
}

/// Variables and universes.
pub open spec fn is_atom(e: Exp) -> bool {
    e is Var || e is Unv
}

/// Two application trees of the same shape, names and universes, whatever the levels.
pub open spec fn similar(x: Exp, y: Exp) -> bool
    decreases x,
{
    match x {
        Exp::Var(Var::Sym(a)) => y is Var && y->Var_0 is Sym && y->Var_0->Sym_0.val@ == a.val@,
        Exp::Unv(_) => y is Unv,
        Exp::App(a) => y is App && similar(*a.fst, *y->App_0.fst) && similar(*a.snd, *y->App_0.snd),
        _ => false,
    }
}

/// The tokens of the canonical text of an application tree.
pub open spec fn toks_of(e: Exp, r: bool) -> Seq<Tok>
    decreases e,
{
    match e {
        Exp::Var(Var::Sym(x)) => seq![Tok::Ident(x.val)],
        Exp::App(a) => {
            let inner = toks_of(*a.fst, false) + toks_of(*a.snd, true);
            if r {
                seq![Tok::LParen] + inner + seq![Tok::RParen]
            } else {
                inner
            }
        },
        _ => seq![Tok::Box],
    }
}

/// Two tokens of the same kind, and of the same name if identifiers.
pub open spec fn tok_sim(a: Tok, b: Tok) -> bool {
    match b {
        Tok::Ident(y) => a is Ident && a->Ident_0@ == y@,
        _ => a == b,
    }
}

/// Whether the token that starts at `j` is like `want`.
pub open spec fn tok_at(s: Seq<char>, j: int, want: Tok) -> bool {
    &&& 0 <= j < s.len()
    &&& if is_lower(s[j]) {
        want is Ident && want->Ident_0@ == s.subrange(j, token_end(s, j))
    } else {
        glyph(s[j]) == Some(want)
    }
}

/// Whether the tokens from `k` on begin with tokens like `w`.
pub open spec fn toks_at(t: Seq<Spanned>, k: int, w: Seq<Tok>) -> bool {
    &&& 0 <= k
    &&& k + w.len() <= t.len()
    &&& forall|n: int| 0 <= n < w.len() ==> tok_sim(#[trigger] t[k + n].1, w[n])
}

proof fn lemma_ident_run(s: Seq<char>, i: int, e: int)
    requires
        0 <= i <= e <= s.len(),
        forall|k: int| i <= k < e ==> is_ident_char(#[trigger] s[k]),
        e == s.len() || !is_ident_char(s[e]),
    ensures
        ident_end(s, i) == e,
    decreases e - i,
{
    if i < e {
        lemma_ident_run(s, i + 1, e);
    }
}

proof fn lemma_token_end_grows(s: Seq<char>, j: int)
    requires
        starts_token(s, j),
    ensures
        j < token_end(s, j) <= s.len(),
{
    if is_lower(s[j]) {
        lemma_ident_end(s, j + 1);
    }
}

/// Whitespace before a token changes nothing in what follows.
proof fn lemma_ws_step(s: Seq<char>, k: int)
    requires
        0 <= k < s.len(),
        is_ws(s[k]),
    ensures
        spans_from(s, k) == spans_from(s, k + 1),
        lex_error_from(s, k) == lex_error_from(s, k + 1),
{
    lemma_skip_ws(s, k + 1);
    let j = skip_ws(s, k + 1);
    assert(skip_ws(s, k) == j);
    if starts_token(s, j) {
        lemma_token_end_grows(s, j);
    }
}

/// A token that starts right at `j`.
proof fn lemma_tok_step(s: Seq<char>, j: int)
    requires
        starts_token(s, j),
        !is_ws(s[j]),
    ensures
        spans_from(s, j) == seq![(j, token_end(s, j))] + spans_from(s, token_end(s, j)),
        lex_error_from(s, j) == lex_error_from(s, token_end(s, j)),
{
    lemma_token_end_grows(s, j);
    assert(skip_ws(s, j) == j);
}

/// A piece of a piece of the text is a piece of the text.
proof fn lemma_piece(s: Seq<char>, i: int, p: Seq<char>, o: int, q: Seq<char>)
    requires
        0 <= i,
        i + p.len() <= s.len(),
        s.subrange(i, i + p.len()) == p,
        0 <= o,
        o + q.len() <= p.len(),
        p.subrange(o, o + q.len()) == q,
    ensures
        s.subrange(i + o, i + o + q.len()) == q,
{
    assert(s.subrange(i + o, i + o + q.len()) =~= q) by {
        assert forall|k: int| 0 <= k < q.len() implies s.subrange(i + o, i + o + q.len())[k] == q[k] by {
            assert(s.subrange(i, i + p.len())[o + k] == p[o + k]);
            assert(p.subrange(o, o + q.len())[k] == p[o + k]);
        }
    }
}

/// The canonical text of an application tree, followed by no identifier character, lexes
/// into spans with the tokens of the tree.
proof fn lemma_lex(e: Exp, l: bool, r: bool, show: bool, s: Seq<char>, i: int) -> (x: Seq<(int, int)>)
    requires
        applicative(e),
        0 <= i,
        i + encoded(e, l, r, show).len() <= s.len(),
        s.subrange(i, i + encoded(e, l, r, show).len()) == encoded(e, l, r, show),
        i + encoded(e, l, r, show).len() == s.len() || !is_ident_char(
            s[i + encoded(e, l, r, show).len()],
        ),
    ensures
        spans_from(s, i) == x + spans_from(s, i + encoded(e, l, r, show).len()),
        lex_error_from(s, i) == lex_error_from(s, i + encoded(e, l, r, show).len()),
        x.len() == toks_of(e, r).len(),
        forall|n: int| 0 <= n < x.len() ==> tok_at(s, (#[trigger] x[n]).0, toks_of(e, r)[n]),
    decreases e, 1nat,
{
    let p = encoded(e, l, r, show);
    let end = i + p.len();
    assert(s[i] == p[0]) by {
        assert(s.subrange(i, end)[0] == s[i]);
    }
    match e {
        Exp::Var(Var::Sym(v)) => {
            assert forall|k: int| i + 1 <= k < end implies is_ident_char(#[trigger] s[k]) by {
                assert(s.subrange(i, end)[k - i] == s[k]);
            }
            lemma_ident_run(s, i + 1, end);
            lemma_tok_step(s, i);
            seq![(i, end)]
        },
        Exp::Unv(_) => {
            lemma_tok_step(s, i);
            seq![(i, i + 1)]
        },
        _ => lemma_lex_app(e, l, r, show, s, i),
    }
}

#[verifier::rlimit(50)]
proof fn lemma_lex_app(e: Exp, l: bool, r: bool, show: bool, s: Seq<char>, i: int) -> (x: Seq<(int, int)>)
    requires
        e is App,
        applicative(e),
        0 <= i,
        i + encoded(e, l, r, show).len() <= s.len(),
        s.subrange(i, i + encoded(e, l, r, show).len()) == encoded(e, l, r, show),
        i + encoded(e, l, r, show).len() == s.len() || !is_ident_char(
            s[i + encoded(e, l, r, show).len()],
        ),
    ensures
        spans_from(s, i) == x + spans_from(s, i + encoded(e, l, r, show).len()),
        lex_error_from(s, i) == lex_error_from(s, i + encoded(e, l, r, show).len()),
        x.len() == toks_of(e, r).len(),
        forall|n: int| 0 <= n < x.len() ==> tok_at(s, (#[trigger] x[n]).0, toks_of(e, r)[n]),
    decreases e, 0nat,
{
    let a = e->App_0;
    let p = encoded(e, l, r, show);
    let end = i + p.len();
    let pf = encoded(*a.fst, true, false, show);
    let pa = encoded(*a.snd, l && !r, true, show);
    let inner = pf + seq![' '] + pa;
    let o: int = if r { 1 } else { 0 };
    let lf: int = pf.len() as int;
    let la: int = pa.len() as int;
    let ln: int = inner.len() as int;
    let lp: int = p.len() as int;
    if r {
        assert(p == seq!['('] + inner + seq![')']);
        assert(p.subrange(1, 1 + ln) =~= inner);
    } else {
        assert(p == inner);
        assert(p.subrange(0, ln) =~= inner);
    }
    lemma_piece(s, i, p, o, inner);
    let fi = i + o;
    let ai = fi + pf.len() + 1;
    assert(inner.subrange(0, lf) =~= pf);
    lemma_piece(s, fi, inner, 0, pf);
    assert(inner.subrange(lf + 1, lf + 1 + la) =~= pa);
    lemma_piece(s, fi, inner, lf + 1, pa);
    assert(s[fi + pf.len()] == ' ') by {
        assert(s.subrange(fi, fi + ln)[lf] == inner[lf]);
    }
    if r {
        assert(s[ai + pa.len()] == ')') by {
            assert(s.subrange(i, end)[lp - 1] == p[lp - 1]);
        }
    }
    let xf = lemma_lex(*a.fst, true, false, show, s, fi);
    lemma_ws_step(s, fi + pf.len());
    let xa = lemma_lex(*a.snd, l && !r, true, show, s, ai);
    let tf = toks_of(*a.fst, false);
    let ta = toks_of(*a.snd, true);
    let w = toks_of(e, r);
    if r {
        assert(s[i] == '(') by {
            assert(s.subrange(i, end)[0] == p[0]);
        }
        lemma_tok_step(s, i);
        lemma_tok_step(s, ai + pa.len());
        let x = seq![(i, i + 1)] + xf + xa + seq![(ai + pa.len(), ai + pa.len() + 1)];
        assert(w == seq![Tok::LParen] + (tf + ta) + seq![Tok::RParen]);
        assert(spans_from(s, i) =~= x + spans_from(s, end));
        assert forall|n: int| 0 <= n < x.len() implies tok_at(s, (#[trigger] x[n]).0, w[n]) by {
            if n == 0 {
            } else if n <= xf.len() {
                assert(x[n] == xf[n - 1]);
                assert(w[n] == tf[n - 1]);
            } else if n <= xf.len() + xa.len() {
                assert(x[n] == xa[n - 1 - xf.len()]);
                assert(w[n] == ta[n - 1 - xf.len()]);
            } else {
            }
        }
        x
    } else {
        let x = xf + xa;
        assert(w == tf + ta);
        assert(spans_from(s, i) =~= x + spans_from(s, end));
        assert forall|n: int| 0 <= n < x.len() implies tok_at(s, (#[trigger] x[n]).0, w[n]) by {
            if n < xf.len() {
                assert(x[n] == xf[n]);
                assert(w[n] == tf[n]);
            } else {
                assert(x[n] == xa[n - xf.len()]);
                assert(w[n] == ta[n - xf.len()]);
            }
        }
        x
    }
}

proof fn lemma_first_tok(e: Exp, r: bool)
    requires
        applicative(e),
    ensures
        toks_of(e, r).len() > 0,
        is_atom_tok(toks_of(e, r)[0]),
        is_atom(e) ==> toks_of(e, r) == toks_of(e, !r) && toks_of(e, r).len() == 1,
    decreases e,
{
    if let Exp::App(a) = e {
        lemma_first_tok(*a.fst, r);
        lemma_first_tok(*a.snd, !r);
    }
}

/// The token of a variable or a universe parses as one atom.
proof fn lemma_leaf(t: Seq<Spanned>, e: Exp, k: int) -> (d: Exp)
    requires
        applicative(e),
        is_atom(e),
        toks_at(t, k, toks_of(e, true)),
    ensures
        similar(d, e),
        parse_atom(t, k) == Ok::<(Exp, int), SyntaxErr>((d, k + 1)),
        toks_of(e, true).len() == 1,
{
    assert(tok_sim(t[k + 0].1, toks_of(e, true)[0]));
    match e {
        Exp::Var(Var::Sym(x)) => Exp::Var(Var::Sym(crate::ast::Sym { val: t[k].1->Ident_0 })),
        _ => Exp::Unv(crate::ast::Unv { level: 0 }),
    }
}

/// The tokens of an application tree written as the right side of an application parse as
/// one atom.
proof fn lemma_atom(t: Seq<Spanned>, e: Exp, k: int) -> (d: Exp)
    requires
        applicative(e),
        toks_at(t, k, toks_of(e, true)),
    ensures
        similar(d, e),
        parse_atom(t, k) == Ok::<(Exp, int), SyntaxErr>((d, k + toks_of(e, true).len())),
    decreases e, 1nat,
{
    let w = toks_of(e, true);
    if is_atom(e) {
        lemma_leaf(t, e, k)
    } else {
        let inner = toks_of(e, false);
        assert(w == seq![Tok::LParen] + inner + seq![Tok::RParen]);
        assert(tok_sim(t[k + 0].1, w[0]));
        assert(t[k].1 == Tok::LParen);
        assert(toks_at(t, k + 1, inner)) by {
            assert forall|n: int| 0 <= n < inner.len() implies tok_sim(#[trigger] t[k + 1 + n].1, inner[n]) by {
                assert(tok_sim(t[k + (1 + n)].1, w[1 + n]));
            }
        }
        let q = k + 1 + inner.len();
        assert(tok_sim(t[k + (w.len() - 1)].1, w[w.len() - 1]));
        assert(t[q].1 == Tok::RParen);
        lemma_first_tok(e, false);
        assert(tok_sim(t[k + 1 + 0].1, inner[0]));
        let d = lemma_chain(t, e, k + 1, Until::RParen);
        assert(parse_chain(t, q, d, Until::RParen) == Ok::<(Exp, int), SyntaxErr>((d, q)));
        d
    }
}

/// The tokens of an application tree written outside any application parse as a run of
/// atoms, which the parser carries on from.
proof fn lemma_chain(t: Seq<Spanned>, e: Exp, k: int, u: Until) -> (d: Exp)
    requires
        applicative(e),
        toks_at(t, k, toks_of(e, false)),
    ensures
        similar(d, e),
        parse_exp(t, k, u) == parse_chain(t, k + toks_of(e, false).len(), d, u),
    decreases e, 0nat,
{
    let w = toks_of(e, false);
    lemma_first_tok(e, false);
    assert(tok_sim(t[k + 0].1, w[0]));
    match e {
        Exp::App(a) => {
            let tf = toks_of(*a.fst, false);
            let ta = toks_of(*a.snd, true);
            lemma_first_tok(*a.snd, true);
            assert(w == tf + ta);
            let q = k + tf.len();
            assert(toks_at(t, k, tf)) by {
                assert forall|n: int| 0 <= n < tf.len() implies tok_sim(#[trigger] t[k + n].1, tf[n]) by {
                    assert(w[n] == tf[n]);
                }
            }
            assert(toks_at(t, q, ta)) by {
                assert forall|n: int| 0 <= n < ta.len() implies tok_sim(#[trigger] t[q + n].1, ta[n]) by {
                    assert(tok_sim(t[k + (tf.len() + n)].1, w[tf.len() + n]));
                }
            }
            let df = lemma_chain(t, *a.fst, k, u);
            assert(tok_sim(t[q + 0].1, ta[0]));
            let da = lemma_atom(t, *a.snd, q);
            let d = Exp::App(App { fst: Box::new(df), snd: Box::new(da) });
            assert(parse_chain(t, q, df, u) == parse_chain(t, q + ta.len(), d, u));
            d
        },
        _ => {
            assert(toks_of(e, false) == toks_of(e, true));
            lemma_leaf(t, e, k)
        },
    }
}

proof fn lemma_tok_sim(s: Seq<char>, j: int, a: Tok, w: Tok)
    requires
        token_is(s, j, a),
        tok_at(s, j, w),
    ensures
        tok_sim(a, w),
{
}

/// Decoding the canonical text of an application tree with valid names gives a similar tree
/// back: the text lexes without error, and the tokens that it lexes into parse as such a tree.
pub proof fn lemma_decode_canonical(e: Exp, show: bool, t: Seq<Spanned>)
    requires
        applicative(e),
    ensures
        lex_error_from(encoded(e, false, false, show), 0) is None,
        lexes(encoded(e, false, false, show), t) ==> (parse(t) matches Ok(d) && similar(d, e)),
{
    let s = encoded(e, false, false, show);
    let n = s.len() as int;
    assert(s.subrange(0, n) =~= s);
    let x = lemma_lex(e, false, false, show, s, 0);
    assert(skip_ws(s, n) == n);
    assert(spans_from(s, n) =~= Seq::<(int, int)>::empty());
    assert(spans_from(s, 0) =~= x);
    if lexes(s, t) {
        let w = toks_of(e, false);
        assert(toks_at(t, 0, w)) by {
            assert forall|m: int| 0 <= m < w.len() implies tok_sim(#[trigger] t[0 + m].1, w[m]) by {
                assert(spans_from(s, 0)[m] == x[m]);
                lemma_tok_sim(s, x[m].0, t[m].1, w[m]);
            }
        }
        let d = lemma_chain(t, e, 0, Until::End);
        assert(parse_chain(t, w.len() as int, d, Until::End) == Ok::<(Exp, int), SyntaxErr>((d, w.len() as int)));
    }
}

proof fn lemma_similar_encoded(d: Exp, e: Exp, l: bool, r: bool, show: bool)
    requires
        similar(d, e),
    ensures
        encoded(d, l, r, show) == encoded(e, l, r, show),
    decreases d,
{
    if let Exp::App(a) = d {
        let b = e->App_0;
        lemma_similar_encoded(*a.fst, *b.fst, true, false, show);
        lemma_similar_encoded(*a.snd, *b.snd, l && !r, true, show);
    }
}

/// Encoding what the canonical text of an application tree with valid names decodes to gives
/// the same text.
pub proof fn lemma_encode_decoded(e: Exp, show: bool, t: Seq<Spanned>)
    requires
        applicative(e),
        lexes(encoded(e, false, false, show), t),
    ensures
        parse(t) matches Ok(d) && encoded(d, false, false, show) == encoded(e, false, false, show),
{
    lemma_decode_canonical(e, show, t);
    lemma_similar_encoded(parse(t)->Ok_0, e, false, false, show);
}

} // verus!
