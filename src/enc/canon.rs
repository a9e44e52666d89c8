//! Canonical text encoding of expressions.
//!
//! The encoding is minimally parenthesized. Application is left-associative and a binder body
//! extends as far right as possible, so parentheses are needed only in two places: around an
//! application that is the right side of another application, and around a binder that is
//! followed by more of an application: the left side of an application, or the right side of
//! one that is itself followed by more.

use crate::ast::{decimal, Exp, Var};
use vstd::prelude::*;

verus! {

/// `s` in parentheses where `p` holds, else `s` itself.
pub open spec fn parens(p: bool, s: Seq<char>) -> Seq<char> {
    if p {
        seq!['('] + s + seq![')']
    } else {
        s
    }
}

/// Text of a binder with glyph `g`, symbol `sym`, and the texts of its type and body.
pub open spec fn binder_text(g: char, sym: Seq<char>, typ: Seq<char>, body: Seq<char>) -> Seq<char> {
    seq![g] + sym + seq![' ', ':', ' '] + typ + seq![' ', '.', ' '] + body
}

/// Canonical text of `e` at a position given by the two flags: `ltree` when more of an
/// application follows `e`, `rtree` when `e` is the right side of an application.
/// With `show`, bound variables are written as their indices rather than their symbols.
pub open spec fn encoded(e: Exp, ltree: bool, rtree: bool, show: bool) -> Seq<char>
    decreases e,
{
    match e {
        Exp::Var(Var::Sym(s)) => s.val@,
        Exp::Var(Var::Idx(i)) => if show {
            decimal(i.val as nat)
        } else {
            i.sym.val@
        },
        Exp::App(a) => parens(
            rtree,
            encoded(*a.fst, true, false, show) + seq![' '] + encoded(*a.snd, ltree && !rtree, true, show),
        ),
        Exp::Abs(b) => parens(
            ltree,
            binder_text('λ', b.sym.val@, encoded(*b.typ, false, false, show), encoded(*b.exp, false, false, show)),
        ),
        Exp::Prd(b) => parens(
            ltree,
            binder_text('Π', b.sym.val@, encoded(*b.typ, false, false, show), encoded(*b.exp, false, false, show)),
        ),
        Exp::Sum(b) => parens(
            ltree,
            binder_text('Σ', b.sym.val@, encoded(*b.typ, false, false, show), encoded(*b.exp, false, false, show)),
        ),
        Exp::Unv(_) => seq!['□'],
    }
}

/// Canonical text of `e` standing on its own.
pub open spec fn canonical(e: Exp, show: bool) -> Seq<char> {
    encoded(e, false, false, show)
}

} // verus!
