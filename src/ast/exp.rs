//! Top-level entity within the Abstract Syntax Tree (AST).

use super::{Abs, App, Idx, Prd, Sum, Sym, Unv, Var};
use crate::err::SystemErr;
use vstd::prelude::*;

verus! {

/// Expression, which is the top-level entity within the AST.
#[derive(Debug, Eq, Hash, PartialEq)]
#[non_exhaustive]
pub enum Exp {
    /// Variable, which is the atomic constituent of an expression.
    Var(Var),
    /// Application, which denotes an operation to be performed on an expression.
    App(App),
    /// λ-abstraction, aka anonymous function, which maps one expression to another.
    Abs(Abs),
    /// Π-type, aka product type, which is a constructor for types.
    Prd(Prd),
    /// Σ-type, aka coproduct type, which is a constructor for types.
    Sum(Sum),
    /// Stratified type universe.
    Unv(Unv),
}

/// Binder that associates a variable within an expression.
pub trait Binder {
    /// The glyph that writes this kind of binder.
    spec fn glyph(&self) -> char;

    /// The symbol, the type and the body of the binder.
    spec fn parts(&self) -> (Sym, Exp, Exp);

    /// Returns the prefix associated with this type of binder.
    fn prefix(&self) -> (r: &'static str)
        ensures
            r@ == seq![self.glyph()],
    ;

    /// Returns a reference to the symbol associated with the binder.
    fn sym(&self) -> (r: &Sym)
        ensures
            *r == self.parts().0,
    ;

    /// Returns a reference to the type of the symbol associated with the binder.
    fn typ(&self) -> (r: &Exp)
        ensures
            *r == self.parts().1,
    ;

    /// Returns a reference to the expression contained within this binder.
    fn exp(&self) -> (r: &Exp)
        ensures
            *r == self.parts().2,
    ;
}

/// The body of a binder of symbol `bound`, indexed against `sym` at `idx`: untouched when the
/// binder shadows `sym`, and otherwise indexed one level deeper. `None` on overflow.
pub open spec fn indexed_under(bound: Sym, body: Exp, sym: Seq<char>, idx: Idx) -> Option<Exp>
    decreases body, 1nat,
{
    if bound.val@ == sym {
        Some(body)
    } else if idx.val == u64::MAX {
        None
    } else {
        indexed(body, sym, Idx { val: (idx.val + 1) as u64, sym: idx.sym })
    }
}

/// The result of indexing `e` against the symbol `sym` at index `idx`.
///
/// Each free occurrence of `sym` becomes the bound variable `idx`, where `idx` grows by one for
/// each binder crossed on the way down; a binder of the same symbol shadows it and stops the
/// descent. `None` when a binder would be crossed with `idx` at `u64::MAX`.
pub open spec fn indexed(e: Exp, sym: Seq<char>, idx: Idx) -> Option<Exp>
    decreases e, 0nat,
{
    match e {
        Exp::Var(Var::Sym(s)) => if s.val@ == sym {
            Some(Exp::Var(Var::Idx(idx)))
        } else {
            Some(e)
        },
        Exp::Var(_) => Some(e),
        Exp::App(a) => match (indexed(*a.fst, sym, idx), indexed(*a.snd, sym, idx)) {
            (Some(f), Some(s)) => Some(Exp::App(App { fst: Box::new(f), snd: Box::new(s) })),
            _ => None,
        },
        Exp::Abs(b) => match indexed_under(b.sym, *b.exp, sym, idx) {
            Some(x) => Some(Exp::Abs(Abs { sym: b.sym, typ: b.typ, exp: Box::new(x) })),
            None => None,
        },
        Exp::Prd(b) => match indexed_under(b.sym, *b.exp, sym, idx) {
            Some(x) => Some(Exp::Prd(Prd { sym: b.sym, typ: b.typ, exp: Box::new(x) })),
            None => None,
        },
        Exp::Sum(b) => match indexed_under(b.sym, *b.exp, sym, idx) {
            Some(x) => Some(Exp::Sum(Sum { sym: b.sym, typ: b.typ, exp: Box::new(x) })),
            None => None,
        },
        Exp::Unv(_) => Some(e),
    }
}

/// Whether indexing the body of a binder of symbol `bound` overflows.
fn overflows_under(bound: &Sym, body: &Exp, sym: &Sym, idx: &Idx) -> (r: bool)
    ensures
        r == indexed_under(*bound, *body, sym.val@, *idx) is None,
    decreases body, 1nat,
{
    if bound.val == sym.val {
        false
    } else if idx.val == u64::MAX {
        true
    } else {
        let next = Idx { val: idx.val + 1, sym: idx.sym.dup() };
        body.overflows(sym, &next)
    }
}

/// Indexes the body of a binder of symbol `bound`, which must not overflow.
fn apply_under(bound: &Sym, body: Exp, sym: &Sym, idx: &Idx) -> (r: Exp)
    requires
        indexed_under(*bound, body, sym.val@, *idx) is Some,
    ensures
        Some(r) == indexed_under(*bound, body, sym.val@, *idx),
    decreases body, 1nat,
{
    if bound.val == sym.val {
        body
    } else {
        let next = Idx { val: idx.val + 1, sym: idx.sym.dup() };
        body.apply_index(sym, &next)
    }
}

impl Exp {
    /// Whether indexing this expression against `sym` at `idx` overflows.
    fn overflows(&self, sym: &Sym, idx: &Idx) -> (r: bool)
        ensures
            r == indexed(*self, sym.val@, *idx) is None,
        decreases *self, 0nat,
    {
        match self {
            Exp::Var(_) => false,
            Exp::App(a) => a.fst.overflows(sym, idx) || a.snd.overflows(sym, idx),
            Exp::Abs(b) => overflows_under(&b.sym, &b.exp, sym, idx),
            Exp::Prd(b) => overflows_under(&b.sym, &b.exp, sym, idx),
            Exp::Sum(b) => overflows_under(&b.sym, &b.exp, sym, idx),
            Exp::Unv(_) => false,
        }
    }

    /// Indexes this expression, which must not overflow.
    fn apply_index(self, sym: &Sym, idx: &Idx) -> (r: Exp)
        requires
            indexed(self, sym.val@, *idx) is Some,
        ensures
            Some(r) == indexed(self, sym.val@, *idx),
        decreases self, 0nat,
    {
        match self {
            Exp::Var(Var::Sym(s)) => {
                if s.val == sym.val {
                    Exp::Var(Var::Idx(Idx { val: idx.val, sym: idx.sym.dup() }))
                } else {
                    Exp::Var(Var::Sym(s))
                }
            },
            Exp::Var(v) => Exp::Var(v),
            Exp::App(a) => {
                let App { fst, snd } = a;
                let f = (*fst).apply_index(sym, idx);
                let s = (*snd).apply_index(sym, idx);
                Exp::App(App { fst: Box::new(f), snd: Box::new(s) })
            },
            Exp::Abs(b) => {
                let Abs { sym: bound, typ, exp } = b;
                let x = apply_under(&bound, *exp, sym, idx);
                Exp::Abs(Abs { sym: bound, typ, exp: Box::new(x) })
            },
            Exp::Prd(b) => {
                let Prd { sym: bound, typ, exp } = b;
                let x = apply_under(&bound, *exp, sym, idx);
                Exp::Prd(Prd { sym: bound, typ, exp: Box::new(x) })
            },
            Exp::Sum(b) => {
                let Sum { sym: bound, typ, exp } = b;
                let x = apply_under(&bound, *exp, sym, idx);
                Exp::Sum(Sum { sym: bound, typ, exp: Box::new(x) })
            },
            Exp::Unv(u) => Exp::Unv(u),
        }
    }

    /// Generates De Bruijn indices for this expression.
    ///
    /// Each free variable that references `sym` becomes the index `idx`, increased by one for
    /// each binder crossed on the way to it; a binder of the same symbol shadows `sym` below it.
    /// The call is all or nothing: on overflow the expression is left as it was.
    pub fn index(&mut self, sym: &Sym, idx: &Idx) -> (r: Result<(), SystemErr>)
        ensures
            match indexed(*old(self), sym.val@, *idx) {
                Some(x) => r is Ok && *final(self) == x,
                None => r == Err::<(), SystemErr>(SystemErr::MaxLimitIdx(u64::MAX))
                    && *final(self) == *old(self),
            },
    {
        if self.overflows(sym, idx) {
            return Err(SystemErr::MaxLimitIdx(u64::MAX));
        }
        let mut e = Exp::Unv(Unv { level: 0 });
        std::mem::swap(self, &mut e);
        *self = e.apply_index(sym, idx);
        Ok(())
    }
}

/// A binder of the symbol being indexed shadows it: indexing leaves the binder, body included,
/// as it is.
pub proof fn lemma_shadow_stops(x: Sym, typ: Exp, body: Exp, idx: Idx)
    ensures
        indexed(Exp::Abs(Abs { sym: x, typ: Box::new(typ), exp: Box::new(body) }), x.val@, idx)
            == Some(Exp::Abs(Abs { sym: x, typ: Box::new(typ), exp: Box::new(body) })),
        indexed(Exp::Prd(Prd { sym: x, typ: Box::new(typ), exp: Box::new(body) }), x.val@, idx)
            == Some(Exp::Prd(Prd { sym: x, typ: Box::new(typ), exp: Box::new(body) })),
        indexed(Exp::Sum(Sum { sym: x, typ: Box::new(typ), exp: Box::new(body) }), x.val@, idx)
            == Some(Exp::Sum(Sum { sym: x, typ: Box::new(typ), exp: Box::new(body) })),
{
    assert(indexed_under(x, body, x.val@, idx) == Some(body));
}

/// Shadowing: building `λx:T.(λx:U. x) x` binds the inner `x` to the inner binder, at index 0,
/// and the argument `x` to the outer binder, at index 0; the outer pass does not reach into
/// the inner binder.
pub proof fn lemma_shadowing(x: Sym, t: Exp, u: Exp)
    ensures
        ({
            let zero = Idx { val: 0, sym: x };
            let bound = Exp::Var(Var::Idx(zero));
            let inner = Exp::Abs(Abs { sym: x, typ: Box::new(u), exp: Box::new(bound) });
            &&& indexed(Exp::Var(Var::Sym(x)), x.val@, zero) == Some(bound)
            &&& indexed(
                Exp::App(App { fst: Box::new(inner), snd: Box::new(Exp::Var(Var::Sym(x))) }),
                x.val@,
                zero,
            ) == Some(Exp::App(App { fst: Box::new(inner), snd: Box::new(bound) }))
        }),
{
    let zero = Idx { val: 0, sym: x };
    let bound = Exp::Var(Var::Idx(zero));
    lemma_shadow_stops(x, u, bound, zero);
}

impl Exp {
    /// A copy of this expression, equal to it.
    pub fn dup(&self) -> (r: Exp)
        ensures
            r == *self,
        decreases *self,
    {
        match self {
            Exp::Var(Var::Sym(s)) => Exp::Var(Var::Sym(s.dup())),
            Exp::Var(Var::Idx(i)) => Exp::Var(Var::Idx(Idx { val: i.val, sym: i.sym.dup() })),
            Exp::App(a) => Exp::App(App { fst: Box::new(a.fst.dup()), snd: Box::new(a.snd.dup()) }),
            Exp::Abs(b) => Exp::Abs(Abs { sym: b.sym.dup(), typ: Box::new(b.typ.dup()), exp: Box::new(b.exp.dup()) }),
            Exp::Prd(b) => Exp::Prd(Prd { sym: b.sym.dup(), typ: Box::new(b.typ.dup()), exp: Box::new(b.exp.dup()) }),
            Exp::Sum(b) => Exp::Sum(Sum { sym: b.sym.dup(), typ: Box::new(b.typ.dup()), exp: Box::new(b.exp.dup()) }),
            Exp::Unv(u) => Exp::Unv(Unv { level: u.level }),
        }
    }
}

impl Clone for Exp {
    fn clone(&self) -> (r: Self)
        ensures
            r == *self,
    {
        self.dup()
    }
}

impl Clone for App {
    fn clone(&self) -> (r: Self)
        ensures
            r == *self,
    {
        App { fst: Box::new(self.fst.dup()), snd: Box::new(self.snd.dup()) }
    }
}

impl Clone for Abs {
    fn clone(&self) -> (r: Self)
        ensures
            r == *self,
    {
        Abs { sym: self.sym.dup(), typ: Box::new(self.typ.dup()), exp: Box::new(self.exp.dup()) }
    }
}

impl Clone for Prd {
    fn clone(&self) -> (r: Self)
        ensures
            r == *self,
    {
        Prd { sym: self.sym.dup(), typ: Box::new(self.typ.dup()), exp: Box::new(self.exp.dup()) }
    }
}

impl Clone for Sum {
    fn clone(&self) -> (r: Self)
        ensures
            r == *self,
    {
        Sum { sym: self.sym.dup(), typ: Box::new(self.typ.dup()), exp: Box::new(self.exp.dup()) }
    }
}

} // verus!
