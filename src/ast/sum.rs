//! Σ-type and related behaviors.

use super::{indexed, Binder, Exp, Idx, Sym};
use crate::err::SystemErr;
use vstd::prelude::*;

verus! {

/// Σ-type, a binder that introduces `sym` of type `typ` over the body `exp`.
#[derive(Debug, Eq, Hash, PartialEq)]
pub struct Sum {
    /// Original name of the variable that this binder was created with.
    pub sym: Sym,
    /// Type of the variable that this binder was created with.
    pub typ: Box<Exp>,
    /// Body or definition within the binder.
    pub exp: Box<Exp>,
}

impl Sum {
    /// Create a new instance of a [Σ-type][Sum], binding the free occurrences of `sym` in `exp`.
    ///
    /// Fails when indexing the body overflows.
    pub fn new(sym: Sym, typ: Exp, exp: Exp) -> (r: Result<Self, SystemErr>)
        ensures
            match indexed(exp, sym.val@, Idx { val: 0, sym: sym }) {
                Some(b) => r == Ok::<Sum, SystemErr>(Sum { sym, typ: Box::new(typ), exp: Box::new(b) }),
                None => r == Err::<Sum, SystemErr>(SystemErr::MaxLimitIdx(u64::MAX)),
            },
    {
        let mut exp = exp;
        let idx = Idx::new(&sym);
        match exp.index(&sym, &idx) {
            Ok(()) => Ok(Self { sym, typ: Box::new(typ), exp: Box::new(exp) }),
            Err(e) => Err(e),
        }
    }
}

impl Binder for Sum {
    open spec fn glyph(&self) -> char {
        'Σ'
    }

    open spec fn parts(&self) -> (Sym, Exp, Exp) {
        (self.sym, *self.typ, *self.exp)
    }

    fn prefix(&self) -> (r: &'static str) {
        proof {
            reveal_strlit("Σ");
        }
        "Σ"
    }

    fn sym(&self) -> (r: &Sym) {
        &self.sym
    }

    fn typ(&self) -> (r: &Exp) {
        &self.typ
    }

    fn exp(&self) -> (r: &Exp) {
        &self.exp
    }
}

} // verus!
