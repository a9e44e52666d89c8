//! Variable, which is one of the atomic constituents of any expression.

use crate::err::SystemErr;
use vstd::prelude::*;

verus! {

/// Variable, which is one of the atomic constituents of any expression.
#[derive(Clone, Debug, Eq, Hash, PartialEq)]
#[non_exhaustive]
pub enum Var {
    /// Symbol that denotes a free variable.
    Sym(Sym),
    /// De Bruijn index that denotes the variable when bound within an expression.
    Idx(Idx),
}

/// Name given to a variable.
///
/// Symbols reference free variables. Bound variables keep the symbol they were created with,
/// which serves display only.
#[derive(Clone, Debug, Eq, Hash, PartialEq)]
pub struct Sym {
    /// Raw value of the name contained in this symbol.
    pub val: String,
}

/// De Bruijn index that denotes a variable when bound within an expression.
///
/// The index counts the binders between this bound variable and the binder that binds it.
/// Values go up to `u64::MAX`: an increment past it is an error, never a wrap.
#[derive(Clone, Debug, Eq, Hash, PartialEq)]
pub struct Idx {
    /// Numeric value of this index.
    pub val: u64,
    /// Symbol of the bound variable that this index refers to.
    pub sym: Sym,
}

/// Decimal digits of `n`, most significant first, without leading zeros ("0" for zero).
pub open spec fn decimal(n: nat) -> Seq<char>
    decreases n,
{
    if n < 10 {
        seq![digit_char(n)]
    } else {
        decimal(n / 10).push(digit_char(n % 10))
    }
}

/// The character of the decimal digit `d`.
pub open spec fn digit_char(d: nat) -> char {
    if d == 0 { '0' }
    else if d == 1 { '1' }
    else if d == 2 { '2' }
    else if d == 3 { '3' }
    else if d == 4 { '4' }
    else if d == 5 { '5' }
    else if d == 6 { '6' }
    else if d == 7 { '7' }
    else if d == 8 { '8' }
    else { '9' }
}

/// The one-character text of the decimal digit `d`.
fn digit_str(d: u64) -> (r: &'static str)
    requires
        d < 10,
    ensures
        r@ == seq![digit_char(d as nat)],
{
    proof {
        reveal_strlit("0");
        reveal_strlit("1");
        reveal_strlit("2");
        reveal_strlit("3");
        reveal_strlit("4");
        reveal_strlit("5");
        reveal_strlit("6");
        reveal_strlit("7");
        reveal_strlit("8");
        reveal_strlit("9");
    }
    if d == 0 { "0" }
    else if d == 1 { "1" }
    else if d == 2 { "2" }
    else if d == 3 { "3" }
    else if d == 4 { "4" }
    else if d == 5 { "5" }
    else if d == 6 { "6" }
    else if d == 7 { "7" }
    else if d == 8 { "8" }
    else { "9" }
}

/// Renders `n` in decimal.
pub(crate) fn write_decimal(n: u64) -> (r: String)
    ensures
        r@ == decimal(n as nat),
    decreases n,
{
    if n < 10 {
        String::from_str(digit_str(n))
    } else {
        let mut s = write_decimal(n / 10);
        s.append(digit_str(n % 10));
        s
    }
}

impl Sym {
    /// Create a new instance of a [symbol][Sym].
    pub fn new(val: &str) -> (r: Self)
        ensures
            r.val@ == val@,
    {
        Self { val: val.to_owned() }
    }

    /// A copy of this symbol, equal to it.
    pub(crate) fn dup(&self) -> (r: Self)
        ensures
            r == *self,
    {
        Self { val: self.val.clone() }
    }

    /// Text of the symbol, which is its name.
    pub fn to_string(&self) -> (r: String)
        ensures
            r@ == self.val@,
    {
        self.val.clone()
    }
}

impl Idx {
    /// Create a new instance of an index with value 0.
    pub fn new(sym: &Sym) -> (r: Self)
        ensures
            r == (Idx { val: 0, sym: *sym }),
    {
        Self { val: 0, sym: sym.dup() }
    }

    /// Create a new instance of an index with a higher value.
    ///
    /// Fails with the current value when it is already `u64::MAX`.
    pub fn inc(&self) -> (r: Result<Self, SystemErr>)
        ensures
            self.val < u64::MAX ==> r == Ok::<Idx, SystemErr>(
                Idx { val: (self.val + 1) as u64, sym: self.sym },
            ),
            self.val == u64::MAX ==> r == Err::<Idx, SystemErr>(SystemErr::MaxLimitIdx(self.val)),
    {
        if self.val == u64::MAX {
            Err(SystemErr::MaxLimitIdx(self.val))
        } else {
            Ok(Self { val: self.val + 1, sym: self.sym.dup() })
        }
    }

    /// Create a new instance of an index with a lower value; the value must not be 0.
    pub fn dec(&self) -> (r: Self)
        requires
            self.val > 0,
        ensures
            r == (Idx { val: (self.val - 1) as u64, sym: self.sym }),
    {
        Self { val: self.val - 1, sym: self.sym.dup() }
    }

    /// Text of the index, which is its value in decimal.
    pub fn to_string(&self) -> (r: String)
        ensures
            r@ == decimal(self.val as nat),
    {
        write_decimal(self.val)
    }
}

impl Var {
    /// Text of the variable: the name of a symbol, the value of an index.
    pub fn to_string(&self) -> (r: String)
        ensures
            r@ == match self {
                Var::Sym(s) => s.val@,
                Var::Idx(i) => decimal(i.val as nat),
            },
    {
        match self {
            Var::Sym(s) => s.to_string(),
            Var::Idx(i) => i.to_string(),
        }
    }
}

impl From<Sym> for Var {
    fn from(sym: Sym) -> (r: Self) {
        Var::Sym(sym)
    }
}

impl vstd::std_specs::convert::FromSpecImpl<Sym> for Var {
    open spec fn obeys_from_spec() -> bool {
        true
    }

    open spec fn from_spec(sym: Sym) -> Self {
        Var::Sym(sym)
    }
}

impl From<Idx> for Var {
    fn from(idx: Idx) -> (r: Self) {
        Var::Idx(idx)
    }
}

impl vstd::std_specs::convert::FromSpecImpl<Idx> for Var {
    open spec fn obeys_from_spec() -> bool {
        true
    }

    open spec fn from_spec(idx: Idx) -> Self {
        Var::Idx(idx)
    }
}

} // verus!
