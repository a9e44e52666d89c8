//! Application type, and related behaviors.

use super::Exp;
use vstd::prelude::*;

verus! {

/// Application, which denotes an operation to be performed on an expression.
#[derive(Debug, Eq, Hash, PartialEq)]
pub struct App {
    /// Expression denoting the operation to be performed.
    pub fst: Box<Exp>,
    /// Expression denoting the expression the operation is to be performed on.
    pub snd: Box<Exp>,
}

impl App {
    /// Create a new instance of an [application][App].
    pub fn new(fst: Exp, snd: Exp) -> (r: Self)
        ensures
            r == (App { fst: Box::new(fst), snd: Box::new(snd) }),
    {
        Self { fst: Box::new(fst), snd: Box::new(snd) }
    }
}

} // verus!
