//! Typing context.

use vstd::prelude::*;

verus! {

/// Typing context.
///
/// A typing context (written `Γ`) is an ordered set of declarations of the form `x : N`, `x`
/// being a variable and `N` an expression denoting the type of `x`. It carries no operations
/// yet: it is the place where a type checker will keep its declarations.
#[derive(Clone, Debug, Eq, Hash, PartialEq)]
pub struct Ctx;

} // verus!
