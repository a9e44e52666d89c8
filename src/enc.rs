//! Encodings, aka languages, supported for the Abstract Syntax Tree (AST).

pub mod canon;
pub mod grammar;
pub mod lex;
pub mod par;
pub mod round_trip;

use crate::ast::Exp;
use crate::err::DecodeErr;
use vstd::prelude::*;

verus! {

/// Maps an expression from and to an encoding of type `T`.
pub trait Codec<T> {
    /// Encode an expression to an object of type `T`.
    fn encode(&self, exp: &Exp) -> T;

    /// Decode a value of type `T` to an expression.
    fn decode(&self, val: &T) -> Result<Exp, DecodeErr>;
}

} // verus!
