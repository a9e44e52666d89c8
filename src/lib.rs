//! Syntax layer of a small dependently-typed calculus: expression trees with De Bruijn indices,
//! and a canonical text codec for them.

pub mod ast;
pub mod enc;
pub mod err;
