//! The Abstract Syntax Tree (AST).

mod abs;
mod app;
mod ctx;
mod err;
mod exp;
mod prd;
mod sum;
mod unv;
mod var;

pub use abs::Abs;
pub use app::App;
pub use ctx::Ctx;
pub use err::{DecodeErr, OverflowErr};
pub use exp::{indexed, indexed_under, lemma_shadow_stops, lemma_shadowing, Binder, Exp};
pub use prd::Prd;
pub use sum::Sum;
pub use unv::Unv;
pub use var::{decimal, Idx, Sym, Var};
pub(crate) use var::write_decimal;
