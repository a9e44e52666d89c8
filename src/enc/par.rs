//! Parsing of the core language, and the codec built on it.

use super::canon::{binder_text, encoded, parens};
use super::grammar::{decodes_as, parse, parse_tokens};
use super::lex::{byte_offset, lex_error_from, lexes, tokenize, Spanned};
use super::Codec;
use crate::ast::{Binder, Exp, Sym, Var};
use crate::err::DecodeErr;
use vstd::prelude::*;

verus! {

/// Codec of the *canonical* encoding of the Abstract Syntax Tree (AST).
#[derive(Clone, Copy, Debug, Eq, Hash, PartialEq)]
pub struct Core {
    /// Whether more of an application follows the expression being encoded.
    ltree: bool,
    /// Whether the expression being encoded is the right side of an application.
    rtree: bool,
    /// Show bound variables as De Bruijn indices rather than their original symbols.
    show_indices: bool,
}

impl Core {
    /// Whether more of an application follows the expression being encoded.
    pub closed spec fn ltree(&self) -> bool {
        self.ltree
    }

    /// Whether the expression being encoded is the right side of an application.
    pub closed spec fn rtree(&self) -> bool {
        self.rtree
    }

    /// Whether bound variables are shown as their De Bruijn indices.
    pub closed spec fn shows_indices(&self) -> bool {
        self.show_indices
    }

    /// Create a new instance of the codec, which shows bound variables by their symbols.
    pub fn new() -> (r: Self)
        ensures
            !r.ltree(),
            !r.rtree(),
            !r.shows_indices(),
    {
        Self { ltree: false, rtree: false, show_indices: false }
    }

    /// The same codec at the root of an expression, away from any application.
    pub fn reset(&self) -> (r: Self)
        ensures
            !r.ltree(),
            !r.rtree(),
            r.shows_indices() == self.shows_indices(),
    {
        Self { ltree: false, rtree: false, ..*self }
    }

    /// Create a new instance of the codec with a value for `show_indices`.
    ///
    /// If the value is set to true, bound variables are rendered as De Bruijn indices.
    /// Otherwise, they are rendered as their original symbols.
    pub fn with_show_indices(show_indices: bool) -> (r: Self)
        ensures
            !r.ltree(),
            !r.rtree(),
            r.shows_indices() == show_indices,
    {
        let mut res = Self::new();
        res.show_indices = show_indices;
        res
    }
}

impl Default for Core {
    fn default() -> (r: Self)
        ensures
            !r.ltree(),
            !r.rtree(),
            !r.shows_indices(),
    {
        Self::new()
    }
}

impl Core {
    /// Format a binder from its glyph, its symbol and the encodings of its type and body.
    fn fmt_binder(&self, prefix: &str, sym: &Sym, typ: String, exp: String) -> (r: String)
        requires
            prefix@.len() == 1,
        ensures
            r@ == parens(self.ltree(), binder_text(prefix@[0], sym.val@, typ@, exp@)),
    {
        proof {
            reveal_strlit(" : ");
            reveal_strlit(" . ");
        }
        let mut s = String::from_str(prefix);
        s.append(sym.val.as_str());
        s.append(" : ");
        s.append(typ.as_str());
        s.append(" . ");
        s.append(exp.as_str());
        proof {
            assert(s@ =~= binder_text(prefix@[0], sym.val@, typ@, exp@));
        }
        self.fmt_parens(self.ltree, s)  // parenthesize if more of an application follows
    }

    /// Format an application from the encodings of its two sides.
    fn fmt_app(&self, fst: String, snd: String) -> (r: String)
        ensures
            r@ == parens(self.rtree(), fst@ + seq![' '] + snd@),
    {
        proof {
            reveal_strlit(" ");
        }
        let mut s = fst;
        s.append(" ");
        s.append(snd.as_str());
        self.fmt_parens(self.rtree, s)  // parenthesize if the right side of an application
    }

    /// Optionally parenthesizes an encoded expression.
    fn fmt_parens(&self, p: bool, s: String) -> (r: String)
        ensures
            r@ == parens(p, s@),
    {
        if p {
            proof {
                reveal_strlit("(");
                reveal_strlit(")");
            }
            let mut r = String::from_str("(");
            r.append(s.as_str());
            r.append(")");
            r
        } else {
            s
        }
    }

    /// Encode an expression to its canonical text.
    ///
    /// The encoder recurses once per level of nesting of the expression, so a pathologically
    /// deep expression can exhaust the call stack.
    pub fn encode(&self, exp: &Exp) -> (r: String)
        ensures
            r@ == encoded(*exp, self.ltree(), self.rtree(), self.shows_indices()),
        decreases exp,
    {
        match exp {
            Exp::Var(Var::Sym(sym)) => sym.to_string(),
            Exp::Var(Var::Idx(idx)) => {
                if self.show_indices {
                    idx.to_string()
                } else {
                    idx.sym.to_string()
                }
            },
            Exp::App(app) => {
                let left = Core { ltree: true, rtree: false, ..*self };  // the left spine needs no parentheses
                let right = Core { ltree: self.ltree && !self.rtree, rtree: true, ..*self };
                let fst = left.encode(&app.fst);
                let snd = right.encode(&app.snd);
                self.fmt_app(fst, snd)
            },
            Exp::Abs(b) => {
                let typ = self.reset().encode(&b.typ);  // not ambiguous: a new branch
                let body = self.reset().encode(&b.exp);  // greedy: a new branch
                self.fmt_binder(b.prefix(), b.sym(), typ, body)
            },
            Exp::Prd(b) => {
                let typ = self.reset().encode(&b.typ);
                let body = self.reset().encode(&b.exp);
                self.fmt_binder(b.prefix(), b.sym(), typ, body)
            },
            Exp::Sum(b) => {
                let typ = self.reset().encode(&b.typ);
                let body = self.reset().encode(&b.exp);
                self.fmt_binder(b.prefix(), b.sym(), typ, body)
            },
            Exp::Unv(unv) => unv.to_string(),
        }
    }
}

impl Core {
    /// Decode a text to the expression that it denotes.
    ///
    /// Fails with the byte offset of the first character that starts no token, or else with
    /// the first syntax error of the tokens, or with the error met while building a binder.
    /// The parser recurses once per level of nesting of the text, so pathologically deep
    /// nesting can exhaust the call stack.
    pub fn decode(&self, val: &String) -> (r: Result<Exp, DecodeErr>)
        ensures
            match lex_error_from(val@, 0) {
                Some(j) => r == Err::<Exp, DecodeErr>(
                    DecodeErr::InvalidToken(byte_offset(val@, j) as usize),
                ),
                None => exists|t: Seq<Spanned>| lexes(val@, t) && decodes_as(r, parse(t), t),
            },
    {
        match tokenize(val.as_str()) {
            Ok(toks) => parse_tokens(&toks),
            Err(e) => Err(e),
        }
    }
}

impl Codec<String> for Core {
    fn encode(&self, exp: &Exp) -> String {
        Core::encode(self, exp)
    }

    fn decode(&self, val: &String) -> Result<Exp, DecodeErr> {
        Core::decode(self, val)
    }
}

} // verus!
