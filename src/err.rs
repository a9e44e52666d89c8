//! Top-level error types.

use crate::ast::{decimal, write_decimal};
use crate::enc::grammar::texts;
use crate::enc::lex::{tok_text, Tok};
use vstd::prelude::*;

verus! {

/// Error indicating a situation that the system is not designed to handle.
#[derive(Clone, Copy, Debug, Eq, Hash, PartialEq)]
pub enum SystemErr {
    /// Maximum limit for indices associated with bound variables has been reached.
    MaxLimitIdx(u64),
    /// Maximum limit for universe levels has been reached.
    MaxLimitUnv(u64),
}

/// Error indicating a syntactic or semantic error decoding a value to an expression.
#[derive(Clone, Debug, Eq, Hash, PartialEq)]
pub enum DecodeErr {
    /// Additional tokens were expected by the grammar but the stream ended abruptly.
    EndOfStream(usize, Vec<String>),
    /// Token is not valid according to the lexer.
    InvalidToken(usize),
    /// Valid token was found but a different one (or none at all) was expected.
    UnexpectedToken(Tok, usize, usize, Vec<String>),
    /// A [SystemErr] was encountered while decoding the value.
    SystemErr(SystemErr),
}

/// The texts of `v`, with `sep` between each two of them.
pub open spec fn joined(v: Seq<Seq<char>>, sep: Seq<char>) -> Seq<char>
    decreases v.len(),
{
    if v.len() == 0 {
        seq![]
    } else if v.len() == 1 {
        v[0]
    } else {
        joined(v.drop_last(), sep) + sep + v.last()
    }
}

/// Text of a system error.
pub open spec fn system_text(e: SystemErr) -> Seq<char> {
    match e {
        SystemErr::MaxLimitIdx(l) => "max limit "@ + decimal(l as nat) + " for indices has been reached"@,
        SystemErr::MaxLimitUnv(l) => "max limit "@ + decimal(l as nat)
            + " for universe levels has been reached"@,
    }
}

/// Text of the list of expected tokens: the names separated by bars.
pub open spec fn expected_text(v: Vec<String>) -> Seq<char> {
    joined(texts(v), " | "@)
}

/// Text of a decode error.
pub open spec fn decode_text(e: DecodeErr) -> Seq<char> {
    match e {
        DecodeErr::EndOfStream(loc, exp) => "unexpected end of stream, at location: "@ + decimal(
            loc as nat,
        ) + ", expected: "@ + expected_text(exp),
        DecodeErr::InvalidToken(loc) => "invalid token, at location "@ + decimal(loc as nat),
        DecodeErr::UnexpectedToken(tok, sloc, eloc, exp) => "unexpected token: "@ + tok_text(tok)
            + ", at location: "@ + decimal(sloc as nat) + ".."@ + decimal(eloc as nat)
            + ", expected: "@ + if exp@.len() == 0 {
            "none"@
        } else {
            expected_text(exp)
        },
        DecodeErr::SystemErr(err) => system_text(err),
    }
}

/// The names in `v`, with `sep` between each two of them.
fn join(v: &Vec<String>, sep: &str) -> (r: String)
    ensures
        r@ == joined(texts(*v), sep@),
{
    let mut r = String::new();
    let mut i: usize = 0;
    while i < v.len()
        invariant
            i <= v@.len(),
            r@ == joined(texts(*v).take(i as int), sep@),
        decreases v@.len() - i,
    {
        proof {
            let t = texts(*v).take(i as int + 1);
            assert(t.drop_last() =~= texts(*v).take(i as int));
        }
        if i > 0 {
            r.append(sep);
        }
        r.append(v[i].as_str());
        i = i + 1;
        proof {
            if i == 1 {
                assert(r@ =~= joined(texts(*v).take(1), sep@));
            }
        }
    }
    assert(texts(*v).take(i as int) =~= texts(*v));
    r
}

impl SystemErr {
    /// Text of the error, naming the limit that was reached.
    pub fn to_string(&self) -> (r: String)
        ensures
            r@ == system_text(*self),
    {
        match self {
            SystemErr::MaxLimitIdx(lim) => {
                let mut s = String::from_str("max limit ");
                s.append(write_decimal(*lim).as_str());
                s.append(" for indices has been reached");
                s
            },
            SystemErr::MaxLimitUnv(lim) => {
                let mut s = String::from_str("max limit ");
                s.append(write_decimal(*lim).as_str());
                s.append(" for universe levels has been reached");
                s
            },
        }
    }
}

impl DecodeErr {
    /// Text of the error, with the locations and the tokens that were expected.
    pub fn to_string(&self) -> (r: String)
        ensures
            r@ == decode_text(*self),
    {
        match self {
            DecodeErr::EndOfStream(sloc, expected) => {
                let mut s = String::from_str("unexpected end of stream, at location: ");
                s.append(write_decimal(*sloc as u64).as_str());
                s.append(", expected: ");
                s.append(join(expected, " | ").as_str());
                s
            },
            DecodeErr::InvalidToken(sloc) => {
                let mut s = String::from_str("invalid token, at location ");
                s.append(write_decimal(*sloc as u64).as_str());
                s
            },
            DecodeErr::UnexpectedToken(tok, sloc, eloc, expected) => {
                let mut s = String::from_str("unexpected token: ");
                s.append(tok.to_string().as_str());
                s.append(", at location: ");
                s.append(write_decimal(*sloc as u64).as_str());
                s.append("..");
                s.append(write_decimal(*eloc as u64).as_str());
                s.append(", expected: ");
                if expected.len() == 0 {
                    s.append("none");
                } else {
                    s.append(join(expected, " | ").as_str());
                }
                s
            },
            DecodeErr::SystemErr(err) => err.to_string(),
        }
    }
}

} // verus!
