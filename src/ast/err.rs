//! Error types when working with an expression.

use vstd::prelude::*;

verus! {

/// Error indicating an overflow that the system is not designed to handle.
#[derive(Clone, Debug, Eq, Hash, PartialEq)]
pub struct OverflowErr {
    /// Message explaining the overflow.
    pub msg: String,
}

/// Error indicating a syntactical or semantic error decoding a value to an expression.
pub struct DecodeErr {
    /// Message explaining the decoding error.
    pub msg: String,
}

impl OverflowErr {
    /// Text of the error, which is its message.
    pub fn to_string(&self) -> (r: String)
        ensures
            r@ == self.msg@,
    {
        self.msg.clone()
    }
}

impl DecodeErr {
    /// Text of the error, which is its message.
    pub fn to_string(&self) -> (r: String)
        ensures
            r@ == self.msg@,
    {
        self.msg.clone()
    }
}

} // verus!
