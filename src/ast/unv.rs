//! Stratified type universe.

use crate::err::SystemErr;
use vstd::prelude::*;

verus! {

/// Universe, aka *sort*, which refers to a space where types exist.
///
/// There are in principle infinitely many universes, one for each natural number, starting
/// with 0; levels above `u64::MAX` are an error. Universes are cumulative: a type that belongs
/// to a level `N` belongs to every higher level as well.
#[derive(Clone, Copy, Debug, Eq, Hash, PartialEq, PartialOrd, Ord)]
pub struct Unv {
    /// Level assigned to the universe.
    pub level: u64,
}

impl Unv {
    /// Create a new instance of a universe at level 0.
    pub fn new() -> (r: Self)
        ensures
            r.level == 0,
    {
        Self { level: 0 }
    }

    /// Create a new universe at a level higher than the current one.
    ///
    /// Fails with the current level when it is already `u64::MAX`.
    pub fn inc(&self) -> (r: Result<Self, SystemErr>)
        ensures
            self.level < u64::MAX ==> r == Ok::<Unv, SystemErr>(
                Unv { level: (self.level + 1) as u64 },
            ),
            self.level == u64::MAX ==> r == Err::<Unv, SystemErr>(
                SystemErr::MaxLimitUnv(self.level),
            ),
    {
        if self.level == u64::MAX {
            Err(SystemErr::MaxLimitUnv(self.level))
        } else {
            Ok(Self { level: self.level + 1 })
        }
    }

    /// The higher of two universes.
    pub fn max(self, other: Self) -> (r: Self)
        ensures
            r.level == if self.level >= other.level { self.level } else { other.level },
    {
        if self.level >= other.level {
            self
        } else {
            other
        }
    }

    /// Text of the universe: the box glyph, whatever the level.
    pub fn to_string(&self) -> (r: String)
        ensures
            r@ == seq!['□'],
    {
        proof {
            reveal_strlit("□");
        }
        String::from_str("□")
    }
}

impl Default for Unv {
    fn default() -> (r: Self)
        ensures
            r.level == 0,
    {
        Self::new()
    }
}

} // verus!
