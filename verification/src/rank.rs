//! Three-way comparison results and the way they combine into
//! lexicographic orders.

use vstd::prelude::*;

verus! {

/// Where the first of two values stands relative to the second.
#[derive(Clone, Copy, Debug, PartialEq, Eq, Structural)]
pub enum Rank {
    Before,
    Same,
    After,
}

impl Rank {
    /// The rank seen from the other side.
    pub open spec fn flipped(self) -> Rank {
        match self {
            Rank::Before => Rank::After,
            Rank::Same => Rank::Same,
            Rank::After => Rank::Before,
        }
    }

    /// Lexicographic combination: `self` decides unless it is `Same`.
    pub open spec fn or(self, next: Rank) -> Rank {
        if self == Rank::Same {
            next
        } else {
            self
        }
    }

    /// Executable form of [`Rank::or`].
    pub fn or_else(self, next: Rank) -> (r: Rank)
        ensures
            r == self.or(next),
    {
        match self {
            Rank::Same => next,
            Rank::Before => Rank::Before,
            Rank::After => Rank::After,
        }
    }
}

/// Rank of two integers in their usual order.
pub open spec fn int_rank(a: int, b: int) -> Rank {
    if a < b {
        Rank::Before
    } else if a == b {
        Rank::Same
    } else {
        Rank::After
    }
}

/// Rank of two 128-bit identifiers.
pub fn rank_u128(a: u128, b: u128) -> (r: Rank)
    ensures
        r == int_rank(a as int, b as int),
{
    if a < b {
        Rank::Before
    } else if a == b {
        Rank::Same
    } else {
        Rank::After
    }
}

} // verus!
