//! The sign of a signed-magnitude quantity.

use vstd::prelude::*;

verus! {

/// Plus or minus. A sign is stored beside a magnitude, so a zero magnitude
/// can carry either sign.
#[derive(Debug, PartialEq, Eq, Structural, PartialOrd, Clone, Copy)]
pub enum Sign {
    Minus,
    Plus,
}

impl Sign {
    /// The other sign.
    pub open spec fn flipped(self) -> Sign {
        match self {
            Sign::Plus => Sign::Minus,
            Sign::Minus => Sign::Plus,
        }
    }

    /// The factor by which a sign scales a magnitude: 1 for plus, -1 for minus.
    pub open spec fn factor(self) -> int {
        match self {
            Sign::Plus => 1,
            Sign::Minus => -1,
        }
    }

    /// Toggles plus and minus.
    pub fn opposite(&self) -> (r: Sign)
        ensures
            r == self.flipped(),
    {
        match self {
            Sign::Plus => Sign::Minus,
            Sign::Minus => Sign::Plus,
        }
    }
}

impl Default for Sign {
    /// Plus.
    fn default() -> (r: Sign)
        ensures
            r == Sign::Plus,
    {
        Sign::Plus
    }
}

/// Flipping a sign twice gives it back, and a flipped sign differs from the
/// one it came from.
pub proof fn lemma_flipped_twice(s: Sign)
    ensures
        s.flipped().flipped() == s,
        s.flipped() != s,
        s.flipped().factor() == -s.factor(),
{
}

} // verus!
