//! The six-bit byte, the unit a word is built from.

use crate::error::MixError;
use vstd::prelude::*;

verus! {

/// The number of values a byte can take. Every byte is below it.
pub const BYTE: u8 = 64;

/// A six-bit magnitude. Its view is the number it holds, which is always
/// below [`BYTE`].
#[derive(Debug, PartialEq, PartialOrd, Clone, Copy)]
pub struct Byte(u8);

impl View for Byte {
    type V = nat;

    closed spec fn view(&self) -> nat {
        self.0 as nat
    }
}

impl Byte {
    /// What holds of every byte that executable code can reach.
    #[verifier::type_invariant]
    pub open spec fn wf(self) -> bool {
        self@ < BYTE
    }

    /// The byte whose view is `n`, for `n` below [`BYTE`].
    pub closed spec fn of(n: nat) -> Byte {
        Byte(n as u8)
    }

    /// The byte that holds `b`.
    pub fn new(b: u8) -> (r: Byte)
        requires
            b < BYTE,
        ensures
            r@ == b,
            r.wf(),
    {
        Byte(b)
    }

    /// The byte that holds `b`, or the failure that says `b` is no byte.
    pub fn try_new(b: u8) -> (r: Result<Byte, MixError>)
        ensures
            b < BYTE ==> r is Ok && r->Ok_0@ == b && r->Ok_0.wf(),
            b >= BYTE ==> r == Err::<Byte, MixError>(MixError::InvalidByte { value: b }),
    {
        if b < BYTE {
            Ok(Byte(b))
        } else {
            Err(MixError::InvalidByte { value: b })
        }
    }

    /// The number this byte holds.
    pub fn value(&self) -> (v: u8)
        ensures
            v == self@,
            v < BYTE,
            self.wf(),
    {
        proof {
            use_type_invariant(self);
        }
        self.0
    }
}

impl Default for Byte {
    /// The zero byte.
    fn default() -> (r: Byte)
        ensures
            r@ == 0,
            r.wf(),
    {
        Byte(0)
    }
}

/// A byte is determined by the number it holds.
pub proof fn lemma_byte_view_injective(a: Byte, b: Byte)
    requires
        a@ == b@,
    ensures
        a == b,
{
}

/// `Byte::of` builds the byte with the view asked for, and gives back any
/// byte from its own view.
pub proof fn lemma_byte_of(n: nat)
    requires
        n < BYTE,
    ensures
        Byte::of(n)@ == n,
        Byte::of(n).wf(),
{
}

/// `Byte::of` gives back any byte from its own view.
pub proof fn lemma_byte_of_view(b: Byte)
    ensures
        Byte::of(b@) == b,
{
}

} // verus!
