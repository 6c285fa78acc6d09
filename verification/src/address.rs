//! Addresses of memory cells.

use crate::byte::{lemma_byte_view_injective, Byte};
use crate::error::MixError;
use crate::register::ShortView;
use crate::sign::Sign;
use vstd::prelude::*;

verus! {

/// The number of cells in the memory of the machine.
pub const MEMORY_SIZE: usize = 4000;

/// The address part of an instruction: a sign and two bytes. The two bytes
/// spell the number of a memory cell; the sign is carried along and plays no
/// part in finding the cell.
#[derive(Debug, PartialEq, Clone, Copy)]
pub struct Address {
    sign: Sign,
    bytes: [Byte; 2],
}

impl View for Address {
    type V = ShortView;

    closed spec fn view(&self) -> ShortView {
        ShortView { sign: self.sign, digits: seq![self.bytes[0]@, self.bytes[1]@] }
    }
}

/// The sign and two digits of the signed number `n`.
pub open spec fn address_of(n: int) -> ShortView {
    if n >= 0 {
        ShortView { sign: Sign::Plus, digits: seq![(n / 64) as nat, (n % 64) as nat] }
    } else {
        ShortView { sign: Sign::Minus, digits: seq![((-n) / 64) as nat, ((-n) % 64) as nat] }
    }
}

impl Address {
    /// What holds of every address that executable code can reach.
    #[verifier::type_invariant]
    pub open spec fn wf(self) -> bool {
        self@.wf()
    }

    /// The address of the cell whose number is the magnitude of `address`,
    /// under the sign of `address`. Two bytes hold magnitudes up to 4095.
    pub fn new(address: i16) -> (r: Address)
        requires
            -4096 < address < 4096,
        ensures
            r@ == address_of(address as int),
            r@.magnitude() == if address >= 0 {
                address as int
            } else {
                -address
            },
            r.wf(),
    {
        let sign = if address >= 0 {
            Sign::Plus
        } else {
            Sign::Minus
        };
        let magnitude: i16 = if address >= 0 {
            address
        } else {
            -address
        };
        let b0 = Byte::new((magnitude / 64) as u8);
        let b1 = Byte::new((magnitude % 64) as u8);
        let r = Address { sign, bytes: [b0, b1] };
        assert(r@.digits =~= address_of(address as int).digits);
        r
    }

    /// The sign that the address carries.
    pub fn sign(&self) -> (s: Sign)
        ensures
            s == self@.sign,
    {
        self.sign
    }

    /// The number of the cell that the address names.
    pub fn cell(&self) -> (c: usize)
        ensures
            c == self@.magnitude(),
            c < 4096,
    {
        proof {
            use_type_invariant(self);
        }
        self.bytes[0].value() as usize * 64 + self.bytes[1].value() as usize
    }

    /// The number of the cell that the address names, if the memory has
    /// such a cell, else the failure that says it has not.
    pub fn checked_cell(&self) -> (r: Result<usize, MixError>)
        ensures
            self@.magnitude() < MEMORY_SIZE ==> r == Ok::<usize, MixError>(
                self@.magnitude() as usize,
            ),
            self@.magnitude() >= MEMORY_SIZE ==> r == Err::<usize, MixError>(
                MixError::AddressOutOfRange { cell: self@.magnitude() as usize },
            ),
    {
        let c: usize = self.cell();
        if c < MEMORY_SIZE {
            Ok(c)
        } else {
            Err(MixError::AddressOutOfRange { cell: c })
        }
    }
}

/// An address is determined by its sign and digits.
pub proof fn lemma_address_view_injective(a: Address, b: Address)
    requires
        a@ == b@,
    ensures
        a == b,
{
    assert(a@.digits[0] == b@.digits[0]);
    assert(a@.digits[1] == b@.digits[1]);
    lemma_byte_view_injective(a.bytes[0], b.bytes[0]);
    lemma_byte_view_injective(a.bytes[1], b.bytes[1]);
    assert(a.bytes =~= b.bytes);
}

} // verus!
