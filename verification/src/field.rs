//! Field specifications: which part of a word an instruction touches.
//!
//! A word has six positions: position 0 is the sign, positions 1 to 5 are
//! the bytes from the most significant down. A field specification names a
//! run of positions by its two ends, `l` and `r`, and travels inside an
//! instruction as the single byte `8 * l + r`.

use crate::byte::{lemma_byte_of, lemma_byte_of_view, lemma_byte_view_injective, Byte};
use vstd::prelude::*;
use vstd::std_specs::convert::{FromSpec, IntoSpec};

verus! {

/// The mathematical model of a field specification: the two ends of a run of
/// word positions.
pub struct FieldRange {
    pub l: nat,
    pub r: nat,
}

impl FieldRange {
    /// The two ends fit the three bits each that a byte leaves them.
    pub open spec fn encodable(self) -> bool {
        self.l < 8 && self.r < 8
    }

    /// The range lies inside a word and is not reversed.
    pub open spec fn valid(self) -> bool {
        self.l <= self.r <= 5
    }

    /// Whether the range takes in the sign position.
    pub open spec fn has_sign(self) -> bool {
        self.l == 0
    }

    /// The first byte position in the range; a range that starts at the
    /// sign starts its bytes at position 1.
    pub open spec fn first_byte(self) -> nat {
        if self.l == 0 {
            1
        } else {
            self.l
        }
    }

    /// How many byte positions the range takes in. The sign position takes
    /// up no byte, so the range (0, 0) counts none.
    pub open spec fn count(self) -> nat {
        (self.r + 1 - self.first_byte()) as nat
    }

    /// The number that stands for the range inside an instruction.
    pub open spec fn encode(self) -> nat {
        self.l * 8 + self.r
    }

    /// The range that the number `b` stands for.
    pub open spec fn decode(b: nat) -> FieldRange {
        FieldRange { l: b / 8, r: b % 8 }
    }

    /// The whole word, sign included.
    pub open spec fn whole() -> FieldRange {
        FieldRange { l: 0, r: 5 }
    }
}

/// A field specification. Its two ends are always below 8, so that it can
/// be packed into a byte and unpacked again without loss.
#[derive(Debug, PartialEq, Clone, Copy)]
pub struct Modification {
    l: u8,
    r: u8,
}

impl View for Modification {
    type V = FieldRange;

    closed spec fn view(&self) -> FieldRange {
        FieldRange { l: self.l as nat, r: self.r as nat }
    }
}

impl Modification {
    /// What holds of every field specification that executable code can
    /// reach.
    #[verifier::type_invariant]
    pub open spec fn wf(self) -> bool {
        self@.encodable()
    }

    /// The field specification whose view is `f`, for an encodable `f`.
    pub closed spec fn of(f: FieldRange) -> Modification {
        Modification { l: f.l as u8, r: f.r as u8 }
    }

    /// The field specification from position `l` to position `r`.
    pub fn field(l: u8, r: u8) -> (m: Modification)
        requires
            l < 8,
            r < 8,
        ensures
            m@ == (FieldRange { l: l as nat, r: r as nat }),
            m.wf(),
    {
        Modification { l, r }
    }

    /// The left end of the range.
    pub fn l(&self) -> (l: u8)
        ensures
            l == self@.l,
            l < 8,
    {
        proof {
            use_type_invariant(self);
        }
        self.l
    }

    /// The right end of the range.
    pub fn r(&self) -> (r: u8)
        ensures
            r == self@.r,
            r < 8,
    {
        proof {
            use_type_invariant(self);
        }
        self.r
    }

    /// Whether the range lies inside a word and is not reversed. Only such a
    /// field specification can be used to slice or merge words.
    pub fn is_valid(&self) -> (b: bool)
        ensures
            b == self@.valid(),
    {
        self.l <= self.r && self.r <= 5
    }
}

impl vstd::std_specs::convert::FromSpecImpl<Byte> for Modification {
    open spec fn obeys_from_spec() -> bool {
        true
    }

    open spec fn from_spec(b: Byte) -> Modification {
        Modification::of(FieldRange::decode(b@))
    }
}

impl From<Byte> for Modification {
    /// Unpacks a byte: the left end is the byte divided by 8, the right end
    /// is the remainder.
    fn from(b: Byte) -> (m: Modification)
        ensures
            m@ == FieldRange::decode(b@),
    {
        let v: u8 = b.value();
        Modification { l: v / 8, r: v % 8 }
    }
}

impl vstd::std_specs::convert::IntoSpecImpl<Byte> for Modification {
    open spec fn obeys_into_spec() -> bool {
        true
    }

    open spec fn into_spec(self) -> Byte {
        Byte::of(self@.encode())
    }
}

impl Into<Byte> for Modification {
    /// Packs the two ends into one byte, eight times the left end plus the
    /// right end.
    fn into(self) -> (b: Byte)
        ensures
            Byte::view(&b) == self@.encode(),
    {
        proof {
            use_type_invariant(&self);
        }
        let b = Byte::new(self.l * 8 + self.r);
        proof {
            lemma_byte_of(self@.encode());
            lemma_byte_view_injective(b, Byte::of(self@.encode()));
        }
        b
    }
}

/// A field specification is determined by its two ends.
pub proof fn lemma_modification_view_injective(a: Modification, b: Modification)
    requires
        a@ == b@,
    ensures
        a == b,
{
}

/// `Modification::of` builds the field specification with the view asked for.
pub proof fn lemma_modification_of(f: FieldRange)
    requires
        f.encodable(),
    ensures
        Modification::of(f)@ == f,
        Modification::of(f).wf(),
{
}

/// `Modification::of` gives back any field specification from its own view.
pub proof fn lemma_modification_of_view(m: Modification)
    ensures
        Modification::of(m@) == m,
{
}

/// Packing an encodable range gives a number that a byte can hold, and
/// unpacking that number gives the range back.
pub proof fn lemma_decode_encode(f: FieldRange)
    requires
        f.encodable(),
    ensures
        f.encode() < 64,
        FieldRange::decode(f.encode()) == f,
{
}

/// Unpacking a number that a byte can hold gives an encodable range, and
/// packing that range gives the number back.
pub proof fn lemma_encode_decode(b: nat)
    requires
        b < 64,
    ensures
        FieldRange::decode(b).encodable(),
        FieldRange::decode(b).encode() == b,
{
}

/// Every range that lies inside a word is encodable.
pub proof fn lemma_valid_is_encodable(f: FieldRange)
    requires
        f.valid(),
    ensures
        f.encodable(),
{
}

/// A field specification that is packed into a byte and unpacked again is
/// unchanged, and the byte it was packed into comes out of a second round
/// unchanged too.
pub proof fn lemma_field_byte_round_trip(m: Modification)
    requires
        m.wf(),
    ensures
        IntoSpec::<Byte>::into_spec(m).wf(),
        Modification::from_spec(IntoSpec::<Byte>::into_spec(m)) == m,
        IntoSpec::<Byte>::into_spec(Modification::from_spec(IntoSpec::<Byte>::into_spec(m)))
            == IntoSpec::<Byte>::into_spec(m),
{
    lemma_decode_encode(m@);
    lemma_byte_of(m@.encode());
    lemma_modification_of_view(m);
}

/// A byte that is unpacked into a field specification and packed again is
/// unchanged.
pub proof fn lemma_byte_field_round_trip(b: Byte)
    requires
        b.wf(),
    ensures
        Modification::from_spec(b).wf(),
        IntoSpec::<Byte>::into_spec(Modification::from_spec(b)) == b,
{
    lemma_encode_decode(b@);
    lemma_modification_of(FieldRange::decode(b@));
    lemma_byte_of_view(b);
}

} // verus!
