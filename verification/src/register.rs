//! The narrow registers and the status indicators of the machine.
//!
//! An index register holds a sign and two bytes, the jump register two
//! bytes under a sign that is always plus. Each stands for the word that
//! has its two bytes in the two least significant places and zeros above.

use crate::byte::{lemma_byte_of, lemma_byte_view_injective, Byte, BYTE};
use crate::sign::Sign;
use crate::word::{lemma_word_of, lemma_word_view_injective, Word, WordView};
use vstd::prelude::*;

verus! {

/// The mathematical model of a sign and two bytes: an index register, the
/// jump register under its plus sign, or an address.
pub struct ShortView {
    pub sign: Sign,
    pub digits: Seq<nat>,
}

impl ShortView {
    /// There are two digits and each is a six-bit byte.
    pub open spec fn wf(self) -> bool {
        &&& self.digits.len() == 2
        &&& self.digits[0] < 64
        &&& self.digits[1] < 64
    }

    /// The number that the two digits spell in base 64.
    pub open spec fn magnitude(self) -> nat {
        self.digits[0] * 64 + self.digits[1]
    }

    /// The word with the same sign that has the two digits in its two
    /// least significant places and zeros above.
    pub open spec fn widen(self) -> WordView {
        WordView { sign: self.sign, digits: seq![0, 0, 0, self.digits[0], self.digits[1]] }
    }

    /// The sign and the two least significant digits of a word.
    pub open spec fn narrow(w: WordView) -> ShortView {
        ShortView { sign: w.sign, digits: seq![w.digits[3], w.digits[4]] }
    }

    /// The same digits under the plus sign.
    pub open spec fn unsigned(self) -> ShortView {
        ShortView { sign: Sign::Plus, digits: self.digits }
    }

    /// Plus zero.
    pub open spec fn zero() -> ShortView {
        ShortView { sign: Sign::Plus, digits: seq![0, 0] }
    }
}

/// An index register: a sign and two bytes.
#[derive(Debug, PartialEq, Clone, Copy)]
pub struct Index {
    sign: Sign,
    bytes: [Byte; 2],
}

impl View for Index {
    type V = ShortView;

    closed spec fn view(&self) -> ShortView {
        ShortView { sign: self.sign, digits: seq![self.bytes[0]@, self.bytes[1]@] }
    }
}

impl Index {
    /// What holds of every index register that executable code can reach.
    #[verifier::type_invariant]
    pub open spec fn wf(self) -> bool {
        self@.wf()
    }

    /// The index register whose view is `v`, for a well-formed `v`.
    pub closed spec fn of(v: ShortView) -> Index {
        Index { sign: v.sign, bytes: [Byte::of(v.digits[0]), Byte::of(v.digits[1])] }
    }

    /// The index register with the given sign and bytes.
    pub fn new(sign: Sign, b0: u8, b1: u8) -> (r: Index)
        requires
            b0 < BYTE,
            b1 < BYTE,
        ensures
            r@ == (ShortView { sign, digits: seq![b0 as nat, b1 as nat] }),
            r.wf(),
    {
        Index { sign, bytes: [Byte::new(b0), Byte::new(b1)] }
    }
}

impl Default for Index {
    /// Plus zero.
    fn default() -> (r: Index)
        ensures
            r@ == ShortView::zero(),
            r.wf(),
    {
        Index::new(Sign::Plus, 0, 0)
    }
}

impl vstd::std_specs::convert::FromSpecImpl<Word> for Index {
    open spec fn obeys_from_spec() -> bool {
        true
    }

    open spec fn from_spec(word: Word) -> Index {
        Index::of(ShortView::narrow(word@))
    }
}

impl From<Word> for Index {
    /// Keeps the sign and the two least significant bytes of the word and
    /// drops the three bytes above them.
    fn from(word: Word) -> (r: Index)
        ensures
            r@ == ShortView::narrow(word@),
            r.wf(),
    {
        let r = Index { sign: word.sign(), bytes: [word.byte(3), word.byte(4)] };
        proof {
            lemma_index_of(ShortView::narrow(word@));
            lemma_index_view_injective(r, Index::of(ShortView::narrow(word@)));
        }
        r
    }
}

impl vstd::std_specs::convert::IntoSpecImpl<Word> for Index {
    open spec fn obeys_into_spec() -> bool {
        true
    }

    open spec fn into_spec(self) -> Word {
        Word::of(self@.widen())
    }
}

impl Into<Word> for Index {
    /// The word with the sign and bytes of the register under three zero
    /// bytes.
    fn into(self) -> (w: Word)
        ensures
            Word::view(&w) == self@.widen(),
            Word::wf(w),
    {
        proof {
            use_type_invariant(&self);
        }
        let w = Word::new(self.sign, 0, 0, 0, self.bytes[0].value(), self.bytes[1].value());
        proof {
            assert(w@.digits =~= self@.widen().digits);
            lemma_word_of(self@.widen());
            lemma_word_view_injective(w, Word::of(self@.widen()));
        }
        w
    }
}

/// The jump register: two bytes. Its sign is plus by convention and is not
/// stored.
#[derive(Debug, PartialEq, Clone, Copy)]
pub struct Jump {
    bytes: [Byte; 2],
}

impl View for Jump {
    type V = ShortView;

    closed spec fn view(&self) -> ShortView {
        ShortView { sign: Sign::Plus, digits: seq![self.bytes[0]@, self.bytes[1]@] }
    }
}

impl Jump {
    /// What holds of every jump register that executable code can reach.
    #[verifier::type_invariant]
    pub open spec fn wf(self) -> bool {
        self@.wf() && self@.sign == Sign::Plus
    }

    /// The jump register whose view is `v`, for a well-formed `v`.
    pub closed spec fn of(v: ShortView) -> Jump {
        Jump { bytes: [Byte::of(v.digits[0]), Byte::of(v.digits[1])] }
    }

    /// The jump register with the given bytes.
    pub fn new(b0: u8, b1: u8) -> (r: Jump)
        requires
            b0 < BYTE,
            b1 < BYTE,
        ensures
            r@ == (ShortView { sign: Sign::Plus, digits: seq![b0 as nat, b1 as nat] }),
            r.wf(),
    {
        Jump { bytes: [Byte::new(b0), Byte::new(b1)] }
    }
}

impl Default for Jump {
    /// Zero.
    fn default() -> (r: Jump)
        ensures
            r@ == ShortView::zero(),
            r.wf(),
    {
        Jump::new(0, 0)
    }
}

impl vstd::std_specs::convert::FromSpecImpl<Word> for Jump {
    open spec fn obeys_from_spec() -> bool {
        true
    }

    open spec fn from_spec(word: Word) -> Jump {
        Jump::of(ShortView::narrow(word@))
    }
}

impl From<Word> for Jump {
    /// Keeps the two least significant bytes of the word and drops the
    /// sign and the three bytes above them.
    fn from(word: Word) -> (r: Jump)
        ensures
            r@ == ShortView::narrow(word@).unsigned(),
            r.wf(),
    {
        let r = Jump { bytes: [word.byte(3), word.byte(4)] };
        proof {
            assert(r@.digits =~= ShortView::narrow(word@).unsigned().digits);
            lemma_jump_of(ShortView::narrow(word@));
            lemma_jump_view_injective(r, Jump::of(ShortView::narrow(word@)));
        }
        r
    }
}

impl vstd::std_specs::convert::IntoSpecImpl<Word> for Jump {
    open spec fn obeys_into_spec() -> bool {
        true
    }

    open spec fn into_spec(self) -> Word {
        Word::of(self@.widen())
    }
}

impl Into<Word> for Jump {
    /// The word with the bytes of the register under three zero bytes and
    /// the plus sign.
    fn into(self) -> (w: Word)
        ensures
            Word::view(&w) == self@.widen(),
            Word::view(&w).sign == Sign::Plus,
            Word::wf(w),
    {
        proof {
            use_type_invariant(&self);
        }
        let w = Word::new(Sign::Plus, 0, 0, 0, self.bytes[0].value(), self.bytes[1].value());
        proof {
            assert(w@.digits =~= self@.widen().digits);
            lemma_word_of(self@.widen());
            lemma_word_view_injective(w, Word::of(self@.widen()));
        }
        w
    }
}

/// The overflow toggle.
#[derive(Debug, PartialEq, Eq, Structural, Clone, Copy)]
pub enum Toggle {
    On,
    Off,
}

impl Toggle {
    /// On for `true`, off for `false`.
    pub open spec fn of(b: bool) -> Toggle {
        if b {
            Toggle::On
        } else {
            Toggle::Off
        }
    }
}

impl Default for Toggle {
    /// Off.
    fn default() -> (r: Toggle)
        ensures
            r == Toggle::Off,
    {
        Toggle::Off
    }
}

impl vstd::std_specs::convert::FromSpecImpl<bool> for Toggle {
    open spec fn obeys_from_spec() -> bool {
        true
    }

    open spec fn from_spec(b: bool) -> Toggle {
        Toggle::of(b)
    }
}

impl From<bool> for Toggle {
    /// On for `true`, off for `false`.
    fn from(b: bool) -> (r: Toggle)
        ensures
            r == Toggle::of(b),
    {
        if b {
            Toggle::On
        } else {
            Toggle::Off
        }
    }
}

/// The comparison indicator. No operation of this machine sets it yet.
#[derive(Debug, PartialEq, Eq, Structural, Clone, Copy)]
pub enum Comparison {
    Less,
    Equal,
    Greater,
}

impl Default for Comparison {
    /// Equal.
    fn default() -> (r: Comparison)
        ensures
            r == Comparison::Equal,
    {
        Comparison::Equal
    }
}

/// The name of one of the six index registers.
#[derive(Debug, PartialEq, Eq, Structural, Clone, Copy)]
pub enum IndexNumber {
    I1,
    I2,
    I3,
    I4,
    I5,
    I6,
}

impl IndexNumber {
    /// The place of the register among the six, counted from 0.
    pub open spec fn position(self) -> int {
        match self {
            IndexNumber::I1 => 0,
            IndexNumber::I2 => 1,
            IndexNumber::I3 => 2,
            IndexNumber::I4 => 3,
            IndexNumber::I5 => 4,
            IndexNumber::I6 => 5,
        }
    }
}

/// The name of the index register at place `n` among the six, counted from 0.
pub open spec fn index_number(n: int) -> IndexNumber {
    if n <= 0 {
        IndexNumber::I1
    } else if n == 1 {
        IndexNumber::I2
    } else if n == 2 {
        IndexNumber::I3
    } else if n == 3 {
        IndexNumber::I4
    } else if n == 4 {
        IndexNumber::I5
    } else {
        IndexNumber::I6
    }
}

/// An index register is determined by its sign and digits.
pub proof fn lemma_index_view_injective(a: Index, b: Index)
    requires
        a@ == b@,
    ensures
        a == b,
{
    assert(a@.digits[0] == b@.digits[0]);
    assert(a@.digits[1] == b@.digits[1]);
    lemma_byte_view_injective(a.bytes[0], b.bytes[0]);
    lemma_byte_view_injective(a.bytes[1], b.bytes[1]);
    assert(a.bytes =~= b.bytes);
}

/// `Index::of` builds the index register with the view asked for.
pub proof fn lemma_index_of(v: ShortView)
    requires
        v.wf(),
    ensures
        Index::of(v)@ == v,
        Index::of(v).wf(),
{
    lemma_byte_of(v.digits[0]);
    lemma_byte_of(v.digits[1]);
    assert(Index::of(v)@.digits =~= v.digits);
}

/// The jump register is determined by its digits.
pub proof fn lemma_jump_view_injective(a: Jump, b: Jump)
    requires
        a@ == b@,
    ensures
        a == b,
{
    assert(a@.digits[0] == b@.digits[0]);
    assert(a@.digits[1] == b@.digits[1]);
    lemma_byte_view_injective(a.bytes[0], b.bytes[0]);
    lemma_byte_view_injective(a.bytes[1], b.bytes[1]);
    assert(a.bytes =~= b.bytes);
}

/// `Jump::of` builds the jump register with the digits asked for, under
/// the plus sign.
pub proof fn lemma_jump_of(v: ShortView)
    requires
        v.wf(),
    ensures
        Jump::of(v)@ == v.unsigned(),
        Jump::of(v).wf(),
{
    lemma_byte_of(v.digits[0]);
    lemma_byte_of(v.digits[1]);
    assert(Jump::of(v)@.digits =~= v.digits);
}

/// Narrowing undoes widening, and widening what was narrowed keeps the two
/// least significant digits and clears the rest.
pub proof fn lemma_narrow_widen(v: ShortView, w: WordView)
    requires
        v.digits.len() == 2,
        w.digits.len() == 5,
    ensures
        ShortView::narrow(v.widen()) == v,
        ShortView::narrow(w).widen() == (WordView {
            sign: w.sign,
            digits: seq![0, 0, 0, w.digits[3], w.digits[4]],
        }),
        v.wf() ==> v.widen().wf(),
        w.wf() ==> ShortView::narrow(w).wf(),
{
    assert(ShortView::narrow(v.widen()).digits =~= v.digits);
}

} // verus!
