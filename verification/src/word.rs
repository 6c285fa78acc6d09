//! The machine word: a sign and five six-bit bytes, most significant first.
//!
//! A word is a signed magnitude, not a two's-complement number: the sign is
//! kept beside the magnitude, so minus zero is a word of its own, equal in
//! value to plus zero and different from it as a bit pattern.

use crate::byte::{lemma_byte_of, lemma_byte_view_injective, Byte, BYTE};
use crate::field::{FieldRange, Modification};
use crate::sign::Sign;
use vstd::prelude::*;

verus! {

/// The number of bytes in a word.
pub const WORD_BYTES: u8 = 5;

/// The number of magnitudes a word can hold, 64 to the fifth power. Every
/// magnitude is below it.
pub const WORD_CAPACITY: u32 = 1073741824;

/// The mathematical model of a word: its sign and its digits in base 64,
/// most significant first.
pub struct WordView {
    pub sign: Sign,
    pub digits: Seq<nat>,
}

impl WordView {
    /// There are five digits and each is a six-bit byte.
    pub open spec fn wf(self) -> bool {
        &&& self.digits.len() == 5
        &&& forall|i: int| 0 <= i < 5 ==> #[trigger] self.digits[i] < 64
    }

    /// The number that the five digits spell in base 64.
    pub open spec fn magnitude(self) -> nat {
        self.digits[0] * 16777216 + self.digits[1] * 262144 + self.digits[2] * 4096
            + self.digits[3] * 64 + self.digits[4]
    }

    /// The number that the word stands for. Plus zero and minus zero both
    /// stand for 0.
    pub open spec fn value(self) -> int {
        self.sign.factor() * self.magnitude()
    }

    /// The word with the given sign whose digits spell `m`, for `m` below
    /// [`WORD_CAPACITY`].
    pub open spec fn of_magnitude(sign: Sign, m: nat) -> WordView {
        WordView {
            sign,
            digits: seq![
                m / 16777216 % 64,
                m / 262144 % 64,
                m / 4096 % 64,
                m / 64 % 64,
                m % 64,
            ],
        }
    }

    /// Plus zero.
    pub open spec fn zero() -> WordView {
        WordView { sign: Sign::Plus, digits: seq![0, 0, 0, 0, 0] }
    }

    /// The same magnitude under the other sign.
    pub open spec fn negate(self) -> WordView {
        WordView { sign: self.sign.flipped(), digits: self.digits }
    }

    /// The field `f` of this word as a word of its own. The bytes of the
    /// field stand at the right end, in their order, with zeros to their
    /// left. The sign is this word's sign if the field takes in the sign
    /// position, else plus.
    pub open spec fn slice(self, f: FieldRange) -> WordView {
        WordView {
            sign: if f.has_sign() {
                self.sign
            } else {
                Sign::Plus
            },
            digits: Seq::new(
                5,
                |k: int|
                    if k >= 5 - f.count() {
                        self.digits[k + f.r - 5]
                    } else {
                        0
                    },
            ),
        }
    }

    /// This word with its field `f` overwritten from `source`. The bytes
    /// come from the right end of `source`, in their order; bytes outside
    /// the field stay. The sign comes from `source` if the field takes in the
    /// sign position, else it stays.
    pub open spec fn merge(self, source: WordView, f: FieldRange) -> WordView {
        WordView {
            sign: if f.has_sign() {
                source.sign
            } else {
                self.sign
            },
            digits: Seq::new(
                5,
                |k: int|
                    if f.first_byte() <= k + 1 <= f.r {
                        source.digits[k + 5 - f.r]
                    } else {
                        self.digits[k]
                    },
            ),
        }
    }

    /// The signed-magnitude sum of two words, and whether it overflowed.
    ///
    /// Words of one sign add their magnitudes under that sign; what does not
    /// fit in five bytes is dropped and reported. Words of different signs
    /// subtract the smaller magnitude from the larger under the sign of the
    /// larger, which never overflows. When the magnitudes are equal the sum
    /// is a zero with the sign of the first word.
    pub open spec fn add(self, other: WordView) -> (WordView, bool) {
        let m1 = self.magnitude();
        let m2 = other.magnitude();
        if self.sign == other.sign {
            (
                WordView::of_magnitude(self.sign, (m1 + m2) % (WORD_CAPACITY as nat)),
                m1 + m2 >= WORD_CAPACITY,
            )
        } else if m1 < m2 {
            (WordView::of_magnitude(other.sign, (m2 - m1) as nat), false)
        } else {
            (WordView::of_magnitude(self.sign, (m1 - m2) as nat), false)
        }
    }
}

/// The number that `c` stands for in front of the digits from index `i` on:
/// `c` times 64 to the power of the number of those digits.
spec fn scaled(c: nat, i: int) -> nat {
    if i >= 5 {
        c
    } else if i == 4 {
        c * 64
    } else if i == 3 {
        c * 4096
    } else if i == 2 {
        c * 262144
    } else if i == 1 {
        c * 16777216
    } else {
        c * 1073741824
    }
}

/// The number that the digits from index `i` on spell in base 64.
spec fn low(d: Seq<nat>, i: int) -> nat {
    if i >= 5 {
        0
    } else if i == 4 {
        d[4]
    } else if i == 3 {
        d[3] * 64 + d[4]
    } else if i == 2 {
        d[2] * 4096 + d[3] * 64 + d[4]
    } else if i == 1 {
        d[1] * 262144 + d[2] * 4096 + d[3] * 64 + d[4]
    } else {
        d[0] * 16777216 + d[1] * 262144 + d[2] * 4096 + d[3] * 64 + d[4]
    }
}

/// The digits that five bytes hold.
spec fn digits_of(bytes: [Byte; 5]) -> Seq<nat> {
    Seq::new(5, |k: int| bytes[k]@)
}

/// A word of the machine.
#[derive(Debug, PartialEq, PartialOrd, Clone, Copy)]
pub struct Word {
    sign: Sign,
    bytes: [Byte; 5],
}

impl View for Word {
    type V = WordView;

    closed spec fn view(&self) -> WordView {
        WordView { sign: self.sign, digits: digits_of(self.bytes) }
    }
}

impl Word {
    /// What holds of every word that executable code can reach.
    #[verifier::type_invariant]
    pub open spec fn wf(self) -> bool {
        self@.wf()
    }

    /// The word whose view is `v`, for a well-formed `v`.
    pub closed spec fn of(v: WordView) -> Word {
        Word {
            sign: v.sign,
            bytes: [
                Byte::of(v.digits[0]),
                Byte::of(v.digits[1]),
                Byte::of(v.digits[2]),
                Byte::of(v.digits[3]),
                Byte::of(v.digits[4]),
            ],
        }
    }

    /// The word with the given sign and bytes, most significant first.
    pub fn new(sign: Sign, b0: u8, b1: u8, b2: u8, b3: u8, b4: u8) -> (w: Word)
        requires
            b0 < BYTE,
            b1 < BYTE,
            b2 < BYTE,
            b3 < BYTE,
            b4 < BYTE,
        ensures
            w@ == (WordView {
                sign,
                digits: seq![b0 as nat, b1 as nat, b2 as nat, b3 as nat, b4 as nat],
            }),
            w.wf(),
    {
        let w = Word {
            sign,
            bytes: [Byte::new(b0), Byte::new(b1), Byte::new(b2), Byte::new(b3), Byte::new(b4)],
        };
        assert(w@.digits =~= seq![b0 as nat, b1 as nat, b2 as nat, b3 as nat, b4 as nat]);
        w
    }

    /// The sign of this word.
    pub fn sign(&self) -> (s: Sign)
        ensures
            s == self@.sign,
    {
        self.sign
    }

    /// The byte at index `i`, counted from the most significant at 0.
    pub fn byte(&self, i: usize) -> (b: Byte)
        requires
            i < 5,
        ensures
            b@ == self@.digits[i as int],
            b.wf(),
    {
        proof {
            use_type_invariant(self);
            lemma_bytes_of_word(*self);
        }
        self.bytes[i]
    }

    /// Extracts the field `m` into a word of its own, right-justified.
    pub fn slice(self, m: Modification) -> (w: Word)
        requires
            m@.valid(),
        ensures
            w@ == self@.slice(m@),
            w.wf(),
    {
        proof {
            use_type_invariant(&self);
            lemma_bytes_of_word(self);
        }
        let l: u8 = m.l();
        let r: u8 = m.r();
        let sign = if l > 0 {
            Sign::default()
        } else {
            self.sign
        };
        let mut bytes = [Byte::default(); 5];
        let len: u8 = (r - l) + 1;
        let mut i: u8 = 0;
        while i < len
            invariant
                self.wf(),
                forall|k: int|
                    0 <= k < 5 ==> (#[trigger] self.bytes[k]).wf() && self.bytes[k]@
                        == self@.digits[k],
                l <= r <= 5,
                len == r - l + 1,
                i <= len,
                forall|k: int| 0 <= k < 5 ==> (#[trigger] bytes[k]).wf(),
                forall|k: int|
                    0 <= k < 5 ==> (#[trigger] bytes[k])@ == if 5 - len <= k < 5 - len + i && k
                        + r >= 5 {
                        self@.digits[k + r - 5]
                    } else {
                        0
                    },
            decreases len - i,
        {
            if l + i != 0 {
                let index_from: usize = (l + i - 1) as usize;
                let index_to: usize = (WORD_BYTES + i - len) as usize;
                bytes[index_to] = self.bytes[index_from];
            }
            i += 1;
        }
        let w = Word { sign, bytes };
        assert(w@.digits =~= self@.slice(m@).digits);
        w
    }

    /// Overwrites the field `m` of this word from the right end of `word`.
    pub fn merge(self, word: Word, m: Modification) -> (w: Word)
        requires
            m@.valid(),
        ensures
            w@ == self@.merge(word@, m@),
            w.wf(),
    {
        proof {
            use_type_invariant(&self);
            use_type_invariant(&word);
            lemma_bytes_of_word(self);
            lemma_bytes_of_word(word);
        }
        let l: u8 = m.l();
        let r: u8 = m.r();
        let sign = if l == 0 {
            word.sign
        } else {
            self.sign
        };
        let mut bytes = self.bytes;
        let len: u8 = (r - l) + 1;
        let mut i: u8 = 0;
        while i < len
            invariant
                self.wf(),
                word.wf(),
                forall|k: int|
                    0 <= k < 5 ==> (#[trigger] self.bytes[k]).wf() && self.bytes[k]@
                        == self@.digits[k],
                forall|k: int|
                    0 <= k < 5 ==> (#[trigger] word.bytes[k]).wf() && word.bytes[k]@
                        == word@.digits[k],
                l <= r <= 5,
                len == r - l + 1,
                i <= len,
                forall|k: int| 0 <= k < 5 ==> (#[trigger] bytes[k]).wf(),
                forall|k: int|
                    0 <= k < 5 ==> (#[trigger] bytes[k])@ == if l <= k + 1 < l + i {
                        word@.digits[k + 5 - r]
                    } else {
                        self@.digits[k]
                    },
            decreases len - i,
        {
            if l + i != 0 {
                let index_from: usize = (WORD_BYTES + i - len) as usize;
                let index_to: usize = (l + i - 1) as usize;
                bytes[index_to] = word.bytes[index_from];
            }
            i += 1;
        }
        let w = Word { sign, bytes };
        assert(w@.digits =~= self@.merge(word@, m@).digits);
        w
    }

    /// Whether the magnitude of this word is below that of `other`. The
    /// signs play no part.
    pub fn magnitude_less(&self, other: &Word) -> (less: bool)
        ensures
            less == (self@.magnitude() < other@.magnitude()),
    {
        proof {
            use_type_invariant(self);
            use_type_invariant(other);
            lemma_bytes_of_word(*self);
            lemma_bytes_of_word(*other);
        }
        let mut i: usize = 0;
        while i < 5
            invariant
                self.wf(),
                other.wf(),
                forall|k: int|
                    0 <= k < 5 ==> (#[trigger] self.bytes[k]).wf() && self.bytes[k]@
                        == self@.digits[k],
                forall|k: int|
                    0 <= k < 5 ==> (#[trigger] other.bytes[k]).wf() && other.bytes[k]@
                        == other@.digits[k],
                i <= 5,
                forall|k: int| 0 <= k < i ==> self@.digits[k] == other@.digits[k],
            decreases 5 - i,
        {
            let x: u8 = self.bytes[i].value();
            let y: u8 = other.bytes[i].value();
            if x != y {
                proof {
                    lemma_first_difference_decides(self@, other@, i as int);
                }
                return x < y;
            }
            i += 1;
        }
        false
    }

    /// Adds `other` to this word as signed magnitudes. The flag says that
    /// the sum did not fit in five bytes; the word then holds what is left
    /// after the carry out of the most significant byte is dropped.
    pub fn overflowing_add(self, other: Word) -> (result: (Word, bool))
        ensures
            (result.0@, result.1) == self@.add(other@),
            result.0.wf(),
    {
        if self.sign == other.sign {
            self.add_magnitude(other)
        } else if self.magnitude_less(&other) {
            (other.subtract_magnitude(self), false)
        } else {
            (self.subtract_magnitude(other), false)
        }
    }

    /// Adds the magnitude of `other` to that of this word, byte by byte from
    /// the least significant with a carry, under this word's sign.
    fn add_magnitude(self, other: Word) -> (result: (Word, bool))
        ensures
            result.0.wf(),
            result.0@ == WordView::of_magnitude(
                self@.sign,
                (self@.magnitude() + other@.magnitude()) % (WORD_CAPACITY as nat),
            ),
            result.1 == (self@.magnitude() + other@.magnitude() >= WORD_CAPACITY),
    {
        proof {
            use_type_invariant(&self);
            use_type_invariant(&other);
            lemma_bytes_of_word(self);
            lemma_bytes_of_word(other);
        }
        let mut carry: u8 = 0;
        let mut bytes = self.bytes;
        let mut i: usize = 5;
        while i > 0
            invariant
                self.wf(),
                other.wf(),
                forall|k: int|
                    0 <= k < 5 ==> (#[trigger] self.bytes[k]).wf() && self.bytes[k]@
                        == self@.digits[k],
                forall|k: int|
                    0 <= k < 5 ==> (#[trigger] other.bytes[k]).wf() && other.bytes[k]@
                        == other@.digits[k],
                i <= 5,
                carry <= 1,
                forall|k: int| 0 <= k < 5 ==> (#[trigger] bytes[k]).wf(),
                low(digits_of(bytes), i as int) + scaled(carry as nat, i as int) == low(
                    self@.digits,
                    i as int,
                ) + low(other@.digits, i as int),
            decreases i,
        {
            i -= 1;
            let x: u8 = self.bytes[i].value();
            let y: u8 = other.bytes[i].value();
            let sum: u8 = x + y + carry;
            let ghost before = digits_of(bytes);
            let ghost carry_in = carry as nat;
            bytes[i] = Byte::new(sum % BYTE);
            carry = sum / BYTE;
            proof {
                let after = digits_of(bytes);
                let j = i as int;
                assert(after[j] == (sum % 64) as nat);
                lemma_low_unchanged(before, after, j + 1);
                lemma_low_step(after, j);
                lemma_low_step(self@.digits, j);
                lemma_low_step(other@.digits, j);
                lemma_scaled_step(carry as nat, j);
                lemma_scaled_sum(x as nat, y as nat, j + 1);
                lemma_scaled_sum((x + y) as nat, carry_in, j + 1);
                lemma_scaled_sum((sum % 64) as nat, (64 * carry) as nat, j + 1);
                assert(sum == (sum % 64) + 64 * carry);
            }
        }
        let sum = Word { sign: self.sign, bytes };
        proof {
            assert(sum@.digits =~= digits_of(bytes));
            lemma_magnitude_spells_digits(sum@);
            lemma_magnitude_spells_digits(self@);
            lemma_magnitude_spells_digits(other@);
            let total = self@.magnitude() + other@.magnitude();
            assert(total == (carry as nat) * (WORD_CAPACITY as nat) + sum@.magnitude());
            vstd::arithmetic::div_mod::lemma_fundamental_div_mod_converse(
                total as int,
                WORD_CAPACITY as int,
                carry as int,
                sum@.magnitude() as int,
            );
        }
        (sum, 0 < carry)
    }

    /// Subtracts the magnitude of `other` from that of this word, byte by
    /// byte from the least significant with a borrow, under this word's
    /// sign. The magnitude of `other` must not be the larger one, so no
    /// borrow is left at the end.
    fn subtract_magnitude(self, other: Word) -> (result: Word)
        requires
            self@.magnitude() >= other@.magnitude(),
        ensures
            result.wf(),
            result@ == WordView::of_magnitude(
                self@.sign,
                (self@.magnitude() - other@.magnitude()) as nat,
            ),
    {
        proof {
            use_type_invariant(&self);
            use_type_invariant(&other);
            lemma_bytes_of_word(self);
            lemma_bytes_of_word(other);
        }
        let mut borrow: u8 = 0;
        let mut bytes = self.bytes;
        let mut i: usize = 5;
        while i > 0
            invariant
                self.wf(),
                other.wf(),
                forall|k: int|
                    0 <= k < 5 ==> (#[trigger] self.bytes[k]).wf() && self.bytes[k]@
                        == self@.digits[k],
                forall|k: int|
                    0 <= k < 5 ==> (#[trigger] other.bytes[k]).wf() && other.bytes[k]@
                        == other@.digits[k],
                i <= 5,
                borrow <= 1,
                forall|k: int| 0 <= k < 5 ==> (#[trigger] bytes[k]).wf(),
                low(digits_of(bytes), i as int) + low(other@.digits, i as int) == low(
                    self@.digits,
                    i as int,
                ) + scaled(borrow as nat, i as int),
            decreases i,
        {
            i -= 1;
            let x: u8 = self.bytes[i].value();
            let y: u8 = other.bytes[i].value();
            let ghost borrow_in = borrow as nat;
            let mut s: i16 = x as i16 - y as i16 - borrow as i16;
            if s < 0 {
                s += BYTE as i16;
                borrow = 1;
            } else {
                borrow = 0;
            }
            let ghost before = digits_of(bytes);
            bytes[i] = Byte::new(s as u8);
            proof {
                let after = digits_of(bytes);
                let j = i as int;
                assert(after[j] == s as nat);
                lemma_low_unchanged(before, after, j + 1);
                lemma_low_step(after, j);
                lemma_low_step(self@.digits, j);
                lemma_low_step(other@.digits, j);
                lemma_scaled_step(borrow as nat, j);
                lemma_scaled_sum(s as nat, y as nat, j + 1);
                lemma_scaled_sum((s + y) as nat, borrow_in, j + 1);
                lemma_scaled_sum(x as nat, (64 * borrow) as nat, j + 1);
                assert(s + y + borrow_in == x + 64 * borrow);
            }
        }
        let difference = Word { sign: self.sign, bytes };
        proof {
            assert(difference@.digits =~= digits_of(bytes));
            lemma_magnitude_spells_digits(difference@);
            lemma_magnitude_spells_digits(self@);
            lemma_magnitude_spells_digits(other@);
        }
        difference
    }
}

impl Default for Word {
    /// Plus zero.
    fn default() -> (w: Word)
        ensures
            w@ == WordView::zero(),
            w.wf(),
    {
        Word::new(Sign::Plus, 0, 0, 0, 0, 0)
    }
}

impl vstd::std_specs::ops::NegSpecImpl for Word {
    open spec fn obeys_neg_spec() -> bool {
        true
    }

    open spec fn neg_req(self) -> bool {
        true
    }

    open spec fn neg_spec(self) -> Word {
        Word::of(self@.negate())
    }
}

impl core::ops::Neg for Word {
    type Output = Word;

    /// Flips the sign and leaves the magnitude alone, so that plus zero
    /// becomes minus zero.
    fn neg(self) -> (w: Word)
        ensures
            w@ == self@.negate(),
            w.wf(),
    {
        proof {
            use_type_invariant(&self);
        }
        let w = Word { sign: self.sign.opposite(), bytes: self.bytes };
        proof {
            lemma_word_of_view(w);
        }
        w
    }
}

/// The bytes of a well-formed word are well-formed and hold its digits.
proof fn lemma_bytes_of_word(w: Word)
    requires
        w.wf(),
    ensures
        forall|k: int|
            0 <= k < 5 ==> (#[trigger] w.bytes[k]).wf() && w.bytes[k]@ == w@.digits[k],
{
    assert forall|k: int| 0 <= k < 5 implies (#[trigger] w.bytes[k]).wf() && w.bytes[k]@
        == w@.digits[k] by {
        assert(w@.digits[k] < 64);
    }
}

/// The digits from `i` on spell the same number in two sequences that agree
/// from `i` on.
proof fn lemma_low_unchanged(d: Seq<nat>, e: Seq<nat>, i: int)
    requires
        0 <= i <= 5,
        d.len() == 5,
        e.len() == 5,
        forall|k: int| i <= k < 5 ==> d[k] == e[k],
    ensures
        low(d, i) == low(e, i),
{
}

/// The digits from `i` on spell the digit at `i`, scaled past the digits
/// that follow it, plus what those spell.
proof fn lemma_low_step(d: Seq<nat>, i: int)
    requires
        0 <= i < 5,
    ensures
        low(d, i) == scaled(d[i], i + 1) + low(d, i + 1),
{
}

/// Scaling past one digit more multiplies by 64.
proof fn lemma_scaled_step(c: nat, i: int)
    requires
        0 <= i < 5,
    ensures
        scaled(c, i) == scaled(64 * c, i + 1),
{
}

/// Scaling distributes over a sum.
proof fn lemma_scaled_sum(x: nat, y: nat, i: int)
    ensures
        scaled(x + y, i) == scaled(x, i) + scaled(y, i),
{
}

/// Where two well-formed words agree on the digits before index `i` and
/// differ at `i`, the digit at `i` decides which magnitude is smaller.
proof fn lemma_first_difference_decides(a: WordView, b: WordView, i: int)
    requires
        a.wf(),
        b.wf(),
        0 <= i < 5,
        forall|k: int| 0 <= k < i ==> a.digits[k] == b.digits[k],
        a.digits[i] != b.digits[i],
    ensures
        (a.digits[i] < b.digits[i]) == (a.magnitude() < b.magnitude()),
{
    assert(a.digits[0] < 64 && a.digits[1] < 64 && a.digits[2] < 64 && a.digits[3] < 64
        && a.digits[4] < 64);
    assert(b.digits[0] < 64 && b.digits[1] < 64 && b.digits[2] < 64 && b.digits[3] < 64
        && b.digits[4] < 64);
    if i == 0 {
    } else if i == 1 {
        assert(a.digits[0] == b.digits[0]);
    } else if i == 2 {
        assert(a.digits[0] == b.digits[0]);
        assert(a.digits[1] == b.digits[1]);
    } else if i == 3 {
        assert(a.digits[0] == b.digits[0]);
        assert(a.digits[1] == b.digits[1]);
        assert(a.digits[2] == b.digits[2]);
    } else {
        assert(a.digits[0] == b.digits[0]);
        assert(a.digits[1] == b.digits[1]);
        assert(a.digits[2] == b.digits[2]);
        assert(a.digits[3] == b.digits[3]);
    }
}

/// A word is determined by its sign and digits.
pub proof fn lemma_word_view_injective(a: Word, b: Word)
    requires
        a@ == b@,
    ensures
        a == b,
{
    assert forall|k: int| 0 <= k < 5 implies a.bytes[k] == b.bytes[k] by {
        assert(a@.digits[k] == b@.digits[k]);
        assert(a.bytes[k]@ == digits_of(a.bytes)[k]);
        assert(b.bytes[k]@ == digits_of(b.bytes)[k]);
        lemma_byte_view_injective(a.bytes[k], b.bytes[k]);
    }
    assert(a.bytes =~= b.bytes);
}

/// `Word::of` builds the word with the view asked for.
pub proof fn lemma_word_of(v: WordView)
    requires
        v.wf(),
    ensures
        Word::of(v)@ == v,
        Word::of(v).wf(),
{
    lemma_byte_of(v.digits[0]);
    lemma_byte_of(v.digits[1]);
    lemma_byte_of(v.digits[2]);
    lemma_byte_of(v.digits[3]);
    lemma_byte_of(v.digits[4]);
    assert(Word::of(v)@.digits =~= v.digits);
}

/// `Word::of` gives back any well-formed word from its own view.
pub proof fn lemma_word_of_view(w: Word)
    requires
        w.wf(),
    ensures
        Word::of(w@) == w,
{
    lemma_word_of(w@);
    lemma_word_view_injective(Word::of(w@), w);
}

/// The magnitude of a well-formed word fits in five bytes, and the digits
/// can be read back from it: a word is determined by its sign and magnitude.
pub proof fn lemma_magnitude_spells_digits(w: WordView)
    requires
        w.wf(),
    ensures
        w.magnitude() < WORD_CAPACITY,
        WordView::of_magnitude(w.sign, w.magnitude()) == w,
{
    let d0 = w.digits[0] as int;
    let d1 = w.digits[1] as int;
    let d2 = w.digits[2] as int;
    let d3 = w.digits[3] as int;
    let d4 = w.digits[4] as int;
    assert(d0 < 64 && d1 < 64 && d2 < 64 && d3 < 64 && d4 < 64);
    let m = w.magnitude() as int;
    vstd::arithmetic::div_mod::lemma_fundamental_div_mod_converse(
        m,
        64,
        d0 * 262144 + d1 * 4096 + d2 * 64 + d3,
        d4,
    );
    vstd::arithmetic::div_mod::lemma_fundamental_div_mod_converse(
        m / 64,
        64,
        d0 * 4096 + d1 * 64 + d2,
        d3,
    );
    vstd::arithmetic::div_mod::lemma_fundamental_div_mod_converse(
        m,
        4096,
        d0 * 4096 + d1 * 64 + d2,
        d3 * 64 + d4,
    );
    vstd::arithmetic::div_mod::lemma_fundamental_div_mod_converse(
        m / 4096,
        64,
        d0 * 64 + d1,
        d2,
    );
    vstd::arithmetic::div_mod::lemma_fundamental_div_mod_converse(
        m,
        262144,
        d0 * 64 + d1,
        d2 * 4096 + d3 * 64 + d4,
    );
    vstd::arithmetic::div_mod::lemma_fundamental_div_mod_converse(m / 262144, 64, d0, d1);
    vstd::arithmetic::div_mod::lemma_fundamental_div_mod_converse(
        m,
        16777216,
        d0,
        d1 * 262144 + d2 * 4096 + d3 * 64 + d4,
    );
    vstd::arithmetic::div_mod::lemma_fundamental_div_mod_converse(m / 16777216, 64, 0, d0);
    assert(WordView::of_magnitude(w.sign, w.magnitude()).digits =~= w.digits);
}

/// Every number below the capacity is the magnitude of the well-formed word
/// that `of_magnitude` builds from it.
pub proof fn lemma_digits_spell_magnitude(sign: Sign, m: nat)
    requires
        m < WORD_CAPACITY,
    ensures
        WordView::of_magnitude(sign, m).wf(),
        WordView::of_magnitude(sign, m).magnitude() == m,
        WordView::of_magnitude(sign, m).sign == sign,
{
    let w = WordView::of_magnitude(sign, m);
    let x = m as int;
    let q1 = x / 64;
    let q2 = x / 4096;
    let q3 = x / 262144;
    let q4 = x / 16777216;
    vstd::arithmetic::div_mod::lemma_fundamental_div_mod(x, 64);
    vstd::arithmetic::div_mod::lemma_fundamental_div_mod(q1, 64);
    vstd::arithmetic::div_mod::lemma_fundamental_div_mod(q2, 64);
    vstd::arithmetic::div_mod::lemma_fundamental_div_mod(q3, 64);
    vstd::arithmetic::div_mod::lemma_div_denominator(x, 64, 64);
    vstd::arithmetic::div_mod::lemma_div_denominator(x, 4096, 64);
    vstd::arithmetic::div_mod::lemma_div_denominator(x, 262144, 64);
    assert(q1 / 64 == q2);
    assert(q2 / 64 == q3);
    assert(q3 / 64 == q4);
    vstd::arithmetic::div_mod::lemma_fundamental_div_mod(x, 16777216);
    assert(0 <= q4 < 64);
    vstd::arithmetic::div_mod::lemma_fundamental_div_mod_converse(q4, 64, 0, q4);
    assert(w.digits[0] == q4 % 64);
    assert(w.digits[1] == q3 % 64);
    assert(w.digits[2] == q2 % 64);
    assert(w.digits[3] == q1 % 64);
    assert(w.digits[4] == x % 64);
}

/// Slicing and merging keep words well-formed.
pub proof fn lemma_slice_merge_wf(w: WordView, source: WordView, f: FieldRange)
    requires
        w.wf(),
        source.wf(),
        f.valid(),
    ensures
        w.slice(f).wf(),
        w.merge(source, f).wf(),
        w.negate().wf(),
{
    assert forall|i: int| 0 <= i < 5 implies #[trigger] w.slice(f).digits[i] < 64 by {
        if i >= 5 - f.count() {
            assert(w.digits[i + f.r - 5] < 64);
        }
    }
    assert forall|i: int| 0 <= i < 5 implies #[trigger] w.merge(source, f).digits[i] < 64 by {
        if f.first_byte() <= i + 1 <= f.r {
            assert(source.digits[i + 5 - f.r] < 64);
        } else {
            assert(w.digits[i] < 64);
        }
    }
}

/// A field that was sliced out of a word and is merged back into the same
/// word under the same field specification leaves the word as it was.
pub proof fn lemma_merge_of_slice(w: WordView, f: FieldRange)
    requires
        w.digits.len() == 5,
        f.valid(),
    ensures
        w.merge(w.slice(f), f) == w,
{
    assert(w.merge(w.slice(f), f).digits =~= w.digits);
}

/// For every word and every valid field specification, slicing the field
/// out of the word and merging it back gives the word itself.
pub proof fn lemma_merge_after_slice(w: Word, m: Modification)
    requires
        w.wf(),
        m@.valid(),
    ensures
        w@.merge(w@.slice(m@), m@) == w@,
{
    lemma_merge_of_slice(w@, m@);
}

/// The whole-word field takes everything: slicing by it gives the word
/// itself, and merging by it gives the source.
pub proof fn lemma_whole_field(w: WordView, source: WordView)
    requires
        w.digits.len() == 5,
        source.digits.len() == 5,
    ensures
        w.slice(FieldRange::whole()) == w,
        w.merge(source, FieldRange::whole()) == source,
{
    assert(w.slice(FieldRange::whole()).digits =~= w.digits);
    assert(w.merge(source, FieldRange::whole()).digits =~= source.digits);
}

/// The field (0, 0) is the sign alone: slicing by it gives a zero magnitude
/// under the sign of the word, and merging by it replaces only the sign.
pub proof fn lemma_sign_field(w: WordView, source: WordView)
    requires
        w.digits.len() == 5,
    ensures
        w.slice(FieldRange { l: 0, r: 0 }) == (WordView { sign: w.sign, digits: seq![0, 0, 0, 0, 0] }),
        w.merge(source, FieldRange { l: 0, r: 0 }) == (WordView {
            sign: source.sign,
            digits: w.digits,
        }),
{
    let f = FieldRange { l: 0, r: 0 };
    assert(w.slice(f).digits =~= seq![0, 0, 0, 0, 0]);
    assert(w.merge(source, f).digits =~= w.digits);
}

/// Negation keeps the magnitude, flips the value, and undoes itself. Minus
/// zero and plus zero differ, though both stand for 0.
pub proof fn lemma_negate(w: WordView)
    ensures
        w.negate().magnitude() == w.magnitude(),
        w.negate().value() == -w.value(),
        w.negate().negate() == w,
        w.negate() != w,
        WordView::zero().negate().value() == WordView::zero().value(),
{
}

/// The sum of two well-formed words is well-formed. Signs, magnitudes and
/// the overflow flag are as signed-magnitude addition has them.
pub proof fn lemma_add_magnitude(a: WordView, b: WordView)
    requires
        a.wf(),
        b.wf(),
    ensures
        a.add(b).0.wf(),
        a.sign == b.sign ==> {
            &&& a.add(b).0.sign == a.sign
            &&& a.add(b).0.magnitude() == (a.magnitude() + b.magnitude()) % (WORD_CAPACITY as nat)
            &&& a.add(b).1 == (a.magnitude() + b.magnitude() >= WORD_CAPACITY)
        },
        a.sign != b.sign && a.magnitude() < b.magnitude() ==> {
            &&& a.add(b).0.sign == b.sign
            &&& a.add(b).0.magnitude() == b.magnitude() - a.magnitude()
            &&& !a.add(b).1
        },
        a.sign != b.sign && a.magnitude() >= b.magnitude() ==> {
            &&& a.add(b).0.sign == a.sign
            &&& a.add(b).0.magnitude() == a.magnitude() - b.magnitude()
            &&& !a.add(b).1
        },
{
    lemma_magnitude_spells_digits(a);
    lemma_magnitude_spells_digits(b);
    let m1 = a.magnitude();
    let m2 = b.magnitude();
    if a.sign == b.sign {
        vstd::arithmetic::div_mod::lemma_mod_pos_bound((m1 + m2) as int, WORD_CAPACITY as int);
        lemma_digits_spell_magnitude(a.sign, (m1 + m2) % (WORD_CAPACITY as nat));
    } else if m1 < m2 {
        lemma_digits_spell_magnitude(b.sign, (m2 - m1) as nat);
    } else {
        lemma_digits_spell_magnitude(a.sign, (m1 - m2) as nat);
    }
}

/// What the signs and magnitudes of a sum say of its value.
proof fn lemma_value_of_sum(sa: Sign, sb: Sign, ss: Sign, m1: int, m2: int, ms: int, over: bool)
    requires
        0 <= m1 < WORD_CAPACITY,
        0 <= m2 < WORD_CAPACITY,
        sa == sb ==> ss == sa && ms == (m1 + m2) % (WORD_CAPACITY as int) && over == (m1 + m2
            >= WORD_CAPACITY),
        sa != sb && m1 < m2 ==> ss == sb && ms == m2 - m1 && !over,
        sa != sb && m1 >= m2 ==> ss == sa && ms == m1 - m2 && !over,
    ensures
        !over ==> ss.factor() * ms == sa.factor() * m1 + sb.factor() * m2,
        over ==> ss.factor() * ms == sa.factor() * m1 + sb.factor() * m2 - sa.factor()
            * WORD_CAPACITY,
{
    if sa == sb {
        if m1 + m2 >= WORD_CAPACITY {
            vstd::arithmetic::div_mod::lemma_fundamental_div_mod_converse(
                m1 + m2,
                WORD_CAPACITY as int,
                1,
                m1 + m2 - WORD_CAPACITY,
            );
        } else {
            vstd::arithmetic::div_mod::lemma_fundamental_div_mod_converse(
                m1 + m2,
                WORD_CAPACITY as int,
                0,
                m1 + m2,
            );
        }
    }
}

/// A sum that did not overflow stands for the sum of the two values. A sum
/// that overflowed is off by exactly the capacity of a word, towards zero.
pub proof fn lemma_add_value(a: WordView, b: WordView)
    requires
        a.wf(),
        b.wf(),
    ensures
        !a.add(b).1 ==> a.add(b).0.value() == a.value() + b.value(),
        a.add(b).1 ==> a.add(b).0.value() == a.value() + b.value() - a.sign.factor()
            * WORD_CAPACITY,
{
    lemma_add_magnitude(a, b);
    lemma_magnitude_spells_digits(a);
    lemma_magnitude_spells_digits(b);
    let sum = a.add(b).0;
    lemma_value_of_sum(
        a.sign,
        b.sign,
        sum.sign,
        a.magnitude() as int,
        b.magnitude() as int,
        sum.magnitude() as int,
        a.add(b).1,
    );
}

/// Words of different signs never overflow when added.
pub proof fn lemma_add_opposite_signs(a: WordView, b: WordView)
    requires
        a.sign != b.sign,
    ensures
        !a.add(b).1,
{
}

/// Two words of equal magnitude and different signs add up to a zero that
/// carries the sign of the first word, without overflow.
pub proof fn lemma_add_cancels(a: WordView, b: WordView)
    requires
        a.sign != b.sign,
        a.magnitude() == b.magnitude(),
    ensures
        a.add(b) == (WordView { sign: a.sign, digits: seq![0, 0, 0, 0, 0] }, false),
{
    assert(WordView::of_magnitude(a.sign, 0).digits =~= seq![0, 0, 0, 0, 0]);
}

} // verus!
