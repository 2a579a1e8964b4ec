//! Sample representations.
//!
//! A stream carries samples in exactly one representation: signed 16-bit, unsigned
//! 16-bit, or 32-bit IEEE 754 binary, the last held here by its bit pattern. Each
//! representation says where its zero is, how two samples compare, and how a sample
//! travels through the ring buffer as a 32-bit word.

use vstd::prelude::*;

verus! {

/// Words below this value have a clear top bit.
pub const SIGN_BIT: u32 = 0x8000_0000;

/// The magnitude bits of positive infinity; larger magnitudes are not numbers.
pub const INFINITY_BITS: u32 = 0x7f80_0000;

/// What a sample representation must offer to be summarised and transported.
pub trait Sample: Copy + Sized {
    /// Whether the sample takes part in comparisons. Only a binary32 pattern that
    /// is not a number does not.
    spec fn ordered(self) -> bool;

    /// The sample's place among the values of its representation: `a` is less than
    /// `b` exactly when both are ordered and `a.rank() < b.rank()`.
    spec fn rank(self) -> int;

    /// The word that carries the sample through the ring buffer.
    spec fn word(self) -> u32;

    /// The sample that a word stands for. Every word stands for some sample.
    spec fn of_word(word: u32) -> Self;

    /// The representation's zero value.
    spec fn origin() -> Self;

    /// Decoding undoes encoding.
    proof fn lemma_word_round_trip(self)
        ensures
            Self::of_word(self.word()) == self,
    ;

    /// Zero is ordered, ranks 0 and travels as the zero word.
    proof fn lemma_origin()
        ensures
            Self::origin().ordered(),
            Self::origin().rank() == 0,
            Self::origin().word() == 0,
    ;

    /// The representation's zero value.
    fn zero() -> (z: Self)
        ensures
            z == Self::origin(),
    ;

    /// Strict comparison, false whenever either side is not ordered.
    fn below(self, other: Self) -> (b: bool)
        ensures
            b == (self.ordered() && other.ordered() && self.rank() < other.rank()),
    ;

    /// Encodes the sample for transport.
    fn to_word(self) -> (w: u32)
        ensures
            w == self.word(),
    ;

    /// Decodes a transported word.
    fn from_word(word: u32) -> (s: Self)
        ensures
            s == Self::of_word(word),
    ;
}

impl Sample for i16 {
    open spec fn ordered(self) -> bool {
        true
    }

    open spec fn rank(self) -> int {
        self as int
    }

    /// The sample's sixteen bits in two's complement, the upper half of the word clear.
    open spec fn word(self) -> u32 {
        if self >= 0 {
            self as u32
        } else {
            (self + 0x1_0000) as u32
        }
    }

    /// Only the lower half of the word counts.
    open spec fn of_word(word: u32) -> i16 {
        let low = word as int % 0x1_0000;
        if low < 0x8000 {
            low as i16
        } else {
            (low - 0x1_0000) as i16
        }
    }

    open spec fn origin() -> i16 {
        0
    }

    proof fn lemma_word_round_trip(self) {
    }

    proof fn lemma_origin() {
    }

    fn zero() -> (z: i16) {
        0
    }

    fn below(self, other: i16) -> (b: bool) {
        self < other
    }

    fn to_word(self) -> (w: u32) {
        if self >= 0 {
            self as u32
        } else {
            (self as i32 + 0x1_0000) as u32
        }
    }

    fn from_word(word: u32) -> (s: i16) {
        let low: u32 = word % 0x1_0000;
        if low < 0x8000 {
            low as i16
        } else {
            (low as i32 - 0x1_0000) as i16
        }
    }
}

impl Sample for u16 {
    open spec fn ordered(self) -> bool {
        true
    }

    open spec fn rank(self) -> int {
        self as int
    }

    open spec fn word(self) -> u32 {
        self as u32
    }

    /// Only the lower half of the word counts.
    open spec fn of_word(word: u32) -> u16 {
        (word as int % 0x1_0000) as u16
    }

    open spec fn origin() -> u16 {
        0
    }

    proof fn lemma_word_round_trip(self) {
    }

    proof fn lemma_origin() {
    }

    fn zero() -> (z: u16) {
        0
    }

    fn below(self, other: u16) -> (b: bool) {
        self < other
    }

    fn to_word(self) -> (w: u32) {
        self as u32
    }

    fn from_word(word: u32) -> (s: u16) {
        (word % 0x1_0000) as u16
    }
}

/// An IEEE 754 binary32 sample, held by its bit pattern: one sign bit, then the
/// magnitude. Patterns whose magnitude exceeds that of infinity are not numbers and
/// compare with nothing; the two zeros compare equal.
#[derive(Clone, Copy, Debug, PartialEq, Eq, Structural)]
pub struct Binary32 {
    pub bits: u32,
}

impl Binary32 {
    /// The magnitude bits: the pattern without its sign.
    pub open spec fn magnitude(self) -> int {
        self.bits as int % SIGN_BIT as int
    }

    /// Whether the sign bit is set.
    pub open spec fn negative(self) -> bool {
        self.bits >= SIGN_BIT
    }

    /// Wraps a bit pattern.
    pub fn from_bits(bits: u32) -> (s: Binary32)
        ensures
            s.bits == bits,
    {
        Binary32 { bits }
    }

    /// The bit pattern.
    pub fn to_bits(self) -> (bits: u32)
        ensures
            bits == self.bits,
    {
        self.bits
    }

    /// Whether the pattern is a number (finite or infinite).
    pub fn is_number(self) -> (b: bool)
        ensures
            b == self.ordered(),
    {
        self.bits % SIGN_BIT <= INFINITY_BITS
    }
}

impl Sample for Binary32 {
    open spec fn ordered(self) -> bool {
        self.magnitude() <= INFINITY_BITS
    }

    /// Sign and magnitude read as an integer, so that both zeros rank 0.
    open spec fn rank(self) -> int {
        if self.negative() {
            -self.magnitude()
        } else {
            self.magnitude()
        }
    }

    open spec fn word(self) -> u32 {
        self.bits
    }

    open spec fn of_word(word: u32) -> Binary32 {
        Binary32 { bits: word }
    }

    /// Positive zero.
    open spec fn origin() -> Binary32 {
        Binary32 { bits: 0 }
    }

    proof fn lemma_word_round_trip(self) {
    }

    proof fn lemma_origin() {
    }

    fn zero() -> (z: Binary32) {
        Binary32 { bits: 0 }
    }

    fn below(self, other: Binary32) -> (b: bool) {
        if !self.is_number() || !other.is_number() {
            return false;
        }
        let a: u32 = self.bits % SIGN_BIT;
        let b: u32 = other.bits % SIGN_BIT;
        if self.bits >= SIGN_BIT {
            if other.bits >= SIGN_BIT {
                b < a
            } else {
                a > 0 || b > 0
            }
        } else {
            other.bits < SIGN_BIT && a < b
        }
    }

    fn to_word(self) -> (w: u32) {
        self.bits
    }

    fn from_word(word: u32) -> (s: Binary32) {
        Binary32 { bits: word }
    }
}

/// The words that carry a sequence of samples.
pub open spec fn encoded<T: Sample>(samples: Seq<T>) -> Seq<u32> {
    Seq::new(samples.len(), |i: int| samples[i].word())
}

/// The samples that a sequence of transported words stands for.
pub open spec fn decoded<T: Sample>(words: Seq<u32>) -> Seq<T> {
    Seq::new(words.len(), |i: int| T::of_word(words[i]))
}

/// Samples arrive as they were sent: decoding their words gives them back.
pub proof fn lemma_transport_round_trip<T: Sample>(samples: Seq<T>)
    ensures
        decoded::<T>(encoded(samples)) == samples,
{
    assert forall|i: int| 0 <= i < samples.len() implies decoded::<T>(encoded(samples))[i]
        == samples[i] by {
        samples[i].lemma_word_round_trip();
    }
}

/// Comparison is a strict order on the ordered samples of a representation:
/// nothing is below itself, and below-ness carries over a middle sample.
pub proof fn lemma_below_is_strict_order<T: Sample>(a: T, b: T, c: T)
    ensures
        !below(a, a),
        below(a, b) && below(b, c) ==> below(a, c),
        below(a, b) ==> !below(b, a),
{
}

/// What `Sample::below` computes, as a predicate.
pub open spec fn below<T: Sample>(a: T, b: T) -> bool {
    a.ordered() && b.ordered() && a.rank() < b.rank()
}

} // verus!
