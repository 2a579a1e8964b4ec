//! The window summary: the least and the greatest sample of one polling cycle.

use crate::decibel::{is_reading, rounded_decibel};
use crate::sample::{below, decoded, Sample};
use vstd::prelude::*;
use vstd::std_specs::iter::IteratorSpec;

verus! {

/// The samples of a window with the representation's zero put before them.
///
/// The summary is seeded with zero, so zero takes part as if it were the first
/// sample of every window.
pub open spec fn seeded<T: Sample>(samples: Seq<T>) -> Seq<T> {
    seq![T::origin()] + samples
}

/// `all[at]` is ordered, nothing in `all` is below it, and everything ordered
/// before it lies above it.
pub open spec fn first_least<T: Sample>(all: Seq<T>, at: int) -> bool {
    &&& 0 <= at < all.len()
    &&& all[at].ordered()
    &&& forall|j: int| 0 <= j < all.len() ==> !below(#[trigger] all[j], all[at])
    &&& forall|j: int| 0 <= j < at && (#[trigger] all[j]).ordered() ==> below(all[at], all[j])
}

/// `all[at]` is ordered, it is below nothing in `all`, and everything ordered
/// before it lies below it.
pub open spec fn first_greatest<T: Sample>(all: Seq<T>, at: int) -> bool {
    &&& 0 <= at < all.len()
    &&& all[at].ordered()
    &&& forall|j: int| 0 <= j < all.len() ==> !below(all[at], #[trigger] all[j])
    &&& forall|j: int| 0 <= j < at && (#[trigger] all[j]).ordered() ==> below(all[j], all[at])
}

/// `min` and `max` summarise the window `samples`: they are the earliest least and
/// the earliest greatest among zero and the ordered samples.
pub open spec fn summarises<T: Sample>(samples: Seq<T>, min: T, max: T) -> bool {
    &&& exists|i: int| first_least(seeded(samples), i) && #[trigger] seeded(samples)[i] == min
    &&& exists|i: int| first_greatest(seeded(samples), i) && #[trigger] seeded(samples)[i] == max
}

/// The lower bound of a summary after one more sample.
pub open spec fn lowered<T: Sample>(min: T, sample: T) -> T {
    if below(sample, min) {
        sample
    } else {
        min
    }
}

/// The upper bound of a summary after one more sample.
pub open spec fn raised<T: Sample>(max: T, sample: T) -> T {
    if below(max, sample) {
        sample
    } else {
        max
    }
}

/// The summary of one window of samples.
#[derive(Debug)]
pub struct Amp<T: Sample> {
    min: T,
    max: T,
}

impl<T: Sample> Amp<T> {
    /// The least sample of the window, or zero.
    pub closed spec fn low(&self) -> T {
        self.min
    }

    /// The greatest sample of the window, or zero.
    pub closed spec fn high(&self) -> T {
        self.max
    }

    /// Both bounds are ordered and zero lies between them.
    #[verifier::type_invariant]
    pub closed spec fn straddles_zero(&self) -> bool {
        &&& self.min.ordered()
        &&& self.max.ordered()
        &&& self.min.rank() <= 0 <= self.max.rank()
    }

    /// The summary of a window without samples: both bounds are zero.
    pub fn silent() -> (amp: Self)
        ensures
            amp.low() == T::origin(),
            amp.high() == T::origin(),
    {
        proof {
            T::lemma_origin();
        }
        Amp { min: T::zero(), max: T::zero() }
    }

    /// Takes one more sample into the summary.
    pub fn absorb(&mut self, sample: T)
        ensures
            final(self).low() == lowered(old(self).low(), sample),
            final(self).high() == raised(old(self).high(), sample),
    {
        proof {
            use_type_invariant(&*self);
        }
        let min = if sample.below(self.min) {
            sample
        } else {
            self.min
        };
        let max = if self.max.below(sample) {
            sample
        } else {
            self.max
        };
        *self = Amp { min, max };
    }

    /// Summarises the samples that `iter` yields, in one pass and without storing
    /// them. The iterator must be one that ends.
    pub fn new_from_iter<I: Iterator<Item = T>>(iter: I) -> (amp: Self)
        requires
            iter.obeys_prophetic_iter_laws(),
            iter.decrease() is Some,
        ensures
            summarises(iter.remaining(), amp.low(), amp.high()),
    {
        let mut iter = iter;
        let mut amp = Amp::silent();
        let ghost samples = iter.remaining();
        let ghost seen: int = 0;
        proof {
            lemma_summary_of_nothing::<T>();
            assert(samples.take(0) == Seq::<T>::empty());
        }
        loop
            invariant_except_break
                iter.obeys_prophetic_iter_laws(),
                iter.decrease() is Some,
                0 <= seen <= samples.len(),
                iter.remaining() == samples.skip(seen),
                summarises(samples.take(seen), amp.low(), amp.high()),
            ensures
                summarises(samples, amp.low(), amp.high()),
            decreases iter.decrease()->0,
        {
            match iter.next() {
                Some(num) => {
                    proof {
                        assert(samples.skip(seen).drop_first() == samples.skip(seen + 1));
                        assert(samples.take(seen + 1) == samples.take(seen).push(num));
                        lemma_summary_extends(samples.take(seen), amp.low(), amp.high(), num);
                        seen = seen + 1;
                    }
                    amp.absorb(num);
                },
                None => {
                    proof {
                        assert(samples.take(seen) == samples);
                    }
                    break ;
                },
            }
        }
        amp
    }

    /// Summarises the samples that the words of one window stand for.
    pub fn from_words(words: &[u32]) -> (amp: Self)
        ensures
            summarises(decoded::<T>(words@), amp.low(), amp.high()),
    {
        let mut amp = Amp::silent();
        let ghost samples = decoded::<T>(words@);
        proof {
            lemma_summary_of_nothing::<T>();
            assert(samples.take(0) == Seq::<T>::empty());
        }
        let mut at: usize = 0;
        while at < words.len()
            invariant
                at <= words@.len(),
                samples == decoded::<T>(words@),
                summarises(samples.take(at as int), amp.low(), amp.high()),
            decreases words@.len() - at,
        {
            let sample = T::from_word(words[at]);
            proof {
                assert(samples.take(at + 1) == samples.take(at as int).push(sample));
                lemma_summary_extends(samples.take(at as int), amp.low(), amp.high(), sample);
            }
            amp.absorb(sample);
            at = at + 1;
        }
        proof {
            assert(samples.take(at as int) == samples);
        }
        amp
    }

    /// The least sample of the window, or zero if none lay below it.
    pub fn min(&self) -> (m: T)
        ensures
            m == self.low(),
            m.ordered(),
            m.rank() <= 0,
    {
        proof {
            use_type_invariant(self);
        }
        self.min
    }

    /// The greatest sample of the window, or zero if none lay above it.
    pub fn max(&self) -> (m: T)
        ensures
            m == self.high(),
            m.ordered(),
            m.rank() >= 0,
    {
        proof {
            use_type_invariant(self);
        }
        self.max
    }
}

/// Loudness of a window summary whose samples are integers.
///
/// The amplitude is half the span between the bounds, taken in the samples' own
/// unit, and the reading is `20 * log10(amplitude)` rounded to the nearest integer.
pub trait Decibel {
    /// The peak-to-trough span of the window: twice its amplitude.
    spec fn span(&self) -> nat;

    /// The peak-to-trough span of the window.
    fn peak_to_trough(&self) -> (span: u16)
        ensures
            span == self.span(),
    ;

    /// The rounded decibel value of the window; the least `i32` for silence.
    fn rounded(&self) -> (n: i32)
        ensures
            is_reading(self.span(), n as int),
    ;
}

impl Decibel for Amp<i16> {
    open spec fn span(&self) -> nat {
        (self.high() - self.low()) as nat
    }

    fn peak_to_trough(&self) -> (span: u16) {
        let min = self.min();
        let max = self.max();
        (max as i32 - min as i32) as u16
    }

    fn rounded(&self) -> (n: i32) {
        rounded_decibel(self.peak_to_trough())
    }
}

impl Decibel for Amp<u16> {
    open spec fn span(&self) -> nat {
        (self.high() - self.low()) as nat
    }

    fn peak_to_trough(&self) -> (span: u16) {
        let min = self.min();
        let max = self.max();
        max - min
    }

    fn rounded(&self) -> (n: i32) {
        rounded_decibel(self.peak_to_trough())
    }
}

/// A window without samples is summarised by zero and zero.
pub proof fn lemma_summary_of_nothing<T: Sample>()
    ensures
        summarises(Seq::<T>::empty(), T::origin(), T::origin()),
{
    T::lemma_origin();
    let all = seeded(Seq::<T>::empty());
    assert(all.len() == 1);
    assert(all[0] == T::origin());
    assert(first_least(all, 0));
    assert(first_greatest(all, 0));
}

/// One more sample lowers the lower bound exactly if it lies below it, and raises
/// the upper bound exactly if it lies above it.
pub proof fn lemma_summary_extends<T: Sample>(samples: Seq<T>, min: T, max: T, sample: T)
    requires
        summarises(samples, min, max),
    ensures
        summarises(samples.push(sample), lowered(min, sample), raised(max, sample)),
{
    let before = seeded(samples);
    let after = seeded(samples.push(sample));
    let last = before.len() as int;
    assert(after.len() == last + 1);
    assert(after[last] == sample);
    assert(forall|j: int| 0 <= j < last ==> before[j] == after[j]);
    let lo = choose|i: int| first_least(before, i) && #[trigger] before[i] == min;
    let lo_after = if below(sample, min) {
        last
    } else {
        lo
    };
    assert(first_least(after, lo_after)) by {
        assert forall|j: int| 0 <= j < after.len() implies !below(
            #[trigger] after[j],
            after[lo_after],
        ) by {
            if j < last {
                assert(before[j] == after[j]);
            }
        }
        assert forall|j: int|
            0 <= j < lo_after && (#[trigger] after[j]).ordered() implies below(
            after[lo_after],
            after[j],
        ) by {
            assert(before[j] == after[j]);
        }
    }
    assert(after[lo_after] == lowered(min, sample));
    let hi = choose|i: int| first_greatest(before, i) && #[trigger] before[i] == max;
    let hi_after = if below(max, sample) {
        last
    } else {
        hi
    };
    assert(first_greatest(after, hi_after)) by {
        assert forall|j: int| 0 <= j < after.len() implies !below(
            after[hi_after],
            #[trigger] after[j],
        ) by {
            if j < last {
                assert(before[j] == after[j]);
            }
        }
        assert forall|j: int|
            0 <= j < hi_after && (#[trigger] after[j]).ordered() implies below(
            after[j],
            after[hi_after],
        ) by {
            assert(before[j] == after[j]);
        }
    }
    assert(after[hi_after] == raised(max, sample));
}

/// A window has one summary only: summarising the same samples again gives the
/// same bounds.
pub proof fn lemma_summary_unique<T: Sample>(samples: Seq<T>, min: T, max: T, min2: T, max2: T)
    requires
        summarises(samples, min, max),
        summarises(samples, min2, max2),
    ensures
        min == min2,
        max == max2,
{
    let all = seeded(samples);
    let a = choose|i: int| first_least(all, i) && #[trigger] all[i] == min;
    let b = choose|i: int| first_least(all, i) && #[trigger] all[i] == min2;
    if a < b {
        assert(below(all[b], all[a]));
    } else if b < a {
        assert(below(all[a], all[b]));
    }
    let c = choose|i: int| first_greatest(all, i) && #[trigger] all[i] == max;
    let d = choose|i: int| first_greatest(all, i) && #[trigger] all[i] == max2;
    if c < d {
        assert(below(all[c], all[d]));
    } else if d < c {
        assert(below(all[d], all[c]));
    }
}

/// The bounds of a summary enclose zero and every ordered sample of the window,
/// and each bound is zero or one of the samples.
pub proof fn lemma_summary_encloses<T: Sample>(samples: Seq<T>, min: T, max: T)
    requires
        summarises(samples, min, max),
    ensures
        min.ordered() && max.ordered(),
        min.rank() <= 0 <= max.rank(),
        forall|i: int|
            0 <= i < samples.len() && (#[trigger] samples[i]).ordered() ==> min.rank()
                <= samples[i].rank() <= max.rank(),
        min == T::origin() || samples.contains(min),
        max == T::origin() || samples.contains(max),
{
    T::lemma_origin();
    let all = seeded(samples);
    let a = choose|i: int| first_least(all, i) && #[trigger] all[i] == min;
    let c = choose|i: int| first_greatest(all, i) && #[trigger] all[i] == max;
    assert(all[0] == T::origin());
    assert(!below(all[0], all[a]));
    assert(!below(all[c], all[0]));
    assert forall|i: int| 0 <= i < samples.len() && (#[trigger] samples[i]).ordered() implies min.rank()
        <= samples[i].rank() <= max.rank() by {
        assert(all[i + 1] == samples[i]);
        assert(!below(all[i + 1], all[a]));
        assert(!below(all[c], all[i + 1]));
    }
    if a > 0 {
        assert(samples[a - 1] == min);
    }
    if c > 0 {
        assert(samples[c - 1] == max);
    }
}

} // verus!
