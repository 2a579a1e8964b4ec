//! The stream handler: sizes the ring buffer for a stream, hands its producer half
//! to the capture callback and its consumer half to the polling thread.

use crate::amp::{summarises, Amp};
use crate::ring::{
    capacity, capacity_limit, max_capacity, new_halves, pending, push_partial_slice, pushed,
    queued, read_window, taken,
};
use crate::sample::{decoded, encoded, Binary32, Sample};
use core::marker::PhantomData;
use vstd::prelude::*;

verus! {

/// The reporting interval in milliseconds: one window is read per interval.
pub const INTERVAL: u16 = 100;

/// The latency headroom in milliseconds: room in the ring beyond one window.
pub const LATENCY: u16 = 50;

/// The number of window summaries that may wait to be delivered.
pub const READINGS: usize = 1000;

/// The number of samples that a stream delivers in `millis` milliseconds, rounded
/// up: `sample_rate / 1000 * channels * millis`.
pub open spec fn frames_in(sample_rate: nat, channels: nat, millis: nat) -> nat {
    (sample_rate * channels * millis + 999) / 1000
}

/// The number of samples read per polling cycle: one reporting interval's worth.
pub open spec fn window_frames(sample_rate: nat, channels: nat) -> nat {
    frames_in(sample_rate, channels, INTERVAL as nat)
}

/// The capacity of the ring: one window and the latency headroom.
pub open spec fn buffer_frames(sample_rate: nat, channels: nat) -> nat {
    window_frames(sample_rate, channels) + frames_in(sample_rate, channels, LATENCY as nat)
}

/// `frames_in` is the least count of samples that covers the given time.
pub proof fn lemma_frames_round_up(sample_rate: nat, channels: nat, millis: nat)
    ensures
        frames_in(sample_rate, channels, millis) * 1000 >= sample_rate * channels * millis,
        frames_in(sample_rate, channels, millis) * 1000 < sample_rate * channels * millis + 1000,
{
}

/// Computes `frames_in`.
pub fn frame_count(sample_rate: u32, channels: u16, millis: u16) -> (frames: u64)
    ensures
        frames == frames_in(sample_rate as nat, channels as nat, millis as nat),
        frames <= 18_446_181_123_756_262,
{
    assert(sample_rate * channels <= 0xffff_ffff * 0xffff) by (nonlinear_arith)
        requires
            sample_rate <= 0xffff_ffff,
            channels <= 0xffff,
    ;
    let per_second: u64 = sample_rate as u64 * channels as u64;
    assert(per_second * millis <= 0xffff_ffff * 0xffff * 0xffff) by (nonlinear_arith)
        requires
            per_second == sample_rate * channels,
            sample_rate <= 0xffff_ffff,
            channels <= 0xffff,
            millis <= 0xffff,
    ;
    assert(sample_rate as nat * channels as nat * millis as nat == per_second * millis)
        by (nonlinear_arith)
        requires
            per_second == sample_rate * channels,
    ;
    (per_second * millis as u64 + 999) / 1000
}

/// Whether a ring for such a stream can be allocated on this machine.
pub fn buffer_fits(sample_rate: u32, channels: u16) -> (fits: bool)
    ensures
        fits == (buffer_frames(sample_rate as nat, channels as nat) <= max_capacity()),
{
    let window = frame_count(sample_rate, channels, INTERVAL);
    let ahead = frame_count(sample_rate, channels, LATENCY);
    window + ahead <= capacity_limit() as u64
}

/// The representation of the samples of a stream.
#[derive(Clone, Copy, Debug, PartialEq, Eq, Structural)]
pub enum SampleFormat {
    /// 32-bit IEEE 754 binary.
    F32,
    /// Signed 16-bit.
    I16,
    /// Unsigned 16-bit.
    U16,
}

/// The capture side of a handler: the producer half of the ring, and the buffer in
/// which samples are turned into words before they are written.
pub struct Feeder<T: Sample> {
    producer: rtrb::Producer<u32>,
    words: Vec<u32>,
    limit: usize,
    sample: PhantomData<T>,
}

impl<T: Sample> Feeder<T> {
    /// The producer half of the ring.
    pub closed spec fn producer(&self) -> rtrb::Producer<u32> {
        self.producer
    }

    /// The number of samples that are encoded at a time, at most. `InnerHandler::split`
    /// sets it to the capacity of the ring, so that encoding never needs more room
    /// than was set aside for it.
    pub closed spec fn limit(&self) -> nat {
        self.limit as nat
    }

    /// Writes as many leading samples as the ring has room for, as one batch and
    /// without blocking, and returns how many samples could not be written. The
    /// caller drops those.
    ///
    /// Samples beyond the feeder's limit are not looked at. With the limit at the
    /// capacity of the ring, as `InnerHandler::split` sets it, that drops no sample
    /// that the ring could have taken.
    pub fn feed(&mut self, samples: &[T]) -> (leftover: usize)
        ensures
            final(self).limit() == old(self).limit(),
            capacity(final(self).producer()) == capacity(old(self).producer()),
            leftover >= beyond(samples@.len(), old(self).limit()),
            pushed(
                queued(old(self).producer()),
                capacity(old(self).producer()),
                encoded(samples@).take(samples@.len() - beyond(samples@.len(), old(self).limit())),
                queued(final(self).producer()),
                (leftover - beyond(samples@.len(), old(self).limit())) as nat,
            ),
            old(self).limit() == capacity(old(self).producer()) ==> pushed(
                queued(old(self).producer()),
                capacity(old(self).producer()),
                encoded(samples@),
                queued(final(self).producer()),
                leftover as nat,
            ),
    {
        let count = if samples.len() <= self.limit {
            samples.len()
        } else {
            self.limit
        };
        let mut words = Vec::new();
        core::mem::swap(&mut words, &mut self.words);
        words.clear();
        let mut at: usize = 0;
        while at < count
            invariant
                at <= count <= samples@.len(),
                words@ == encoded(samples@).take(at as int),
            decreases count - at,
        {
            words.push(samples[at].to_word());
            proof {
                assert(words@ == encoded(samples@).take(at + 1));
            }
            at = at + 1;
        }
        let unwritten = push_partial_slice(&mut self.producer, words.as_slice());
        proof {
            assert(words@.take(words@.len() - unwritten) == encoded(samples@).take(
                count - unwritten,
            ));
            if count == samples@.len() {
                assert(words@ == encoded(samples@));
            }
        }
        self.words = words;
        unwritten + (samples.len() - count)
    }
}

/// How many of `count` samples lie beyond the first `limit`.
pub open spec fn beyond(count: nat, limit: nat) -> nat {
    if count <= limit {
        0
    } else {
        (count - limit) as nat
    }
}

/// The polling side of a handler: the consumer half of the ring and the number of
/// samples to read per cycle.
pub struct Poller<T: Sample> {
    consumer: rtrb::Consumer<u32>,
    read_at_a_time: usize,
    sample: PhantomData<T>,
}

impl<T: Sample> Poller<T> {
    /// The consumer half of the ring.
    pub closed spec fn consumer(&self) -> rtrb::Consumer<u32> {
        self.consumer
    }

    /// The number of samples read per cycle.
    pub closed spec fn window(&self) -> nat {
        self.read_at_a_time as nat
    }

    /// The number of samples read per cycle.
    pub fn read_at_a_time(&self) -> (n: usize)
        ensures
            n == self.window(),
    {
        self.read_at_a_time
    }

    /// One polling cycle: nothing if the capture side is gone, else the summary of
    /// up to one window of samples taken from the ring, oldest first. Fewer samples
    /// than a window are no error: then all that were available are summarised.
    ///
    /// Whether the capture side is gone is the ring's answer at the moment of the
    /// call; `cycle` says what a polling cycle yields for each answer.
    pub fn poll(&mut self) -> (cycle: Option<Amp<T>>)
        ensures
            final(self).window() == old(self).window(),
            cycle is None ==> *final(self) == *old(self),
            cycle matches Some(amp) ==> exists|words: Seq<u32>|
                {
                    &&& #[trigger] taken(
                        pending(old(self).consumer()),
                        pending(final(self).consumer()),
                        old(self).window(),
                        words,
                    )
                    &&& summarises(decoded::<T>(words), amp.low(), amp.high())
                },
    {
        let abandoned = self.consumer.is_abandoned();
        self.cycle(abandoned)
    }

    /// One polling cycle, given the ring's answer to whether the capture side is
    /// gone. If it is gone, the cycle yields nothing and leaves the ring as it is.
    /// If it is not, the cycle always yields a summary: that of up to one window of
    /// samples taken from the ring, oldest first, or of none if none were there.
    pub fn cycle(&mut self, abandoned: bool) -> (cycle: Option<Amp<T>>)
        ensures
            final(self).window() == old(self).window(),
            abandoned ==> cycle is None && *final(self) == *old(self),
            !abandoned ==> cycle is Some,
            cycle matches Some(amp) ==> exists|words: Seq<u32>|
                {
                    &&& #[trigger] taken(
                        pending(old(self).consumer()),
                        pending(final(self).consumer()),
                        old(self).window(),
                        words,
                    )
                    &&& summarises(decoded::<T>(words), amp.low(), amp.high())
                },
    {
        if abandoned {
            None
        } else {
            let words = read_window(&mut self.consumer, self.read_at_a_time);
            let amp = Amp::from_words(words.as_slice());
            proof {
                assert(taken(
                    pending(old(self).consumer()),
                    pending(self.consumer()),
                    old(self).window(),
                    words@,
                ));
            }
            Some(amp)
        }
    }
}

/// A handler for a stream of samples of one representation: the ring buffer, sized
/// for the stream, before its halves go to their threads.
pub struct InnerHandler<T: Sample> {
    read_at_a_time: usize,
    buffer_size: usize,
    producer: rtrb::Producer<u32>,
    consumer: rtrb::Consumer<u32>,
    sample: PhantomData<T>,
}

impl<T: Sample> InnerHandler<T> {
    /// The number of samples read per polling cycle.
    pub closed spec fn window(&self) -> nat {
        self.read_at_a_time as nat
    }

    /// The producer half of the ring.
    pub closed spec fn producer(&self) -> rtrb::Producer<u32> {
        self.producer
    }

    /// The consumer half of the ring.
    pub closed spec fn consumer(&self) -> rtrb::Consumer<u32> {
        self.consumer
    }

    /// The recorded size of the ring is its capacity.
    #[verifier::type_invariant]
    pub closed spec fn sized(&self) -> bool {
        self.buffer_size == capacity(self.producer)
    }

    /// Makes the handler for a stream of `sample_rate` frames per second with
    /// `channels` samples per frame: an empty ring that holds one reporting
    /// interval's worth of samples and the latency headroom.
    pub fn new(sample_rate: u32, channels: u16) -> (handler: Self)
        requires
            buffer_frames(sample_rate as nat, channels as nat) <= max_capacity(),
        ensures
            handler.window() == window_frames(sample_rate as nat, channels as nat),
            capacity(handler.producer()) == buffer_frames(sample_rate as nat, channels as nat),
            queued(handler.producer()) == Seq::<u32>::empty(),
            pending(handler.consumer()) == Seq::<u32>::empty(),
    {
        let read_at_a_time = frame_count(sample_rate, channels, INTERVAL);
        let write_ahead = frame_count(sample_rate, channels, LATENCY);
        let buffer_size = (read_at_a_time + write_ahead) as usize;
        let (producer, consumer) = new_halves(buffer_size);
        InnerHandler {
            read_at_a_time: read_at_a_time as usize,
            buffer_size,
            producer,
            consumer,
            sample: PhantomData,
        }
    }

    /// Parts the handler into its capture side and its polling side, each to be
    /// owned by one thread.
    pub fn split(self) -> (sides: (Feeder<T>, Poller<T>))
        ensures
            sides.0.producer() == self.producer(),
            sides.0.limit() == capacity(self.producer()),
            sides.1.consumer() == self.consumer(),
            sides.1.window() == self.window(),
    {
        proof {
            use_type_invariant(&self);
        }
        let limit = self.buffer_size;
        let feeder = Feeder {
            producer: self.producer,
            words: Vec::with_capacity(limit),
            limit,
            sample: PhantomData,
        };
        let poller = Poller {
            consumer: self.consumer,
            read_at_a_time: self.read_at_a_time,
            sample: PhantomData,
        };
        (feeder, poller)
    }
}

/// A handler for a stream, by the representation of its samples.
pub enum Handler {
    F32(InnerHandler<Binary32>),
    I16(InnerHandler<i16>),
    U16(InnerHandler<u16>),
}

impl Handler {
    /// The representation of the samples.
    pub open spec fn sample_format(&self) -> SampleFormat {
        match self {
            Handler::F32(_) => SampleFormat::F32,
            Handler::I16(_) => SampleFormat::I16,
            Handler::U16(_) => SampleFormat::U16,
        }
    }

    /// The number of samples read per polling cycle.
    pub open spec fn window(&self) -> nat {
        match self {
            Handler::F32(inner) => inner.window(),
            Handler::I16(inner) => inner.window(),
            Handler::U16(inner) => inner.window(),
        }
    }

    /// The producer half of the ring.
    pub open spec fn producer(&self) -> rtrb::Producer<u32> {
        match self {
            Handler::F32(inner) => inner.producer(),
            Handler::I16(inner) => inner.producer(),
            Handler::U16(inner) => inner.producer(),
        }
    }

    /// The consumer half of the ring.
    pub open spec fn consumer(&self) -> rtrb::Consumer<u32> {
        match self {
            Handler::F32(inner) => inner.consumer(),
            Handler::I16(inner) => inner.consumer(),
            Handler::U16(inner) => inner.consumer(),
        }
    }

    /// Makes the handler for a stream of the given configuration, with a fresh
    /// and empty ring.
    pub fn new(format: SampleFormat, sample_rate: u32, channels: u16) -> (handler: Self)
        requires
            buffer_frames(sample_rate as nat, channels as nat) <= max_capacity(),
        ensures
            handler.sample_format() == format,
            handler.window() == window_frames(sample_rate as nat, channels as nat),
            capacity(handler.producer()) == buffer_frames(sample_rate as nat, channels as nat),
            queued(handler.producer()) == Seq::<u32>::empty(),
            pending(handler.consumer()) == Seq::<u32>::empty(),
    {
        match format {
            SampleFormat::F32 => Handler::F32(InnerHandler::new(sample_rate, channels)),
            SampleFormat::I16 => Handler::I16(InnerHandler::new(sample_rate, channels)),
            SampleFormat::U16 => Handler::U16(InnerHandler::new(sample_rate, channels)),
        }
    }
}

} // verus!
