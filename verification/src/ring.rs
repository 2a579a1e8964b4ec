//! The bounded ring buffer that carries sample words from the capture callback to
//! the polling thread.
//!
//! The ring is `rtrb`'s single-producer single-consumer queue. Its two halves live
//! on different threads, so each half is described here by what that half alone can
//! know: the producer by the items in the slots it still counts as occupied, the
//! consumer by the items in the slots it already counts as readable. The other
//! half can only make the first shorter and the second longer, and only the calls
//! below look.

use vstd::prelude::*;

verus! {

/// The producer half of `rtrb`'s ring buffer. Opaque to the verifier.
#[verifier::external_type_specification]
#[verifier::external_body]
#[verifier::reject_recursive_types(T)]
pub struct ExProducer<T>(rtrb::Producer<T>);

/// The consumer half of `rtrb`'s ring buffer. Opaque to the verifier.
#[verifier::external_type_specification]
#[verifier::external_body]
#[verifier::reject_recursive_types(T)]
pub struct ExConsumer<T>(rtrb::Consumer<T>);

/// The items in the slots that the producer counts as occupied, oldest first:
/// those from the head position it last loaded to its own tail position.
/// Only the producer writes slots, so no other thread changes this.
pub uninterp spec fn queued(producer: rtrb::Producer<u32>) -> Seq<u32>;

/// The number of slots of the ring that the producer writes to, fixed when the
/// ring is made.
pub uninterp spec fn capacity(producer: rtrb::Producer<u32>) -> nat;

/// The items in the slots that the consumer counts as readable, oldest first:
/// those from its own head position to the tail position it last loaded.
/// The producer never writes to these slots, so no other thread changes this.
pub uninterp spec fn pending(consumer: rtrb::Consumer<u32>) -> Seq<u32>;

/// `after` is what remains of `before` once some of its oldest items have gone,
/// followed by `items`.
pub open spec fn appended(before: Seq<u32>, after: Seq<u32>, items: Seq<u32>) -> bool {
    &&& items.len() <= after.len()
    &&& after.skip(after.len() - items.len()) == items
    &&& after.take(after.len() - items.len()).is_suffix_of(before)
}

/// The largest capacity a ring can be made with: its slots, four bytes each, must
/// fit in the address space.
pub open spec fn max_capacity() -> nat {
    (isize::MAX / 4) as nat
}

/// `rtrb::RingBuffer::new`: allocates a ring of `capacity` slots and returns its
/// two halves, both seeing an empty ring. The allocation panics when the slots
/// take more than `isize::MAX` bytes, which the precondition rules out.
#[verifier::external_body]
pub(crate) fn new_halves(capacity: usize) -> (halves: (rtrb::Producer<u32>, rtrb::Consumer<u32>))
    requires
        capacity <= max_capacity(),
    ensures
        queued(halves.0) == Seq::<u32>::empty(),
        self::capacity(halves.0) == capacity,
        pending(halves.1) == Seq::<u32>::empty(),
{
    rtrb::RingBuffer::new(capacity)
}

/// `rtrb::Producer::write_chunk_uninit` followed by
/// `rtrb::chunks::WriteChunkUninit::fill_from_iter`: asks for `n` free slots and,
/// if it gets them, moves the first `n` items of `slice` into them and publishes
/// them with one store of the tail.
///
/// If the producer already counts `n` slots as free it does not look at the
/// consumer, and the items follow what was queued. Otherwise it loads the head
/// once, which forgets the items that the consumer has taken by then; if fewer
/// than `n` slots are free after that, nothing is written and the number that is
/// free comes back.
#[verifier::external_body]
fn write_chunk(producer: &mut rtrb::Producer<u32>, slice: &[u32], n: usize) -> (r: Result<
    (),
    usize,
>)
    requires
        n <= slice@.len(),
    ensures
        capacity(*final(producer)) == capacity(*old(producer)),
        queued(*final(producer)).len() <= capacity(*old(producer)),
        n + queued(*old(producer)).len() <= capacity(*old(producer)) ==> r is Ok && queued(
            *final(producer),
        ) == queued(*old(producer)) + slice@.take(n as int),
        r is Ok ==> appended(
            queued(*old(producer)),
            queued(*final(producer)),
            slice@.take(n as int),
        ),
        r matches Err(free) ==> free < n && free + queued(*final(producer)).len() == capacity(
            *old(producer),
        ) && queued(*final(producer)).is_suffix_of(queued(*old(producer))),
{
    match producer.write_chunk_uninit(n) {
        Ok(chunk) => {
            chunk.fill_from_iter(slice[..n].iter().copied());
            Ok(())
        },
        Err(rtrb::chunks::ChunkError::TooFewSlots(free)) => Err(free),
    }
}

/// `rtrb::Consumer::read_chunk` followed by moving the chunk's items out through
/// its iterator: asks for `n` readable slots and, if it gets them, takes their
/// items, oldest first, and frees the slots.
///
/// If the consumer already counts `n` slots as readable it does not look at the
/// producer. Otherwise it loads the tail once, which adds the items that the
/// producer has published by then behind those it knew; if fewer than `n` are
/// readable after that, nothing is taken and the number that is readable comes
/// back.
#[verifier::external_body]
fn read_chunk(consumer: &mut rtrb::Consumer<u32>, n: usize) -> (r: Result<Vec<u32>, usize>)
    ensures
        n <= pending(*old(consumer)).len() ==> r is Ok,
        r matches Ok(items) ==> items@.len() == n && pending(*old(consumer)).is_prefix_of(
            items@ + pending(*final(consumer)),
        ) && (n <= pending(*old(consumer)).len() ==> items@ + pending(*final(consumer))
            == pending(*old(consumer))),
        r matches Err(available) ==> available < n && available == pending(
            *final(consumer),
        ).len() && pending(*old(consumer)).is_prefix_of(pending(*final(consumer))),
{
    match consumer.read_chunk(n) {
        Ok(chunk) => Ok(chunk.into_iter().collect()),
        Err(rtrb::chunks::ChunkError::TooFewSlots(available)) => Err(available),
    }
}

/// `rtrb::Consumer::is_abandoned`: whether the producer half has been dropped.
/// The producer may be dropped on another thread at any time, so nothing is
/// claimed of the answer.
pub assume_specification<T>[ rtrb::Consumer::<T>::is_abandoned ](
    consumer: &rtrb::Consumer<T>,
) -> (abandoned: bool)
;

/// The largest capacity a ring can be made with.
pub fn capacity_limit() -> (limit: usize)
    ensures
        limit == max_capacity(),
{
    (isize::MAX / 4) as usize
}

/// Makes a ring of `capacity` slots, or nothing if that many slots cannot be
/// allocated on this machine. Both halves start out seeing an empty ring.
pub fn ring_buffer(capacity: usize) -> (halves: Option<
    (rtrb::Producer<u32>, rtrb::Consumer<u32>),
>)
    ensures
        halves is Some <==> capacity <= max_capacity(),
        halves matches Some((producer, consumer)) ==> {
            &&& queued(producer) == Seq::<u32>::empty()
            &&& self::capacity(producer) == capacity
            &&& pending(consumer) == Seq::<u32>::empty()
        },
{
    if capacity <= capacity_limit() {
        Some(new_halves(capacity))
    } else {
        None
    }
}

/// How many leading items of a slice of `requested` items go into the ring, given
/// the ring's answer to asking for room for all of them: all, or as many as it
/// said were free.
pub open spec fn fitting(requested: nat, answer: Result<(), usize>) -> nat {
    match answer {
        Ok(()) => requested,
        Err(free) => if free <= requested {
            free as nat
        } else {
            requested
        },
    }
}

/// Computes `fitting`.
pub fn fitting_count(requested: usize, answer: Result<(), usize>) -> (count: usize)
    ensures
        count == fitting(requested as nat, answer),
{
    match answer {
        Ok(()) => requested,
        Err(free) => if free <= requested {
            free
        } else {
            requested
        },
    }
}

/// What a partial write does to a ring of `capacity` slots whose producer counted
/// `before` as queued: it counts `after` as queued afterwards, and `leftover` items
/// of `slice` were not written.
///
/// The items written are the leading ones, and they stand behind what is left of
/// `before`. Nothing is left over when the producer knew of room for the whole
/// slice. When items are left over, the ring is full as far as the producer can
/// see, and no more are left over than exceed the room it knew of.
pub open spec fn pushed(
    before: Seq<u32>,
    capacity: nat,
    slice: Seq<u32>,
    after: Seq<u32>,
    leftover: nat,
) -> bool {
    &&& leftover <= slice.len()
    &&& after.len() <= capacity
    &&& appended(before, after, slice.take(slice.len() - leftover))
    &&& slice.len() + before.len() <= capacity ==> leftover == 0 && after == before + slice
    &&& leftover > 0 ==> after.len() == capacity
    &&& leftover > 0 ==> leftover + capacity <= slice.len() + before.len()
}

/// What reading a window does to a ring whose consumer counted `before` as
/// readable: `words` are read when up to `window` were asked for, and the consumer
/// counts `after` as readable afterwards.
///
/// The words read begin with the oldest of `before`. When the consumer already
/// counted a whole window, exactly the oldest `window` items are read. When fewer
/// than `window` are read, nothing readable is left as far as the consumer can see.
pub open spec fn taken(before: Seq<u32>, after: Seq<u32>, window: nat, words: Seq<u32>) -> bool {
    &&& words.len() <= window
    &&& before.is_prefix_of(words + after)
    &&& window <= before.len() ==> words == before.take(window as int) && after == before.skip(
        window as int,
    )
    &&& words.len() < window ==> after.len() == 0
}

/// Writes as many leading items of `slice` as there is room for, as one batch,
/// without blocking, and returns how many items could not be written. The caller
/// drops those.
pub fn push_partial_slice(queue: &mut rtrb::Producer<u32>, slice: &[u32]) -> (leftover: usize)
    ensures
        capacity(*final(queue)) == capacity(*old(queue)),
        pushed(
            queued(*old(queue)),
            capacity(*old(queue)),
            slice@,
            queued(*final(queue)),
            leftover as nat,
        ),
{
    let slice_len = slice.len();
    let answer = write_chunk(queue, slice, slice_len);
    let end = fitting_count(slice_len, answer);
    if end < slice_len {
        let ghost known = queued(*queue);
        // The free slots were reported, so asking for that many succeeds.
        let second = write_chunk(queue, slice, end);
        proof {
            assert(second is Ok);
            assert(queued(*queue) == known + slice@.take(end as int));
            lemma_appended_behind_rest(queued(*old(queue)), known, slice@.take(end as int));
        }
    } else {
        proof {
            assert(slice@.take(slice_len as int) == slice@);
        }
    }
    slice_len - end
}

/// Reads up to `read_at_a_time` items, oldest first, and frees their slots. If
/// fewer are available, all that are available are read: that is no error.
pub fn read_window(consumer: &mut rtrb::Consumer<u32>, read_at_a_time: usize) -> (window: Vec<
    u32,
>)
    ensures
        taken(
            pending(*old(consumer)),
            pending(*final(consumer)),
            read_at_a_time as nat,
            window@,
        ),
{
    match read_chunk(consumer, read_at_a_time) {
        Ok(window) => {
            proof {
                if read_at_a_time <= pending(*old(consumer)).len() {
                    let whole = pending(*old(consumer));
                    assert(whole.take(read_at_a_time as int) == window@);
                    assert(whole.skip(read_at_a_time as int) == pending(*consumer));
                }
            }
            window
        },
        Err(available) => {
            let ghost known = pending(*consumer);
            // The readable slots were reported, so asking for that many succeeds.
            match read_chunk(consumer, available) {
                Ok(window) => {
                    proof {
                        assert(window@ + pending(*consumer) == known);
                        assert(pending(*consumer).len() == 0);
                    }
                    window
                },
                Err(_) => {
                    proof {
                        assert(false);
                    }
                    Vec::new()
                },
            }
        },
    }
}

/// Round trip: when a producer that counts nothing as queued writes no more items
/// than the ring holds, all of them are written, and a consumer that then counts
/// just these items as readable and asks for as many gets them back, equal and in
/// their order, and counts nothing as readable afterwards.
pub proof fn lemma_round_trip(
    capacity: nat,
    items: Seq<u32>,
    queued_after: Seq<u32>,
    leftover: nat,
    words: Seq<u32>,
    pending_after: Seq<u32>,
)
    requires
        items.len() <= capacity,
        pushed(Seq::<u32>::empty(), capacity, items, queued_after, leftover),
        taken(queued_after, pending_after, items.len(), words),
    ensures
        leftover == 0,
        queued_after == items,
        words == items,
        pending_after == Seq::<u32>::empty(),
{
    assert(Seq::<u32>::empty() + items == items);
    assert(items.take(items.len() as int) == items);
    assert(items.skip(items.len() as int) == Seq::<u32>::empty());
}

/// Partial write: when more items are written than the producer counts as free,
/// and nothing that it counted as queued has gone meanwhile, the ring takes the
/// leading items that fit and ends full, and the count left over is that of the
/// items asked for less that of the items written.
pub proof fn lemma_partial_write(
    before: Seq<u32>,
    capacity: nat,
    slice: Seq<u32>,
    after: Seq<u32>,
    leftover: nat,
)
    requires
        before.len() <= capacity,
        slice.len() + before.len() > capacity,
        pushed(before, capacity, slice, after, leftover),
        after.len() == before.len() + (slice.len() - leftover),
    ensures
        after.len() == capacity,
        leftover == slice.len() - (capacity - before.len()),
        after == before + slice.take(capacity - before.len()),
{
    let written = slice.take(slice.len() - leftover);
    let kept = after.take(after.len() - written.len());
    assert(after == kept + written);
    assert(kept == before);
}

/// Whatever the consumer does meanwhile, a write never reorders or alters what
/// it writes: the producer's newest items are the leading items of the slice.
pub proof fn lemma_write_keeps_order(
    before: Seq<u32>,
    capacity: nat,
    slice: Seq<u32>,
    after: Seq<u32>,
    leftover: nat,
    i: int,
)
    requires
        pushed(before, capacity, slice, after, leftover),
        0 <= i < slice.len() - leftover,
    ensures
        after[after.len() - (slice.len() - leftover) + i] == slice[i],
{
    let written = slice.take(slice.len() - leftover);
    assert(after.skip(after.len() - written.len())[i] == written[i]);
}

/// Items put behind what is left of a sequence have been appended to it.
proof fn lemma_appended_behind_rest(before: Seq<u32>, rest: Seq<u32>, items: Seq<u32>)
    requires
        rest.is_suffix_of(before),
    ensures
        appended(before, rest + items, items),
{
    let after = rest + items;
    assert(after.skip(after.len() - items.len()) == items);
    assert(after.take(after.len() - items.len()) == rest);
}

} // verus!
