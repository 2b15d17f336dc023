//! The lock-free rings between the decoder, the output callback and the
//! analyser.
//!
//! A ring is an `rtrb` single-producer single-consumer queue. Samples travel as
//! the bit patterns of `f32` values, so `0` is silence. The two ends of a ring
//! live on different threads; each name below therefore speaks of one end only,
//! and never of what the other end is doing at the same moment. What joins the
//! ends is that the one finds what the other will ever have put there.

use rtrb::{Consumer, Producer};
use vstd::prelude::*;

verus! {

/// Marker telling the output callback that a new track starts at a given point
/// in the global frame stream.
#[derive(Clone, Copy, Debug)]
pub struct TrackMarker {
    pub at_global_frame: u64,
    pub track_id: u64,
    /// Position inside the track at that point; non-zero after a seek.
    pub track_start_frame: u64,
}

/// The reading end of an `rtrb` ring.
#[verifier::external_type_specification]
#[verifier::external_body]
#[verifier::reject_recursive_types(T)]
pub struct ExConsumer<T>(rtrb::Consumer<T>);

/// The writing end of an `rtrb` ring.
#[verifier::external_type_specification]
#[verifier::external_body]
#[verifier::reject_recursive_types(T)]
pub struct ExProducer<T>(rtrb::Producer<T>);

/// The samples that a consumer has not taken yet, oldest first: those in the
/// ring, followed by those that its producer has still to put there.
pub uninterp spec fn upcoming_samples(rx: Consumer<u32>) -> Seq<u32>;

/// How many of the upcoming samples the consumer has already noticed in the
/// ring.
pub uninterp spec fn noticed_samples(rx: Consumer<u32>) -> nat;

/// What each look at the ring through this reading end has found so far, oldest
/// first.
pub uninterp spec fn sample_looks(rx: Consumer<u32>) -> Seq<nat>;

/// Every sample that a producer has put into its ring so far, oldest first.
pub uninterp spec fn sent_samples(tx: Producer<u32>) -> Seq<u32>;

/// Every sample that a producer has tried to put into its ring so far, oldest
/// first, whether or not there was room for it.
pub uninterp spec fn tried_samples(tx: Producer<u32>) -> Seq<u32>;

/// Every sample that will ever have been put into the ring through this end,
/// oldest first: those sent so far, followed by those still to come.
pub uninterp spec fn all_samples(tx: Producer<u32>) -> Seq<u32>;

/// How many free slots of the ring the producer has already noticed.
pub uninterp spec fn noticed_room(tx: Producer<u32>) -> nat;

/// What each look at the ring through this writing end has found free so far,
/// oldest first.
pub uninterp spec fn room_looks(tx: Producer<u32>) -> Seq<nat>;

/// The number of slots that the producer's ring was made with.
pub uninterp spec fn ring_slots(tx: Producer<u32>) -> nat;

/// The markers that a consumer has not taken yet, oldest first: those in the
/// ring, followed by those that its producer has still to put there.
pub uninterp spec fn upcoming_markers(rx: Consumer<TrackMarker>) -> Seq<TrackMarker>;

/// What each attempt to take a marker has given so far, oldest first.
pub uninterp spec fn marker_takes(rx: Consumer<TrackMarker>) -> Seq<Option<TrackMarker>>;

/// Every marker that a producer has put into its ring so far, oldest first.
pub uninterp spec fn sent_markers(tx: Producer<TrackMarker>) -> Seq<TrackMarker>;

/// Every marker that a producer has tried to put into its ring so far, oldest
/// first, whether or not there was room for it.
pub uninterp spec fn tried_markers(tx: Producer<TrackMarker>) -> Seq<TrackMarker>;

/// Every marker that will ever have been put into the ring through this end,
/// oldest first: those sent so far, followed by those still to come.
pub uninterp spec fn all_markers(tx: Producer<TrackMarker>) -> Seq<TrackMarker>;

/// How many free slots of the marker ring the producer has already noticed.
pub uninterp spec fn noticed_marker_room(tx: Producer<TrackMarker>) -> nat;

/// `rtrb::RingBuffer::new`: both ends of an empty sample ring. The allocation
/// must be one that a `Vec` can hold. What the reading end will find is what the
/// writing end will have put there.
#[verifier::external_body]
pub(crate) fn sample_ring(slots: usize) -> (ends: (Producer<u32>, Consumer<u32>))
    requires
        slots * 4 <= isize::MAX,
    ensures
        ring_slots(ends.0) == slots,
        noticed_room(ends.0) == slots,
        room_looks(ends.0) == Seq::<nat>::empty(),
        sent_samples(ends.0) == Seq::<u32>::empty(),
        tried_samples(ends.0) == Seq::<u32>::empty(),
        noticed_samples(ends.1) == 0,
        sample_looks(ends.1) == Seq::<nat>::empty(),
        upcoming_samples(ends.1) == all_samples(ends.0),
{
    rtrb::RingBuffer::new(slots)
}

/// `rtrb::RingBuffer::new`: both ends of an empty marker ring. The allocation
/// must be one that a `Vec` can hold. What the reading end will find is what the
/// writing end will have put there.
#[verifier::external_body]
pub(crate) fn marker_ring(slots: usize) -> (ends: (Producer<TrackMarker>, Consumer<TrackMarker>))
    requires
        slots * 24 <= isize::MAX,
    ensures
        noticed_marker_room(ends.0) == slots,
        sent_markers(ends.0) == Seq::<TrackMarker>::empty(),
        tried_markers(ends.0) == Seq::<TrackMarker>::empty(),
        marker_takes(ends.1) == Seq::<Option<TrackMarker>>::empty(),
        upcoming_markers(ends.1) == all_markers(ends.0),
{
    rtrb::RingBuffer::new(slots)
}

/// `rtrb::Consumer::slots`: looks how many samples are in the ring now, and
/// notices them. Samples only ever leave a ring through its consumer, so what
/// was noticed before is among them.
#[verifier::external_body]
pub(crate) fn count_samples(rx: &mut Consumer<u32>) -> (n: usize)
    ensures
        upcoming_samples(*final(rx)) == upcoming_samples(*old(rx)),
        sample_looks(*final(rx)) == sample_looks(*old(rx)).push(n as nat),
        noticed_samples(*final(rx)) == n,
        noticed_samples(*old(rx)) <= n,
        n <= upcoming_samples(*old(rx)).len(),
{
    rx.slots()
}

/// `rtrb::Consumer::read_chunk`, `ReadChunk::as_slices` and
/// `ReadChunk::commit_all`: moves the `n` oldest samples of the ring to the
/// front of `out`. It succeeds if that many have been noticed. Nothing is
/// said of how many more samples a call for more than that may notice.
#[verifier::external_body]
pub(crate) fn take_samples(rx: &mut Consumer<u32>, out: &mut [u32], n: usize) -> (taken: bool)
    requires
        n <= old(out)@.len(),
    ensures
        n <= noticed_samples(*old(rx)) ==> taken && noticed_samples(*final(rx))
            == noticed_samples(*old(rx)) - n,
        taken ==> n <= upcoming_samples(*old(rx)).len(),
        taken ==> upcoming_samples(*final(rx)) == upcoming_samples(*old(rx)).skip(n as int),
        taken ==> final(out)@ == upcoming_samples(*old(rx)).take(n as int) + old(out)@.skip(
            n as int,
        ),
        !taken ==> upcoming_samples(*final(rx)) == upcoming_samples(*old(rx)),
        !taken ==> final(out)@ == old(out)@,
        sample_looks(*final(rx)) == sample_looks(*old(rx)),
{
    match rx.read_chunk(n) {
        Ok(chunk) => {
            let (a, b) = chunk.as_slices();
            out[..a.len()].copy_from_slice(a);
            out[a.len()..n].copy_from_slice(b);
            chunk.commit_all();
            true
        },
        Err(_) => false,
    }
}

/// `rtrb::Consumer::read_chunk` and `ReadChunk::commit_all`: drops the `n`
/// oldest samples of the ring unread. It succeeds if that many have been
/// noticed.
#[verifier::external_body]
pub(crate) fn drop_samples(rx: &mut Consumer<u32>, n: usize) -> (dropped: bool)
    ensures
        n <= noticed_samples(*old(rx)) ==> dropped && noticed_samples(*final(rx))
            == noticed_samples(*old(rx)) - n,
        dropped ==> n <= upcoming_samples(*old(rx)).len(),
        dropped ==> upcoming_samples(*final(rx)) == upcoming_samples(*old(rx)).skip(n as int),
        !dropped ==> upcoming_samples(*final(rx)) == upcoming_samples(*old(rx)),
        sample_looks(*final(rx)) == sample_looks(*old(rx)),
{
    match rx.read_chunk(n) {
        Ok(chunk) => {
            chunk.commit_all();
            true
        },
        Err(_) => false,
    }
}

/// `rtrb::Consumer::pop`: takes the oldest marker, or nothing where the ring
/// is empty at that moment.
#[verifier::external_body]
pub(crate) fn take_marker(rx: &mut Consumer<TrackMarker>) -> (m: Option<TrackMarker>)
    ensures
        m matches Some(m) ==> upcoming_markers(*old(rx)).len() > 0 && m == upcoming_markers(
            *old(rx),
        )[0] && upcoming_markers(*final(rx)) == upcoming_markers(*old(rx)).skip(1),
        m is None ==> upcoming_markers(*final(rx)) == upcoming_markers(*old(rx)),
        marker_takes(*final(rx)) == marker_takes(*old(rx)).push(m),
{
    rx.pop().ok()
}

/// `rtrb::Producer::push` on a marker ring: appends the marker, unless the
/// ring is full at that moment. It is not full if room has been noticed.
#[verifier::external_body]
pub(crate) fn put_marker(tx: &mut Producer<TrackMarker>, m: TrackMarker) -> (put: bool)
    ensures
        noticed_marker_room(*old(tx)) > 0 ==> put && noticed_marker_room(*final(tx))
            == noticed_marker_room(*old(tx)) - 1,
        put ==> sent_markers(*final(tx)) == sent_markers(*old(tx)).push(m),
        !put ==> sent_markers(*final(tx)) == sent_markers(*old(tx)),
        tried_markers(*final(tx)) == tried_markers(*old(tx)).push(m),
        all_markers(*final(tx)) == all_markers(*old(tx)),
        sent_markers(*final(tx)).is_prefix_of(all_markers(*final(tx))),
{
    tx.push(m).is_ok()
}

/// `rtrb::Producer::push` on a sample ring: appends the sample, unless the
/// ring is full at that moment. It is not full if room has been noticed.
#[verifier::external_body]
pub(crate) fn put_sample(tx: &mut Producer<u32>, sample: u32) -> (put: bool)
    ensures
        noticed_room(*old(tx)) > 0 ==> put && noticed_room(*final(tx)) == noticed_room(*old(tx))
            - 1,
        put ==> sent_samples(*final(tx)) == sent_samples(*old(tx)).push(sample),
        !put ==> sent_samples(*final(tx)) == sent_samples(*old(tx)),
        tried_samples(*final(tx)) == tried_samples(*old(tx)).push(sample),
        all_samples(*final(tx)) == all_samples(*old(tx)),
        sent_samples(*final(tx)).is_prefix_of(all_samples(*final(tx))),
        room_looks(*final(tx)) == room_looks(*old(tx)),
        ring_slots(*final(tx)) == ring_slots(*old(tx)),
{
    tx.push(sample).is_ok()
}

/// `rtrb::Producer::slots`: looks how many slots are free now, and notices
/// them. Slots are only ever filled through the producer, so what was noticed
/// before is among them.
#[verifier::external_body]
pub(crate) fn count_room(tx: &mut Producer<u32>) -> (n: usize)
    ensures
        sent_samples(*final(tx)) == sent_samples(*old(tx)),
        tried_samples(*final(tx)) == tried_samples(*old(tx)),
        all_samples(*final(tx)) == all_samples(*old(tx)),
        room_looks(*final(tx)) == room_looks(*old(tx)).push(n as nat),
        ring_slots(*final(tx)) == ring_slots(*old(tx)),
        noticed_room(*final(tx)) == n,
        noticed_room(*old(tx)) <= n,
        n <= ring_slots(*old(tx)),
{
    tx.slots()
}

/// `rtrb::Producer::write_chunk_uninit` and `WriteChunkUninit::fill_from_iter`:
/// appends `data[from..to]` to the ring, all of it or nothing. It succeeds if
/// that much room has been noticed.
#[verifier::external_body]
pub(crate) fn put_samples(tx: &mut Producer<u32>, data: &[u32], from: usize, to: usize) -> (put:
    bool)
    requires
        from <= to <= data@.len(),
    ensures
        to - from <= noticed_room(*old(tx)) ==> put && noticed_room(*final(tx)) == noticed_room(
            *old(tx),
        ) - (to - from),
        put ==> sent_samples(*final(tx)) == sent_samples(*old(tx)) + data@.subrange(
            from as int,
            to as int,
        ),
        !put ==> sent_samples(*final(tx)) == sent_samples(*old(tx)),
        tried_samples(*final(tx)) == tried_samples(*old(tx)) + data@.subrange(
            from as int,
            to as int,
        ),
        all_samples(*final(tx)) == all_samples(*old(tx)),
        sent_samples(*final(tx)).is_prefix_of(all_samples(*final(tx))),
        room_looks(*final(tx)) == room_looks(*old(tx)),
        ring_slots(*final(tx)) == ring_slots(*old(tx)),
{
    match tx.write_chunk_uninit(to - from) {
        Ok(chunk) => {
            chunk.fill_from_iter(data[from..to].iter().copied());
            true
        },
        Err(_) => false,
    }
}

/// `rtrb::Producer::buffer` and `RingBuffer::capacity`: the number of slots
/// that the ring was made with.
#[verifier::external_body]
pub(crate) fn ring_capacity(tx: &Producer<u32>) -> (n: usize)
    ensures
        n == ring_slots(*tx),
{
    tx.buffer().capacity()
}

/// The two ends of a ring are joined, and the reading end has taken nothing yet.
pub open spec fn joined(tx: Producer<u32>, rx: Consumer<u32>) -> bool {
    upcoming_samples(rx) == all_samples(tx)
}

/// The two ends of a marker ring are joined, and the reading end has taken
/// nothing yet.
pub open spec fn joined_markers(tx: Producer<TrackMarker>, rx: Consumer<TrackMarker>) -> bool {
    upcoming_markers(rx) == all_markers(tx)
}

/// A ring hands out what was put into it: the samples that its reading end takes
/// first are those that its writing end sent first, in the same order.
pub proof fn law_ring_hands_out_what_was_put_in(
    tx0: Producer<u32>,
    rx: Consumer<u32>,
    tx: Producer<u32>,
    i: int,
)
    requires
        joined(tx0, rx),
        all_samples(tx) == all_samples(tx0),
        sent_samples(tx).is_prefix_of(all_samples(tx)),
        0 <= i < sent_samples(tx).len(),
    ensures
        i < upcoming_samples(rx).len(),
        upcoming_samples(rx)[i] == sent_samples(tx)[i],
{
}

/// A marker ring hands out what was put into it, in the same order.
pub proof fn law_markers_arrive_as_sent(
    tx0: Producer<TrackMarker>,
    rx: Consumer<TrackMarker>,
    tx: Producer<TrackMarker>,
    i: int,
)
    requires
        joined_markers(tx0, rx),
        all_markers(tx) == all_markers(tx0),
        sent_markers(tx).is_prefix_of(all_markers(tx)),
        0 <= i < sent_markers(tx).len(),
    ensures
        i < upcoming_markers(rx).len(),
        upcoming_markers(rx)[i] == sent_markers(tx)[i],
{
}

} // verus!
