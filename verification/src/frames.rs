//! Interleaved frames on their way from the decoder to the ring: channel
//! layout, staging for the resampler, and the ring's writing end.

use rtrb::Producer;
use vstd::prelude::*;

use crate::rings::{
    all_samples, count_room, noticed_room, put_samples, ring_capacity, ring_slots, room_looks,
    sent_samples,
};

verus! {

/// Frames handed to the resampler at a time.
pub const RESAMPLE_CHUNK: usize = 1024;

/// The sample that channel `ch` of the device gets from a source frame: its own
/// channel, or the last one there is, or silence.
pub open spec fn channel_sample(frame: Seq<u32>, ch: int) -> u32 {
    if frame.len() == 0 {
        0
    } else if ch < frame.len() {
        frame[ch]
    } else {
        frame.last()
    }
}

/// A source frame on the device's channel layout.
pub open spec fn mapped_frame(frame: Seq<u32>, out_channels: nat) -> Seq<u32> {
    Seq::new(out_channels, |ch: int| channel_sample(frame, ch))
}

/// Maps a decoded source frame onto the device's channel layout. The last
/// available channel is repeated, rather than dropping to silence, when the
/// file has fewer channels than the device.
pub fn write_frame(out: &mut Vec<u32>, frame: &[u32], out_channels: usize)
    ensures
        final(out)@ == old(out)@ + mapped_frame(frame@, out_channels as nat),
{
    let n = frame.len();
    let mut ch: usize = 0;
    while ch < out_channels
        invariant
            ch <= out_channels,
            n == frame@.len(),
            out@ == old(out)@ + mapped_frame(frame@, ch as nat),
        decreases out_channels - ch,
    {
        let v = if n == 0 {
            0
        } else if ch < n {
            frame[ch]
        } else {
            frame[n - 1]
        };
        out.push(v);
        assert(out@ =~= old(out)@ + mapped_frame(frame@, (ch + 1) as nat));
        ch += 1;
    }
}

/// A frame that has the device's channel count is left as it is.
pub proof fn law_matching_layout_is_kept(frame: Seq<u32>)
    ensures
        mapped_frame(frame, frame.len()) == frame,
{
    assert(mapped_frame(frame, frame.len()) =~= frame);
}

/// A mono frame reaches every channel of the device.
pub proof fn law_mono_reaches_every_channel(v: u32, out_channels: nat, ch: int)
    requires
        0 <= ch < out_channels,
    ensures
        mapped_frame(seq![v], out_channels)[ch] == v,
{
}

/// A frame of more channels than the device has is cut off, not mixed.
pub proof fn law_surround_is_truncated(frame: Seq<u32>, out_channels: nat)
    requires
        out_channels <= frame.len(),
    ensures
        mapped_frame(frame, out_channels) == frame.take(out_channels as int),
{
    assert(mapped_frame(frame, out_channels) =~= frame.take(out_channels as int));
}

/// Frame `f` of interleaved samples.
pub open spec fn frame_at(samples: Seq<u32>, channels: nat, f: int) -> Seq<u32> {
    samples.subrange(f * channels, f * channels + channels)
}

/// The first `frames` interleaved source frames on the device's channel layout.
pub open spec fn mapped_frames(
    samples: Seq<u32>,
    frames: nat,
    src_channels: nat,
    out_channels: nat,
) -> Seq<u32>
    decreases frames,
{
    if frames == 0 {
        Seq::empty()
    } else {
        mapped_frames(samples, (frames - 1) as nat, src_channels, out_channels) + mapped_frame(
            frame_at(samples, src_channels, frames - 1),
            out_channels,
        )
    }
}

proof fn lemma_frame_bounds(f: int, frames: int, channels: int, len: int)
    requires
        0 <= f < frames,
        0 <= channels,
        frames * channels <= len,
    ensures
        0 <= f * channels,
        f * channels + channels <= len,
        (f + 1) * channels == f * channels + channels,
{
    assert((f + 1) * channels <= frames * channels) by (nonlinear_arith)
        requires
            f + 1 <= frames,
            0 <= channels,
    ;
    assert((f + 1) * channels == f * channels + channels) by (nonlinear_arith);
    assert(0 <= f * channels) by (nonlinear_arith)
        requires
            0 <= f,
            0 <= channels,
    ;
}

/// Maps a whole packet of interleaved source frames onto the device's channel
/// layout.
pub fn map_frames(samples: &[u32], frames: usize, src_channels: usize, out_channels: usize) -> (out:
    Vec<u32>)
    requires
        frames * src_channels <= samples@.len(),
    ensures
        out@ == mapped_frames(
            samples@,
            frames as nat,
            src_channels as nat,
            out_channels as nat,
        ),
{
    let mut out: Vec<u32> = Vec::new();
    let len = samples.len();
    let mut f: usize = 0;
    let mut at: usize = 0;
    while f < frames
        invariant
            f <= frames,
            len == samples@.len(),
            at == f * src_channels,
            frames * src_channels <= samples@.len(),
            out@ == mapped_frames(samples@, f as nat, src_channels as nat, out_channels as nat),
        decreases frames - f,
    {
        proof {
            lemma_frame_bounds(
                f as int,
                frames as int,
                src_channels as int,
                samples@.len() as int,
            );
        }
        let frame = vstd::slice::slice_subrange(samples, at, at + src_channels);
        write_frame(&mut out, frame, out_channels);
        at += src_channels;
        f += 1;
    }
    out
}

/// Channel `ch` of frame `f` of interleaved samples; silence where the frame has
/// no such channel.
pub open spec fn staged_sample(samples: Seq<u32>, src_channels: nat, f: int, ch: int) -> u32 {
    if ch < src_channels {
        samples[f * src_channels + ch]
    } else {
        0
    }
}

/// Channel `ch` of the frames from `from` up to `to` of interleaved samples.
pub open spec fn staged_samples(
    samples: Seq<u32>,
    src_channels: nat,
    from: int,
    to: int,
    ch: int,
) -> Seq<u32> {
    Seq::new((to - from) as nat, |i: int| staged_sample(samples, src_channels, from + i, ch))
}

/// Planar staging buffers feeding the resampler, one per source channel.
pub struct Stage {
    pub chans: Vec<Vec<u32>>,
}

impl Stage {
    /// There is a channel, and all of them hold the same number of frames, at
    /// most one chunk.
    pub open spec fn wf(self) -> bool {
        &&& self.chans@.len() > 0
        &&& self.depth() <= RESAMPLE_CHUNK
        &&& forall|c: int|
            0 <= c < self.chans@.len() ==> (#[trigger] self.chans@[c])@.len() == self.depth()
    }

    /// The number of frames that are staged.
    pub open spec fn depth(self) -> nat {
        self.chans@[0]@.len()
    }

    /// Empty buffers for `channels` source channels.
    pub fn new(channels: usize) -> (stage: Self)
        requires
            channels > 0,
        ensures
            stage.wf(),
            stage.depth() == 0,
            stage.chans@.len() == channels,
    {
        let mut chans: Vec<Vec<u32>> = Vec::new();
        let mut c: usize = 0;
        while c < channels
            invariant
                c <= channels,
                chans@.len() == c,
                forall|i: int| 0 <= i < c ==> (#[trigger] chans@[i])@.len() == 0,
            decreases channels - c,
        {
            chans.push(Vec::new());
            c += 1;
        }
        Stage { chans }
    }

    /// Forgets what is staged.
    pub fn clear(&mut self)
        requires
            old(self).chans@.len() > 0,
        ensures
            final(self).wf(),
            final(self).depth() == 0,
            final(self).chans@.len() == old(self).chans@.len(),
    {
        let n = self.chans.len();
        *self = Stage::new(n);
    }

    /// Stages one frame: each buffer gets its channel of it, or silence.
    fn push_frame(&mut self, samples: &[u32], src_channels: usize, frames: usize, f: usize)
        requires
            old(self).wf(),
            old(self).depth() < RESAMPLE_CHUNK,
            frames * src_channels <= samples@.len(),
            f < frames,
        ensures
            final(self).wf(),
            final(self).depth() == old(self).depth() + 1,
            final(self).chans@.len() == old(self).chans@.len(),
            forall|c: int|
                0 <= c < old(self).chans@.len() ==> (#[trigger] final(self).chans@[c])@ == old(
                    self,
                ).chans@[c]@.push(
                    staged_sample(samples@, src_channels as nat, f as int, c),
                ),
    {
        let len = samples.len();
        proof {
            lemma_frame_bounds(f as int, frames as int, src_channels as int, len as int);
        }
        let at = f * src_channels;
        let n = self.chans.len();
        let mut c: usize = 0;
        while c < n
            invariant
                c <= n,
                n == self.chans@.len(),
                n == old(self).chans@.len(),
                len == samples@.len(),
                at == f * src_channels,
                at + src_channels <= len,
                forall|i: int|
                    0 <= i < c ==> (#[trigger] self.chans@[i])@ == old(self).chans@[i]@.push(
                        staged_sample(samples@, src_channels as nat, f as int, i),
                    ),
                forall|i: int| c <= i < n ==> #[trigger] self.chans@[i] == old(self).chans@[i],
            decreases n - c,
        {
            let v = if c < src_channels {
                samples[at + c]
            } else {
                0
            };
            self.chans[c].push(v);
            c += 1;
        }
    }

    /// Stages frames of a packet, from frame `from` on, until a chunk is full or
    /// the packet is used up. Says with which frame to go on.
    pub fn absorb(&mut self, samples: &[u32], src_channels: usize, frames: usize, from: usize) -> (next:
        usize)
        requires
            old(self).wf(),
            frames * src_channels <= samples@.len(),
            from <= frames,
        ensures
            final(self).wf(),
            final(self).chans@.len() == old(self).chans@.len(),
            next == if frames - from < RESAMPLE_CHUNK - old(self).depth() {
                frames as int
            } else {
                from + RESAMPLE_CHUNK - old(self).depth()
            },
            forall|c: int|
                0 <= c < old(self).chans@.len() ==> (#[trigger] final(self).chans@[c])@ == old(
                    self,
                ).chans@[c]@ + staged_samples(
                    samples@,
                    src_channels as nat,
                    from as int,
                    next as int,
                    c,
                ),
    {
        let mut f = from;
        let chunk = RESAMPLE_CHUNK;
        while f < frames && self.chans[0].len() < chunk
            invariant
                from <= f <= frames,
                chunk == RESAMPLE_CHUNK,
                frames * src_channels <= samples@.len(),
                self.wf(),
                self.chans@.len() == old(self).chans@.len(),
                self.depth() == old(self).depth() + (f - from),
                forall|c: int|
                    0 <= c < old(self).chans@.len() ==> (#[trigger] self.chans@[c])@ == old(
                        self,
                    ).chans@[c]@ + staged_samples(
                        samples@,
                        src_channels as nat,
                        from as int,
                        f as int,
                        c,
                    ),
            decreases frames - f,
        {
            let ghost before = self.chans@;
            self.push_frame(samples, src_channels, frames, f);
            assert forall|c: int| 0 <= c < old(self).chans@.len() implies (
            #[trigger] self.chans@[c])@ == old(self).chans@[c]@ + staged_samples(
                samples@,
                src_channels as nat,
                from as int,
                f + 1,
                c,
            ) by {
                assert(self.chans@[c]@ == before[c]@.push(
                    staged_sample(samples@, src_channels as nat, f as int, c),
                ));
                assert(self.chans@[c]@ =~= old(self).chans@[c]@ + staged_samples(
                    samples@,
                    src_channels as nat,
                    from as int,
                    f + 1,
                    c,
                ));
            }
            f += 1;
        }
        f
    }

    /// Hands out a full chunk for the resampler, if one is staged.
    pub fn take_chunk(&mut self) -> (chunk: Option<Vec<Vec<u32>>>)
        requires
            old(self).wf(),
        ensures
            final(self).wf(),
            final(self).chans@.len() == old(self).chans@.len(),
            chunk is Some <==> old(self).depth() == RESAMPLE_CHUNK,
            chunk matches Some(c) ==> c@ == old(self).chans@ && final(self).depth() == 0,
            chunk is None ==> *final(self) == *old(self),
    {
        if self.chans[0].len() < RESAMPLE_CHUNK {
            return None;
        }
        let n = self.chans.len();
        let mut fresh = Stage::new(n);
        std::mem::swap(&mut self.chans, &mut fresh.chans);
        Some(fresh.chans)
    }
}

/// Frame `i` of planar channels.
pub open spec fn planar_frame(chans: Seq<Vec<u32>>, i: int) -> Seq<u32> {
    Seq::new(chans.len(), |c: int| chans[c]@[i])
}

/// The first `n` frames of planar channels on the device's channel layout.
pub open spec fn interleaved(chans: Seq<Vec<u32>>, n: nat, out_channels: nat) -> Seq<u32>
    decreases n,
{
    if n == 0 {
        Seq::empty()
    } else {
        interleaved(chans, (n - 1) as nat, out_channels) + mapped_frame(
            planar_frame(chans, n - 1),
            out_channels,
        )
    }
}

/// The number of frames that resampled channels hold: that of the first one.
pub open spec fn planar_len(chans: Seq<Vec<u32>>) -> nat {
    if chans.len() == 0 {
        0
    } else {
        chans[0]@.len()
    }
}

/// Interleaves resampled channels on the device's channel layout.
pub fn interleave(chans: &Vec<Vec<u32>>, out_channels: usize) -> (out: Vec<u32>)
    requires
        forall|c: int| 0 <= c < chans@.len() ==> (#[trigger] chans@[c])@.len() >= planar_len(chans@),
    ensures
        out@ == interleaved(chans@, planar_len(chans@), out_channels as nat),
{
    let mut out: Vec<u32> = Vec::new();
    let count = chans.len();
    if count == 0 {
        return out;
    }
    let n = chans[0].len();
    let mut i: usize = 0;
    while i < n
        invariant
            i <= n,
            count == chans@.len(),
            n == planar_len(chans@),
            forall|c: int| 0 <= c < chans@.len() ==> (#[trigger] chans@[c])@.len() >= n,
            out@ == interleaved(chans@, i as nat, out_channels as nat),
        decreases n - i,
    {
        let mut frame: Vec<u32> = Vec::new();
        let mut c: usize = 0;
        while c < count
            invariant
                i < n,
                c <= count,
                count == chans@.len(),
                forall|c: int| 0 <= c < chans@.len() ==> (#[trigger] chans@[c])@.len() >= n,
                frame@.len() == c,
                forall|k: int| 0 <= k < c ==> #[trigger] frame@[k] == chans@[k]@[i as int],
            decreases count - c,
        {
            frame.push(chans[c][i]);
            c += 1;
        }
        assert(frame@ =~= planar_frame(chans@, i as int));
        write_frame(&mut out, frame.as_slice(), out_channels);
        i += 1;
    }
    out
}

/// What to do with decoded audio next.
pub enum FeedStep {
    /// Push these interleaved samples into the ring.
    Push(Vec<u32>),
    /// Resample this chunk and push what comes of it.
    Resample(Vec<Vec<u32>>),
    /// Decode the next packet.
    Done,
}

/// A decoded packet on its way to the ring.
pub struct PacketFeed {
    pub samples: Vec<u32>,
    pub frames: usize,
    pub channels: usize,
    /// The first frame that has not been fed yet.
    pub next: usize,
}

impl PacketFeed {
    /// The packet holds the frames that it says it does.
    pub open spec fn wf(self) -> bool {
        self.frames * self.channels <= self.samples@.len() && self.next <= self.frames
    }

    /// A packet of `frames` interleaved frames.
    pub fn new(samples: Vec<u32>, frames: usize, channels: usize) -> (feed: Self)
        requires
            frames * channels <= samples@.len(),
        ensures
            feed.wf(),
            feed.samples == samples,
            feed.frames == frames,
            feed.channels == channels,
            feed.next == 0,
    {
        PacketFeed { samples, frames, channels, next: 0 }
    }

    /// Feeds the packet to a device that runs at its rate: straight through, on
    /// the device's channel layout.
    pub fn feed_straight(&mut self, out_channels: usize) -> (step: FeedStep)
        requires
            old(self).wf(),
        ensures
            final(self).wf(),
            *final(self) == (PacketFeed { next: old(self).frames, ..*old(self) }),
            old(self).next < old(self).frames ==> (step matches FeedStep::Push(out) && out@
                == mapped_frames(
                old(self).samples@,
                old(self).frames as nat,
                old(self).channels as nat,
                out_channels as nat,
            )),
            old(self).next == old(self).frames ==> step == FeedStep::Done,
            fed_straight(*old(self), out_channels, *final(self), step),
    {
        if self.next == self.frames {
            return FeedStep::Done;
        }
        self.next = self.frames;
        FeedStep::Push(
            map_frames(self.samples.as_slice(), self.frames, self.channels, out_channels),
        )
    }

    /// Feeds the packet to the resampler, one full chunk at a time; what does not
    /// fill a chunk stays staged for the next packet.
    pub fn feed_staged(&mut self, stage: &mut Stage) -> (step: FeedStep)
        requires
            old(self).wf(),
            old(stage).wf(),
        ensures
            final(self).wf(),
            final(stage).wf(),
            *final(self) == (PacketFeed { next: final(self).next, ..*old(self) }),
            old(self).next <= final(self).next,
            final(stage).chans@.len() == old(stage).chans@.len(),
            !(step is Push),
            step is Resample <==> old(self).frames - old(self).next + old(stage).depth()
                >= RESAMPLE_CHUNK,
            step matches FeedStep::Resample(chunk) ==> {
                &&& final(self).next == old(self).next + RESAMPLE_CHUNK - old(stage).depth()
                &&& final(stage).depth() == 0
                &&& chunk@.len() == old(stage).chans@.len()
                &&& forall|c: int|
                    0 <= c < chunk@.len() ==> (#[trigger] chunk@[c])@ == old(stage).chans@[c]@
                        + staged_samples(
                        old(self).samples@,
                        old(self).channels as nat,
                        old(self).next as int,
                        final(self).next as int,
                        c,
                    )
            },
            step is Done ==> {
                &&& final(self).next == old(self).frames
                &&& forall|c: int|
                    0 <= c < old(stage).chans@.len() ==> (#[trigger] final(stage).chans@[c])@ == old(
                        stage,
                    ).chans@[c]@ + staged_samples(
                        old(self).samples@,
                        old(self).channels as nat,
                        old(self).next as int,
                        old(self).frames as int,
                        c,
                    )
            },
            fed_staged(*old(self), *old(stage), *final(self), *final(stage), step),
    {
        self.next = stage.absorb(self.samples.as_slice(), self.channels, self.frames, self.next);
        match stage.take_chunk() {
            Some(chunk) => FeedStep::Resample(chunk),
            None => FeedStep::Done,
        }
    }
}

/// The resampler gets every frame once and in order: what two steps stage of a
/// packet is what one step over both would.
pub proof fn law_staging_keeps_the_order(
    samples: Seq<u32>,
    src_channels: nat,
    from: int,
    mid: int,
    to: int,
    ch: int,
)
    requires
        from <= mid <= to,
    ensures
        staged_samples(samples, src_channels, from, mid, ch) + staged_samples(
            samples,
            src_channels,
            mid,
            to,
            ch,
        ) == staged_samples(samples, src_channels, from, to, ch),
{
    assert(staged_samples(samples, src_channels, from, mid, ch) + staged_samples(
        samples,
        src_channels,
        mid,
        to,
        ch,
    ) =~= staged_samples(samples, src_channels, from, to, ch));
}

/// A mapped packet holds one device frame for each of its frames.
pub proof fn law_mapping_keeps_the_frame_count(
    samples: Seq<u32>,
    frames: nat,
    src_channels: nat,
    out_channels: nat,
)
    ensures
        mapped_frames(samples, frames, src_channels, out_channels).len() == frames * out_channels,
    decreases frames,
{
    if frames > 0 {
        law_mapping_keeps_the_frame_count(
            samples,
            (frames - 1) as nat,
            src_channels,
            out_channels,
        );
        assert((frames - 1) * out_channels + out_channels == frames * out_channels)
            by (nonlinear_arith);
    } else {
        assert(0 * out_channels == 0) by (nonlinear_arith);
    }
}

/// A packet that has the device's channel count reaches the ring bit for bit.
pub proof fn law_matching_packet_is_kept(samples: Seq<u32>, frames: nat, channels: nat)
    requires
        frames * channels <= samples.len(),
    ensures
        mapped_frames(samples, frames, channels, channels) == samples.take(
            (frames * channels) as int,
        ),
    decreases frames,
{
    if frames == 0 {
        vstd::arithmetic::mul::lemma_mul_by_zero_is_zero(channels as int);
        assert(samples.take(0) =~= Seq::empty());
    } else {
        let f = frames - 1;
        lemma_frame_bounds(f, frames as int, channels as int, samples.len() as int);
        law_matching_packet_is_kept(samples, f as nat, channels);
        law_matching_layout_is_kept(frame_at(samples, channels, f));
        assert(samples.take(f * channels) + frame_at(samples, channels, f) =~= samples.take(
            (frames * channels) as int,
        ));
    }
}

/// How many samples to write next: as many as there is room for.
pub fn next_write(space: usize, pushed: usize, len: usize) -> (n: usize)
    requires
        pushed <= len,
    ensures
        n == if space <= len - pushed {
            space as int
        } else {
            len - pushed
        },
        n == write_len(space as int, pushed as int, len as int),
{
    if space <= len - pushed {
        space
    } else {
        len - pushed
    }
}

/// Writes as much of `data[pushed..]` into the ring as it has room for. Says
/// how much of `data` is in the ring then.
pub fn push_some(tx: &mut Producer<u32>, data: &[u32], pushed: usize) -> (now: usize)
    requires
        pushed <= data@.len(),
    ensures
        pushed <= now <= data@.len(),
        sent_samples(*final(tx)) == sent_samples(*old(tx)) + data@.subrange(
            pushed as int,
            now as int,
        ),
        all_samples(*final(tx)) == all_samples(*old(tx)),
        sent_samples(*final(tx)).is_prefix_of(all_samples(*final(tx))),
        ring_slots(*final(tx)) == ring_slots(*old(tx)),
        noticed_room(*old(tx)) <= noticed_room(*final(tx)) + (now - pushed),
        now == data@.len() || noticed_room(*final(tx)) == 0,
        room_looks(*final(tx)) == room_looks(*old(tx)).push(
            noticed_room(*final(tx)) + (now - pushed) as nat,
        ),
        pushed_some(*old(tx), data@, pushed, *final(tx), now),
{
    let space = count_room(tx);
    let n = next_write(space, pushed, data.len());
    put_samples(tx, data, pushed, pushed + n);
    pushed + n
}

/// Writing in pieces puts the same samples into the ring, in the same order, as
/// writing at once.
pub proof fn law_pieces_keep_the_order(
    tx0: Producer<u32>,
    tx1: Producer<u32>,
    tx2: Producer<u32>,
    data: Seq<u32>,
    from: int,
    mid: int,
    to: int,
)
    requires
        0 <= from <= mid <= to <= data.len(),
        sent_samples(tx1) == sent_samples(tx0) + data.subrange(from, mid),
        sent_samples(tx2) == sent_samples(tx1) + data.subrange(mid, to),
    ensures
        sent_samples(tx2) == sent_samples(tx0) + data.subrange(from, to),
{
    assert(sent_samples(tx2) =~= sent_samples(tx0) + data.subrange(from, to));
}

/// Frames that `len` interleaved samples make up.
pub fn frame_count(len: usize, out_channels: usize) -> (frames: u64)
    ensures
        out_channels > 0 ==> frames == len / out_channels,
        out_channels == 0 ==> frames == len,
        frames == frames_in(len as int, out_channels as int),
{
    let channels = if out_channels == 0 {
        1
    } else {
        out_channels
    };
    (len / channels) as u64
}

/// The writing end of the sample ring, as the decoder finds it.
#[derive(Clone, Copy, Debug, PartialEq, Eq)]
pub struct Room {
    pub free: usize,
    pub slots: usize,
}

/// Looks how much of the ring is free.
pub fn ring_room(tx: &mut Producer<u32>) -> (room: Room)
    ensures
        room.free <= room.slots,
        room.slots == ring_slots(*old(tx)),
        noticed_room(*old(tx)) <= room.free,
        noticed_room(*final(tx)) == room.free,
        room_looks(*final(tx)) == room_looks(*old(tx)).push(room.free as nat),
        sent_samples(*final(tx)) == sent_samples(*old(tx)),
        all_samples(*final(tx)) == all_samples(*old(tx)),
        ring_slots(*final(tx)) == ring_slots(*old(tx)),
        is_room_of(*old(tx), room, *final(tx)),
{
    let free = count_room(tx);
    let slots = ring_capacity(tx);
    Room { free, slots }
}

/// What each channel of the device gets of a frame, however many channels either
/// has: its own channel where the frame has it, the last one where it does not,
/// and silence from an empty frame.
pub proof fn law_each_channel_gets_its_own_or_the_last(frame: Seq<u32>, out_channels: nat, ch: int)
    requires
        0 <= ch < out_channels,
    ensures
        mapped_frame(frame, out_channels).len() == out_channels,
        ch < frame.len() ==> mapped_frame(frame, out_channels)[ch] == frame[ch],
        0 < frame.len() <= ch ==> mapped_frame(frame, out_channels)[ch] == frame[frame.len() - 1],
        frame.len() == 0 ==> mapped_frame(frame, out_channels)[ch] == 0,
{
}

/// The channel of a source that a channel of the device plays.
pub open spec fn played_channel(ch: int, src_channels: int) -> int {
    if ch < src_channels {
        ch
    } else {
        src_channels - 1
    }
}

/// Where frames of `width` samples are put behind each other, the place of a
/// sample tells its frame and its channel.
proof fn lemma_place(f: int, n: int, ch: int, width: int)
    requires
        0 <= f < n,
        0 <= ch < width,
    ensures
        0 <= f * width + ch < n * width,
        f < n - 1 ==> f * width + ch < (n - 1) * width,
        f == n - 1 ==> f * width + ch - (n - 1) * width == ch,
        (n - 1) * width + width == n * width,
{
    assert(0 <= f * width) by (nonlinear_arith)
        requires
            0 <= f,
            0 < width,
    ;
    assert((f + 1) * width <= n * width) by (nonlinear_arith)
        requires
            f + 1 <= n,
            0 < width,
    ;
    assert((f + 1) * width == f * width + width) by (nonlinear_arith);
    assert((n - 1) * width + width == n * width) by (nonlinear_arith);
    if f < n - 1 {
        assert((f + 1) * width <= (n - 1) * width) by (nonlinear_arith)
            requires
                f + 1 <= n - 1,
                0 < width,
        ;
    }
}

/// Sample by sample, what a packet becomes on the device: channel `ch` of frame
/// `f` is that channel of the same frame of the packet, or its last channel where
/// the device has more.
pub proof fn law_mapped_samples_come_from_their_frame(
    samples: Seq<u32>,
    frames: nat,
    src_channels: nat,
    out_channels: nat,
    f: int,
    ch: int,
)
    requires
        src_channels > 0,
        frames * src_channels <= samples.len(),
        0 <= f < frames,
        0 <= ch < out_channels,
    ensures
        0 <= f * out_channels + ch < mapped_frames(
            samples,
            frames,
            src_channels,
            out_channels,
        ).len(),
        mapped_frames(samples, frames, src_channels, out_channels)[f * out_channels + ch]
            == samples[f * src_channels + played_channel(ch, src_channels as int)],
    decreases frames,
{
    law_mapping_keeps_the_frame_count(samples, frames, src_channels, out_channels);
    law_mapping_keeps_the_frame_count(
        samples,
        (frames - 1) as nat,
        src_channels,
        out_channels,
    );
    lemma_place(f, frames as int, ch, out_channels as int);
    lemma_frame_bounds(f, frames as int, src_channels as int, samples.len() as int);
    if f < frames - 1 {
        lemma_place(f, frames - 1, ch, out_channels as int);
        lemma_frame_bounds(
            frames - 2,
            frames as int,
            src_channels as int,
            samples.len() as int,
        );
        lemma_frame_bounds(
            frames - 1,
            frames as int,
            src_channels as int,
            samples.len() as int,
        );
        law_mapped_samples_come_from_their_frame(
            samples,
            (frames - 1) as nat,
            src_channels,
            out_channels,
            f,
            ch,
        );
    } else {
        let frame = frame_at(samples, src_channels, f);
        law_each_channel_gets_its_own_or_the_last(frame, out_channels, ch);
        assert(frame[played_channel(ch, src_channels as int)] == samples[f * src_channels
            + played_channel(ch, src_channels as int)]);
    }
}

/// Sample by sample, what resampled channels become on the device: channel `ch`
/// of frame `i` is sample `i` of that channel, or of the last channel where the
/// device has more. Mono reaches every channel.
pub proof fn law_interleaved_samples_come_from_their_channel(
    chans: Seq<Vec<u32>>,
    n: nat,
    out_channels: nat,
    i: int,
    ch: int,
)
    requires
        chans.len() > 0,
        forall|c: int| 0 <= c < chans.len() ==> (#[trigger] chans[c])@.len() >= n,
        0 <= i < n,
        0 <= ch < out_channels,
    ensures
        interleaved(chans, n, out_channels).len() == n * out_channels,
        0 <= i * out_channels + ch < n * out_channels,
        interleaved(chans, n, out_channels)[i * out_channels + ch] == chans[played_channel(
            ch,
            chans.len() as int,
        )]@[i],
    decreases n,
{
    lemma_interleaved_len(chans, n, out_channels);
    lemma_interleaved_len(chans, (n - 1) as nat, out_channels);
    lemma_place(i, n as int, ch, out_channels as int);
    if i < n - 1 {
        law_interleaved_samples_come_from_their_channel(
            chans,
            (n - 1) as nat,
            out_channels,
            i,
            ch,
        );
    } else {
        law_each_channel_gets_its_own_or_the_last(planar_frame(chans, i), out_channels, ch);
    }
}

proof fn lemma_interleaved_len(chans: Seq<Vec<u32>>, n: nat, out_channels: nat)
    ensures
        interleaved(chans, n, out_channels).len() == n * out_channels,
    decreases n,
{
    if n > 0 {
        lemma_interleaved_len(chans, (n - 1) as nat, out_channels);
        assert((n - 1) * out_channels + out_channels == n * out_channels) by (nonlinear_arith);
    } else {
        assert(0 * out_channels == 0) by (nonlinear_arith);
    }
}

/// Audio takes the same shape on the device whether it went through the resampler
/// or not: interleaving the planes of a packet gives the samples that mapping the
/// packet straight through gives.
pub proof fn law_both_ways_lead_to_the_same_layout(
    samples: Seq<u32>,
    frames: nat,
    channels: nat,
    chans: Seq<Vec<u32>>,
    out_channels: nat,
)
    requires
        channels > 0,
        frames * channels <= samples.len(),
        chans.len() == channels,
        forall|c: int|
            0 <= c < channels ==> (#[trigger] chans[c])@ == staged_samples(
                samples,
                channels,
                0,
                frames as int,
                c,
            ),
    ensures
        interleaved(chans, frames, out_channels) == mapped_frames(
            samples,
            frames,
            channels,
            out_channels,
        ),
{
    lemma_same_layout(samples, frames, channels, chans, out_channels, frames);
}

proof fn lemma_same_layout(
    samples: Seq<u32>,
    frames: nat,
    channels: nat,
    chans: Seq<Vec<u32>>,
    out_channels: nat,
    n: nat,
)
    requires
        channels > 0,
        frames * channels <= samples.len(),
        n <= frames,
        chans.len() == channels,
        forall|c: int|
            0 <= c < channels ==> (#[trigger] chans[c])@ == staged_samples(
                samples,
                channels,
                0,
                frames as int,
                c,
            ),
    ensures
        interleaved(chans, n, out_channels) == mapped_frames(samples, n, channels, out_channels),
    decreases n,
{
    if n > 0 {
        lemma_same_layout(samples, frames, channels, chans, out_channels, (n - 1) as nat);
        lemma_frame_bounds(n - 1, frames as int, channels as int, samples.len() as int);
        assert(planar_frame(chans, n - 1) =~= frame_at(samples, channels, n - 1));
    }
}

/// What is staged of a packet for one channel: that channel of each frame, in
/// order, and silence for a channel that the packet does not have.
pub proof fn law_staged_samples_come_from_their_frame(
    samples: Seq<u32>,
    src_channels: nat,
    from: int,
    to: int,
    ch: int,
    i: int,
)
    requires
        0 <= from <= to,
        0 <= ch,
        0 <= i < to - from,
    ensures
        staged_samples(samples, src_channels, from, to, ch).len() == to - from,
        ch < src_channels ==> staged_samples(samples, src_channels, from, to, ch)[i]
            == samples[(from + i) * src_channels + ch],
        ch >= src_channels ==> staged_samples(samples, src_channels, from, to, ch)[i] == 0,
{
}

/// What one step of feeding a packet to the resampler does.
pub open spec fn fed_staged(
    f0: PacketFeed,
    s0: Stage,
    f1: PacketFeed,
    s1: Stage,
    step: FeedStep,
) -> bool {
    &&& f1 == PacketFeed { next: f1.next, ..f0 }
    &&& f0.next <= f1.next <= f0.frames
    &&& s1.wf()
    &&& s1.chans@.len() == s0.chans@.len()
    &&& match step {
        FeedStep::Push(_) => false,
        FeedStep::Resample(chunk) => {
            &&& s1.depth() == 0
            &&& chunk@.len() == s0.chans@.len()
            &&& forall|c: int|
                0 <= c < chunk@.len() ==> (#[trigger] chunk@[c])@.len() == RESAMPLE_CHUNK
                    && chunk@[c]@ == s0.chans@[c]@ + staged_samples(
                    f0.samples@,
                    f0.channels as nat,
                    f0.next as int,
                    f1.next as int,
                    c,
                )
        },
        FeedStep::Done => {
            &&& f1.next == f0.frames
            &&& s1.depth() < RESAMPLE_CHUNK
            &&& forall|c: int|
                0 <= c < s0.chans@.len() ==> (#[trigger] s1.chans@[c])@ == s0.chans@[c]@
                    + staged_samples(
                    f0.samples@,
                    f0.channels as nat,
                    f0.next as int,
                    f0.frames as int,
                    c,
                )
        },
    }
}

/// No frame is lost, made up or moved on the way to the resampler: sample `i` of
/// what a step hands out, or leaves staged, was staged there before, or is that
/// of the next frames of the packet. What is handed out is exactly one chunk, and
/// nothing stays staged then; what stays staged is less than one, and the packet
/// is used up then.
pub proof fn law_every_frame_reaches_the_resampler(
    f0: PacketFeed,
    s0: Stage,
    f1: PacketFeed,
    s1: Stage,
    step: FeedStep,
    c: int,
    i: int,
)
    requires
        s0.wf(),
        f0.wf(),
        fed_staged(f0, s0, f1, s1, step),
        0 <= c < s0.chans@.len(),
        0 <= i < s0.chans@[c]@.len() + (f1.next - f0.next),
    ensures
        ({
            let was = s0.chans@[c]@;
            let sample = if i < was.len() {
                was[i]
            } else if c < f0.channels {
                f0.samples@[(f0.next + i - was.len()) * f0.channels + c]
            } else {
                0
            };
            &&& step matches FeedStep::Resample(chunk) ==> chunk@[c]@.len() == 1024
                && chunk@[c]@.len() == was.len() + (f1.next - f0.next) && chunk@[c]@[i] == sample
                && s1.chans@[c]@.len() == 0
            &&& step is Done ==> f1.next == f0.frames && s1.chans@[c]@.len() < 1024
                && s1.chans@[c]@.len() == was.len() + (f1.next - f0.next) && s1.chans@[c]@[i]
                == sample
            &&& !(step is Push)
        }),
{
}

/// A packet that goes straight to the device goes there whole and once.
pub open spec fn fed_straight(
    f0: PacketFeed,
    out_channels: usize,
    f1: PacketFeed,
    step: FeedStep,
) -> bool {
    &&& f1 == PacketFeed { next: f0.frames, ..f0 }
    &&& if f0.next < f0.frames {
        step matches FeedStep::Push(out) && out@ == mapped_frames(
            f0.samples@,
            f0.frames as nat,
            f0.channels as nat,
            out_channels as nat,
        )
    } else {
        step is Done
    }
}

/// A packet that has the device's channel count goes to the ring bit for bit, and
/// is not fed twice.
pub proof fn law_straight_packets_are_fed_once(
    f0: PacketFeed,
    out_channels: usize,
    f1: PacketFeed,
    step: FeedStep,
    f2: PacketFeed,
    again: FeedStep,
)
    requires
        f0.wf(),
        f0.next < f0.frames,
        fed_straight(f0, out_channels, f1, step),
        fed_straight(f1, out_channels, f2, again),
    ensures
        step is Push,
        step matches FeedStep::Push(out) ==> out@.len() == f0.frames * out_channels,
        f0.channels == out_channels ==> (step matches FeedStep::Push(out) ==> out@
            == f0.samples@.take(f0.frames * out_channels)),
        again is Done,
        f2 == f1,
{
    law_mapping_keeps_the_frame_count(
        f0.samples@,
        f0.frames as nat,
        f0.channels as nat,
        out_channels as nat,
    );
    if f0.channels == out_channels {
        law_matching_packet_is_kept(f0.samples@, f0.frames as nat, f0.channels as nat);
    }
}

/// What one attempt to write the rest of `data` into the ring does.
pub open spec fn pushed_some(
    tx0: Producer<u32>,
    data: Seq<u32>,
    pushed: usize,
    tx1: Producer<u32>,
    now: usize,
) -> bool {
    &&& pushed <= now <= data.len()
    &&& sent_samples(tx1) == sent_samples(tx0) + data.subrange(pushed as int, now as int)
    &&& room_looks(tx1) == room_looks(tx0).push(noticed_room(tx1) + (now - pushed) as nat)
    &&& now == data.len() || noticed_room(tx1) == 0
}

/// As much is written as there is room for: all of it where the look at the ring
/// found enough, and otherwise exactly what it found. Each sample goes behind
/// what was sent, in its order.
pub proof fn law_writes_fill_the_room_there_is(
    tx0: Producer<u32>,
    data: Seq<u32>,
    pushed: usize,
    tx1: Producer<u32>,
    now: usize,
    i: int,
)
    requires
        pushed <= data.len(),
        pushed_some(tx0, data, pushed, tx1, now),
    ensures
        ({
            let space = room_looks(tx1).last();
            &&& space >= data.len() - pushed ==> now == data.len()
            &&& space < data.len() - pushed ==> now == pushed + space
        }),
        sent_samples(tx1).len() == sent_samples(tx0).len() + (now - pushed),
        0 <= i < sent_samples(tx0).len() ==> sent_samples(tx1)[i] == sent_samples(tx0)[i],
        pushed <= i < now ==> sent_samples(tx1)[sent_samples(tx0).len() + (i - pushed)] == data[i],
{
}

/// How much of what is left is written at once.
pub open spec fn write_len(space: int, pushed: int, len: int) -> int {
    if space <= len - pushed {
        space
    } else {
        len - pushed
    }
}

/// How many frames so many interleaved samples are; without channels, each sample
/// counts as one.
pub open spec fn frames_in(len: int, out_channels: int) -> int {
    if out_channels == 0 {
        len
    } else {
        len / out_channels
    }
}

/// The room that a look at the ring finds.
pub open spec fn is_room_of(tx0: Producer<u32>, room: Room, tx1: Producer<u32>) -> bool {
    &&& room.free <= room.slots
    &&& room.slots == ring_slots(tx0)
    &&& noticed_room(tx0) <= room.free
    &&& noticed_room(tx1) == room.free
    &&& room_looks(tx1) == room_looks(tx0).push(room.free as nat)
    &&& sent_samples(tx1) == sent_samples(tx0)
}

/// A write takes no more than there is room for and no more than is left, and all
/// of the one or of the other.
pub proof fn law_writes_take_what_fits(space: int, pushed: int, len: int)
    requires
        0 <= space,
        0 <= pushed <= len,
    ensures
        0 <= write_len(space, pushed, len) <= space,
        pushed + write_len(space, pushed, len) <= len,
        write_len(space, pushed, len) == space || pushed + write_len(space, pushed, len) == len,
{
}

/// Frames are whole: so many of them are in the samples, and not one more. What
/// was interleaved from frames counts as that many.
pub proof fn law_frames_are_counted_whole(len: int, out_channels: int, frames: int)
    requires
        0 <= len,
        0 < out_channels,
        0 <= frames,
    ensures
        frames_in(len, out_channels) * out_channels <= len,
        len < (frames_in(len, out_channels) + 1) * out_channels,
        frames_in(frames * out_channels, out_channels) == frames,
        frames_in(len, 0) == len,
{
    vstd::arithmetic::div_mod::lemma_fundamental_div_mod(len, out_channels);
    vstd::arithmetic::div_mod::lemma_mod_bound(len, out_channels);
    vstd::arithmetic::div_mod::lemma_div_multiples_vanish(frames, out_channels);
    vstd::arithmetic::mul::lemma_mul_is_commutative(frames, out_channels);
    vstd::arithmetic::mul::lemma_mul_is_commutative(len / out_channels, out_channels);
    vstd::arithmetic::mul::lemma_mul_is_distributive_add_other_way(
        out_channels,
        len / out_channels,
        1,
    );
}

/// The decoder goes by what its look found: the slots of the ring, and how many of
/// them were free then. Looking changes nothing of what was sent.
pub proof fn law_looks_find_the_room_there_is(tx0: Producer<u32>, room: Room, tx1: Producer<u32>)
    requires
        is_room_of(tx0, room, tx1),
    ensures
        room_looks(tx1).last() == room.free,
        room_looks(tx1).len() == room_looks(tx0).len() + 1,
        room.free >= room.slots <==> room_looks(tx1).last() == ring_slots(tx0),
        sent_samples(tx1) == sent_samples(tx0),
{
}

/// Feeding a packet leaves the packet as it is: only the place in it moves on.
pub proof fn law_packets_are_not_changed(
    f0: PacketFeed,
    s0: Stage,
    f1: PacketFeed,
    s1: Stage,
    step: FeedStep,
)
    requires
        fed_staged(f0, s0, f1, s1, step),
    ensures
        f1.samples == f0.samples,
        f1.frames == f0.frames,
        f1.channels == f0.channels,
        f0.next <= f1.next <= f1.frames,
{
}

} // verus!
