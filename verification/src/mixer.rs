//! The output callback's side of playback: what reaches the device, and which
//! position of which track that is.

use rtrb::{Consumer, Producer};
use vstd::arithmetic::div_mod::{
    lemma_basic_div, lemma_div_is_ordered, lemma_fundamental_div_mod, lemma_hoist_over_denominator,
};
use vstd::arithmetic::mul::{
    lemma_mul_by_zero_is_zero, lemma_mul_is_commutative, lemma_mul_is_distributive_add_other_way,
};
use vstd::prelude::*;

use crate::engine::MARKER_SLOTS;
use crate::rings::{
    all_samples, count_samples, drop_samples, marker_takes, noticed_room, noticed_samples,
    put_sample, sample_looks, sent_samples, take_marker, take_samples, tried_samples,
    upcoming_markers, upcoming_samples, TrackMarker,
};
use crate::shared::{starts, Shared};

verus! {

/// How many of `ready` queued samples go into a buffer of `len` samples: as
/// many as fit, in whole frames of `channels` samples.
pub open spec fn whole_frames(len: nat, ready: nat, channels: nat) -> nat {
    let want = if len <= ready { len } else { ready };
    (want / channels) * channels
}

/// Everything the output callback needs, apart from the filters it applies.
pub struct Mixer {
    pub audio_rx: Consumer<u32>,
    pub marker_rx: Consumer<TrackMarker>,
    pub fft_tx: Producer<u32>,
    pub channels: usize,
    pub eq_seen: u64,
    pub flush_seen: u64,
    pub origin_global: u64,
    pub origin_pos: u64,
    /// Track boundaries that were taken from their ring and lie ahead.
    pub pending: Vec<TrackMarker>,
}

/// What one call of [`Mixer::fill`] did, for the filters that come after it.
#[derive(Clone, Copy, Debug, PartialEq, Eq)]
pub struct Filled {
    /// Samples of the buffer that hold queued audio; the rest is silence.
    pub samples: usize,
    /// The equalizer settings have changed since the last call.
    pub retune: bool,
    /// Queued audio was thrown away: filter memory belongs to the old audio.
    pub flushed: bool,
    /// A track boundary was crossed, and the current track set.
    pub crossed: bool,
}

/// [`whole_frames`] in executable form: how many of `ready` queued samples go
/// into a buffer of `len` samples.
pub fn usable_samples(len: usize, ready: usize, channels: usize) -> (n: usize)
    requires
        channels > 0,
    ensures
        n == whole_frames(len as nat, ready as nat, channels as nat),
        n <= len,
        n <= ready,
        n % channels == 0,
{
    let want = if len <= ready { len } else { ready };
    proof {
        lemma_whole(want as int, channels as int);
    }
    (want / channels) * channels
}

proof fn lemma_whole(want: int, channels: int)
    requires
        want >= 0,
        channels > 0,
    ensures
        0 <= (want / channels) * channels <= want,
        ((want / channels) * channels) % channels == 0,
        ((want / channels) * channels) / channels == want / channels,
{
    lemma_fundamental_div_mod(want, channels);
    lemma_mul_is_commutative(want / channels, channels);
    vstd::arithmetic::div_mod::lemma_mod_multiples_basic(want / channels, channels);
    vstd::arithmetic::div_mod::lemma_div_multiples_vanish(want / channels, channels);
    vstd::arithmetic::mul::lemma_mul_nonnegative(want / channels, channels);
    vstd::arithmetic::div_mod::lemma_div_pos_is_pos(want, channels);
}

/// The position that `played` frames since start-up amount to, in a track whose
/// frame `origin_pos` was the global frame `origin_global`.
pub open spec fn position_at(origin_global: u64, origin_pos: u64, played: u64) -> u64 {
    let inside: int = if played >= origin_global {
        played - origin_global
    } else {
        0
    };
    if origin_pos + inside <= u64::MAX {
        (origin_pos + inside) as u64
    } else {
        u64::MAX
    }
}

/// How many of the markers `ms`, counted from the front, lie behind once `played`
/// frames have been played: all up to the last one that has been reached. A
/// marker in front of it that has not been reached belongs to audio that was
/// thrown away.
pub open spec fn passed(ms: Seq<TrackMarker>, played: u64) -> nat
    decreases ms.len(),
{
    if ms.len() == 0 {
        0
    } else if ms.last().at_global_frame <= played {
        ms.len()
    } else {
        passed(ms.drop_last(), played)
    }
}

/// The last marker that lies behind has been reached, and none that lies ahead.
proof fn lemma_passed(ms: Seq<TrackMarker>, played: u64)
    ensures
        passed(ms, played) <= ms.len(),
        passed(ms, played) > 0 ==> ms[passed(ms, played) - 1].at_global_frame <= played,
        forall|i: int|
            passed(ms, played) <= i < ms.len() ==> (#[trigger] ms[i]).at_global_frame > played,
    decreases ms.len(),
{
    if ms.len() > 0 && ms.last().at_global_frame > played {
        lemma_passed(ms.drop_last(), played);
        assert forall|i: int| passed(ms, played) <= i < ms.len() implies (
        #[trigger] ms[i]).at_global_frame > played by {
            if i < ms.len() - 1 {
                assert(ms.drop_last()[i] == ms[i]);
            }
        }
    }
}

/// `n` markers lie behind if the last of them has been reached and none beyond.
proof fn lemma_passed_is(ms: Seq<TrackMarker>, played: u64, n: nat)
    requires
        n <= ms.len(),
        n > 0 ==> ms[n - 1].at_global_frame <= played,
        forall|i: int| n <= i < ms.len() ==> (#[trigger] ms[i]).at_global_frame > played,
    ensures
        passed(ms, played) == n,
{
    lemma_passed(ms, played);
    let p = passed(ms, played);
    if p < n {
        assert(ms[n - 1].at_global_frame > played);
    } else if p > n {
        assert(ms[p - 1].at_global_frame > played);
    }
}

/// What lies behind later is what lies behind now, and what of the rest has been
/// reached meanwhile.
proof fn lemma_passed_in_steps(ms: Seq<TrackMarker>, now: u64, later: u64)
    requires
        now <= later,
    ensures
        passed(ms, now) <= ms.len(),
        passed(ms, later) == passed(ms, now) + passed(
            ms.skip(passed(ms, now) as int),
            later,
        ),
{
    lemma_passed(ms, now);
    let p = passed(ms, now);
    let rest = ms.skip(p as int);
    lemma_passed(rest, later);
    let q = passed(rest, later);
    if q > 0 {
        assert(rest[q - 1] == ms[p + q - 1]);
    }
    assert forall|i: int| p + q <= i < ms.len() implies (#[trigger] ms[i]).at_global_frame
        > later by {
        assert(rest[i - p] == ms[i]);
    }
    lemma_passed_is(ms, later, p + q);
}

/// `after` is `before` once `played` frames have been played: the ring was
/// looked at until it had no marker left, the last marker that has been reached
/// is the new origin, those in front of it are gone, those behind it lie ahead,
/// and `sh1` reports the position that follows.
pub open spec fn advanced(
    before: Mixer,
    sh0: Shared,
    after: Mixer,
    sh1: Shared,
    played: u64,
) -> bool {
    let found = Mixer::found_markers(before, after);
    let known = Mixer::known(before, after);
    let crossed = passed(known, played);
    &&& 0 <= found <= upcoming_markers(before.marker_rx).len()
    &&& marker_takes(after.marker_rx) == marker_takes(before.marker_rx) + Seq::new(
        found as nat,
        |i: int| Some(upcoming_markers(before.marker_rx)[i]),
    ) + seq![None::<TrackMarker>]
    &&& upcoming_markers(after.marker_rx) == upcoming_markers(before.marker_rx).skip(found)
    &&& after.pending@ == known.skip(crossed as int)
    &&& if crossed == 0 {
        &&& after.origin_global == before.origin_global
        &&& after.origin_pos == before.origin_pos
        &&& sh1.current_track == sh0.current_track
    } else {
        let m = known[crossed - 1];
        &&& after.origin_global == m.at_global_frame
        &&& after.origin_pos == m.track_start_frame
        &&& sh1.current_track == m.track_id
    }
    &&& sh1 == Shared {
        current_track: sh1.current_track,
        pos_frames: position_at(after.origin_global, after.origin_pos, played),
        ..sh0
    }
    &&& after == Mixer {
        marker_rx: after.marker_rx,
        pending: after.pending,
        origin_global: after.origin_global,
        origin_pos: after.origin_pos,
        ..before
    }
}

impl Mixer {
    /// A mixer at start-up, for a device of `channels` channels. It has room for
    /// the track boundaries ahead, so that a callback need not allocate.
    pub fn new(
        audio_rx: Consumer<u32>,
        marker_rx: Consumer<TrackMarker>,
        fft_tx: Producer<u32>,
        channels: usize,
    ) -> (mixer: Self)
        ensures
            mixer.audio_rx == audio_rx,
            mixer.marker_rx == marker_rx,
            mixer.fft_tx == fft_tx,
            mixer.channels == channels,
            mixer.eq_seen == u64::MAX,
            mixer.flush_seen == 0,
            mixer.origin_global == 0,
            mixer.origin_pos == 0,
            mixer.pending@.len() == 0,
            is_fresh(mixer, channels),
    {
        Mixer {
            audio_rx,
            marker_rx,
            fft_tx,
            channels,
            eq_seen: u64::MAX,
            flush_seen: 0,
            origin_global: 0,
            origin_pos: 0,
            pending: Vec::with_capacity(2 * MARKER_SLOTS),
        }
    }

    /// The track boundaries ahead, in the order in which they were marked.
    pub open spec fn queue(self) -> Seq<TrackMarker> {
        self.pending@ + upcoming_markers(self.marker_rx)
    }

    /// How many markers were found in the ring between two states of a mixer, if
    /// it was looked at until one look found none.
    pub open spec fn found_markers(before: Mixer, after: Mixer) -> int {
        marker_takes(after.marker_rx).len() - marker_takes(before.marker_rx).len() - 1
    }

    /// The boundaries that a mixer knew of once it had looked at the ring.
    pub open spec fn known(before: Mixer, after: Mixer) -> Seq<TrackMarker> {
        before.queue().take(before.pending@.len() + Mixer::found_markers(before, after))
    }

    /// Where playback stands inside the current track once `played` frames have
    /// been delivered since start-up.
    pub fn position(&self, played: u64) -> (pos: u64)
        ensures
            pos == position_at(self.origin_global, self.origin_pos, played),
    {
        self.origin_pos.saturating_add(played.saturating_sub(self.origin_global))
    }

    /// Forgets the boundaries held that `played` frames have left behind, and
    /// makes the last of them the origin. Says whether there was one.
    fn cross_held(&mut self, sh: &mut Shared, played: u64) -> (crossed: bool)
        ensures
            crossed == (passed(old(self).pending@, played) > 0),
            final(self).pending@ == old(self).pending@.skip(
                passed(old(self).pending@, played) as int,
            ),
            !crossed ==> final(self).origin_global == old(self).origin_global,
            !crossed ==> final(self).origin_pos == old(self).origin_pos,
            !crossed ==> final(sh).current_track == old(sh).current_track,
            crossed ==> ({
                let m = old(self).pending@[passed(old(self).pending@, played) - 1];
                &&& final(self).origin_global == m.at_global_frame
                &&& final(self).origin_pos == m.track_start_frame
                &&& final(sh).current_track == m.track_id
            }),
            *final(sh) == (Shared { current_track: final(sh).current_track, ..*old(sh) }),
            *final(self) == (Mixer {
                pending: final(self).pending,
                origin_global: final(self).origin_global,
                origin_pos: final(self).origin_pos,
                ..*old(self)
            }),
    {
        let ghost held = self.pending@;
        let mut n = self.pending.len();
        while n > 0 && self.pending[n - 1].at_global_frame > played
            invariant
                n <= held.len(),
                self.pending@ == held,
                forall|i: int| n <= i < held.len() ==> (#[trigger] held[i]).at_global_frame > played,
            decreases n,
        {
            n -= 1;
        }
        proof {
            lemma_passed_is(held, played, n as nat);
        }
        if n == 0 {
            assert(held.skip(0) =~= held);
            return false;
        }
        let m = self.pending[n - 1];
        self.origin_global = m.at_global_frame;
        self.origin_pos = m.track_start_frame;
        sh.current_track = m.track_id;
        let ghost mid = *self;
        let mut dropped: usize = 0;
        assert(held.skip(0) =~= held);
        while dropped < n
            invariant
                dropped <= n <= held.len(),
                self.pending@ == held.skip(dropped as int),
                *self == (Mixer { pending: self.pending, ..mid }),
            decreases n - dropped,
        {
            let _ = self.pending.remove(0);
            assert(self.pending@ =~= held.skip(dropped + 1));
            dropped += 1;
        }
        true
    }

    /// Advances across any track boundary that `played` frames have reached,
    /// and reports the resulting track and position. Says whether one was
    /// crossed. It takes markers until it finds none, so it goes on for as long
    /// as the decoder puts new ones into the ring meanwhile.
    pub fn advance(&mut self, sh: &mut Shared, played: u64) -> (crossed: bool)
        ensures
            advanced(*old(self), *old(sh), *final(self), *final(sh), played),
            crossed == (passed(Mixer::known(*old(self), *final(self)), played) > 0),
    {
        let ghost ahead = upcoming_markers(self.marker_rx);
        let ghost takes = marker_takes(self.marker_rx);
        let ghost mut found: int = 0;
        let ghost mut known = self.pending@;
        let mut crossed = self.cross_held(sh, played);
        assert(ahead.skip(0) =~= ahead);
        assert(known =~= old(self).queue().take(known.len() as int));
        assert(takes =~= takes + Seq::new(0nat, |i: int| Some(ahead[i])));
        proof {
            lemma_passed(known, played);
        }
        loop
            invariant_except_break
                marker_takes(self.marker_rx) == takes + Seq::new(
                    found as nat,
                    |i: int| Some(ahead[i]),
                ),
            invariant
                0 <= found <= ahead.len(),
                ahead == upcoming_markers(old(self).marker_rx),
                takes == marker_takes(old(self).marker_rx),
                upcoming_markers(self.marker_rx) == ahead.skip(found),
                known == old(self).queue().take(old(self).pending@.len() + found),
                known.len() == old(self).pending@.len() + found,
                passed(known, played) <= known.len(),
                self.pending@ == known.skip(passed(known, played) as int),
                crossed == (passed(known, played) > 0),
                !crossed ==> self.origin_global == old(self).origin_global && self.origin_pos
                    == old(self).origin_pos && sh.current_track == old(sh).current_track,
                crossed ==> ({
                    let m = known[passed(known, played) - 1];
                    &&& self.origin_global == m.at_global_frame
                    &&& self.origin_pos == m.track_start_frame
                    &&& sh.current_track == m.track_id
                }),
                *sh == (Shared { current_track: sh.current_track, ..*old(sh) }),
                *self == (Mixer {
                    marker_rx: self.marker_rx,
                    pending: self.pending,
                    origin_global: self.origin_global,
                    origin_pos: self.origin_pos,
                    ..*old(self)
                }),
            ensures
                marker_takes(self.marker_rx) == takes + Seq::new(
                    found as nat,
                    |i: int| Some(ahead[i]),
                ) + seq![None::<TrackMarker>],
            decreases ahead.len() - found,
        {
            let taken = take_marker(&mut self.marker_rx);
            match taken {
                Some(m) => {
                    let ghost next = known.push(m);
                    proof {
                        assert(ahead.skip(found)[0] == ahead[found]);
                        assert(ahead.skip(found).skip(1) =~= ahead.skip(found + 1));
                        assert(next =~= old(self).queue().take(
                            old(self).pending@.len() + found + 1,
                        ));
                        assert(next.drop_last() =~= known);
                        assert(marker_takes(self.marker_rx) =~= takes + Seq::new(
                            (found + 1) as nat,
                            |i: int| Some(ahead[i]),
                        ));
                    }
                    if m.at_global_frame <= played {
                        self.origin_global = m.at_global_frame;
                        self.origin_pos = m.track_start_frame;
                        sh.current_track = m.track_id;
                        self.pending.clear();
                        crossed = true;
                        assert(next.skip(next.len() as int) =~= Seq::empty());
                    } else {
                        self.pending.push(m);
                        assert(next.skip(passed(known, played) as int) =~= known.skip(
                            passed(known, played) as int,
                        ).push(m));
                    }
                    proof {
                        known = next;
                        found = found + 1;
                    }
                },
                None => {
                    break;
                },
            }
        }
        sh.pos_frames = self.position(played);
        crossed
    }

    /// Throws away everything queued before a seek or track load that the
    /// callback has not heard of yet. Says whether there was one.
    pub fn flush(&mut self, sh: &Shared) -> (flushed: bool)
        ensures
            flushed == (sh.flush_version != old(self).flush_seen),
            final(self).flush_seen == sh.flush_version,
            *final(self) == (Mixer {
                audio_rx: final(self).audio_rx,
                flush_seen: sh.flush_version,
                ..*old(self)
            }),
            !flushed ==> final(self).audio_rx == old(self).audio_rx,
            flushed ==> ({
                let stale = (upcoming_samples(old(self).audio_rx).len() - upcoming_samples(
                    final(self).audio_rx,
                ).len()) as nat;
                &&& noticed_samples(old(self).audio_rx) <= stale
                &&& upcoming_samples(final(self).audio_rx).len() <= upcoming_samples(
                    old(self).audio_rx,
                ).len()
                &&& upcoming_samples(final(self).audio_rx) == upcoming_samples(
                    old(self).audio_rx,
                ).skip(stale as int)
                &&& sample_looks(final(self).audio_rx) == sample_looks(old(self).audio_rx).push(
                    stale,
                )
            }),
            flushed ==> noticed_samples(final(self).audio_rx) == 0,
    {
        if sh.flush_version == self.flush_seen {
            return false;
        }
        let ghost ahead = upcoming_samples(self.audio_rx);
        let stale = count_samples(&mut self.audio_rx);
        if stale > 0 {
            drop_samples(&mut self.audio_rx, stale);
        }
        assert(ahead.skip(stale as int) =~= upcoming_samples(self.audio_rx));
        self.flush_seen = sh.flush_version;
        true
    }

    /// Moves queued samples into the front of `out`, in whole frames, and
    /// silences the rest of it. Says how many samples were moved.
    pub fn pull(&mut self, sh: &Shared, out: &mut [u32]) -> (samples: usize)
        requires
            old(self).channels > 0,
        ensures
            samples <= old(out)@.len(),
            samples % old(self).channels == 0,
            !sh.playing ==> samples == 0 && *final(self) == *old(self),
            sh.playing ==> samples == whole_frames(
                old(out)@.len(),
                noticed_samples(final(self).audio_rx) + samples as nat,
                old(self).channels as nat,
            ),
            sh.playing ==> noticed_samples(old(self).audio_rx) <= noticed_samples(
                final(self).audio_rx,
            ) + samples,
            sh.playing ==> sample_looks(final(self).audio_rx) == sample_looks(
                old(self).audio_rx,
            ).push(noticed_samples(final(self).audio_rx) + samples as nat),
            samples <= upcoming_samples(old(self).audio_rx).len(),
            upcoming_samples(final(self).audio_rx) == upcoming_samples(old(self).audio_rx).skip(
                samples as int,
            ),
            final(out)@ == upcoming_samples(old(self).audio_rx).take(samples as int) + Seq::new(
                (old(out)@.len() - samples) as nat,
                |i: int| 0u32,
            ),
            *final(self) == (Mixer { audio_rx: final(self).audio_rx, ..*old(self) }),
    {
        let ghost ahead = upcoming_samples(self.audio_rx);
        let len = out.len();
        let mut filled: usize = 0;
        if sh.playing {
            let ready = count_samples(&mut self.audio_rx);
            let usable = usable_samples(len, ready, self.channels);
            if usable > 0 {
                take_samples(&mut self.audio_rx, out, usable);
                filled = usable;
            }
        }
        assert(ahead.skip(filled as int) =~= upcoming_samples(self.audio_rx));
        let ghost moved = ahead.take(filled as int);
        assert(out@.take(filled as int) =~= moved);
        // Underrun or paused: silence the remainder.
        let mut i: usize = filled;
        while i < len
            invariant
                filled <= i <= len,
                len == out@.len(),
                out@.take(filled as int) == moved,
                forall|j: int| filled <= j < i ==> #[trigger] out@[j] == 0u32,
            decreases len - i,
        {
            out[i] = 0;
            assert(out@.take(filled as int) =~= moved);
            i += 1;
        }
        assert(out@ =~= out@.take(filled as int) + out@.skip(filled as int));
        assert(out@.skip(filled as int) =~= Seq::new((len - filled) as nat, |i: int| 0u32));
        filled
    }

    /// How many samples a call of [`Mixer::fill`] that moved `samples` of them
    /// threw away unheard.
    pub open spec fn dropped(before: Mixer, after: Mixer, samples: usize) -> int {
        upcoming_samples(before.audio_rx).len() - upcoming_samples(after.audio_rx).len() - samples
    }

    /// How many samples the look at the ring found that a call of
    /// [`Mixer::fill`] moved `samples` of.
    pub open spec fn found(after: Mixer, samples: usize) -> nat {
        noticed_samples(after.audio_rx) + samples as nat
    }

    /// The queued samples that a call of [`Mixer::fill`] that moved `samples` of
    /// them delivered: those that follow the ones it threw away.
    pub open spec fn heard(before: Mixer, after: Mixer, samples: usize) -> Seq<u32> {
        upcoming_samples(before.audio_rx).subrange(
            Mixer::dropped(before, after, samples),
            Mixer::dropped(before, after, samples) + samples,
        )
    }

    /// A call of [`Mixer::fill`] that moved `samples` of them took the queued
    /// samples from the front.
    pub open spec fn consumed(before: Mixer, after: Mixer, samples: usize) -> bool {
        &&& 0 <= Mixer::dropped(before, after, samples)
        &&& upcoming_samples(after.audio_rx) == upcoming_samples(before.audio_rx).skip(
            Mixer::dropped(before, after, samples) + samples,
        )
    }

    /// Fills one buffer of interleaved samples and advances the position by
    /// what was delivered. Non-blocking: an empty ring simply yields silence.
    /// Allocation-free, unless more boundaries lie ahead than [`Mixer::new`] has
    /// made room for. After a seek or track load the ring is looked at
    /// and all that is found there is dropped; while playing, it is looked at
    /// and as many whole frames as are found there are delivered.
    pub fn fill(&mut self, sh: &mut Shared, out: &mut [u32]) -> (r: Filled)
        requires
            old(self).channels > 0,
            old(sh).played_frames + old(out)@.len() / old(self).channels as nat <= u64::MAX,
        ensures
            filled(*old(self), *old(sh), old(out)@.len(), *final(self), *final(sh), final(out)@, r),
    {
        let retune = sh.eq_version != self.eq_seen;
        self.eq_seen = sh.eq_version;

        let ghost ahead = upcoming_samples(self.audio_rx);
        // A seek or track load invalidates everything still queued.
        let flushed = self.flush(sh);
        let ghost dropped = ahead.len() - upcoming_samples(self.audio_rx).len();
        assert(ahead.skip(dropped) =~= upcoming_samples(self.audio_rx));
        let ghost before = *self;
        let filled = self.pull(sh, out);
        assert(ahead.skip(dropped).skip(filled as int) =~= ahead.skip(dropped + filled));
        assert(ahead.skip(dropped).take(filled as int) =~= ahead.subrange(
            dropped,
            dropped + filled,
        ));

        let frames_out = filled / self.channels;
        proof {
            lemma_div_is_ordered(
                filled as int,
                out@.len() as int,
                self.channels as int,
            );
            lemma_fundamental_div_mod(
                filled as int,
                self.channels as int,
            );
            if frames_out == 0 {
                lemma_mul_by_zero_is_zero(self.channels as int);
                assert(filled == 0);
            }
        }
        let mut crossed = false;
        if frames_out > 0 {
            let played = sh.played_frames + frames_out as u64;
            sh.played_frames = played;
            let ghost mid = *self;
            let ghost sh_mid = *sh;
            crossed = self.advance(sh, played);
            proof {
                assert(mid == (Mixer {
                    marker_rx: old(self).marker_rx,
                    pending: old(self).pending,
                    origin_global: old(self).origin_global,
                    origin_pos: old(self).origin_pos,
                    ..*self
                }));
                assert(sh_mid == (Shared { played_frames: played, ..*old(sh) }));
            }
        }
        let r = Filled { samples: filled, retune, flushed, crossed };
        proof {
            assert(Mixer::dropped(*old(self), *self, filled) == dropped);
            assert(sample_looks(self.audio_rx) =~= sample_looks(old(self).audio_rx) + (
            if flushed {
                seq![dropped as nat]
            } else {
                Seq::<nat>::empty()
            }) + (if sh.playing {
                seq![Mixer::found(*self, filled)]
            } else {
                Seq::<nat>::empty()
            }));
            assert(out@ =~= Mixer::heard(*old(self), *self, filled) + Seq::new(
                (out@.len() - filled) as nat,
                |i: int| 0u32,
            ));
        }
        r
    }

    /// Hands a mono mix of what was played to the analyser. Samples that do not
    /// fit are left out: it only needs recent audio.
    pub fn offer(&mut self, mono: &[u32])
        ensures
            *final(self) == (Mixer { fft_tx: final(self).fft_tx, ..*old(self) }),
            offered(
                sent_samples(old(self).fft_tx),
                mono@,
                sent_samples(final(self).fft_tx),
            ),
            tried_samples(final(self).fft_tx) == tried_samples(old(self).fft_tx) + mono@,
            all_samples(final(self).fft_tx) == all_samples(old(self).fft_tx),
            mono@.len() <= noticed_room(old(self).fft_tx) ==> sent_samples(final(self).fft_tx)
                == sent_samples(old(self).fft_tx) + mono@,
    {
        let ghost sent = sent_samples(self.fft_tx);
        let ghost room = noticed_room(self.fft_tx);
        let ghost tried = tried_samples(self.fft_tx);
        assert(tried + mono@.take(0) =~= tried);
        let mut i: usize = 0;
        while i < mono.len()
            invariant
                i <= mono@.len(),
                offered(sent, mono@.take(i as int), sent_samples(self.fft_tx)),
                tried_samples(self.fft_tx) == tried + mono@.take(i as int),
                all_samples(self.fft_tx) == all_samples(old(self).fft_tx),
                mono@.len() <= room ==> noticed_room(self.fft_tx) == room - i && sent_samples(
                    self.fft_tx,
                ) == sent + mono@.take(i as int),
                *self == (Mixer { fft_tx: self.fft_tx, ..*old(self) }),
            decreases mono@.len() - i,
        {
            let ghost before = sent_samples(self.fft_tx);
            put_sample(&mut self.fft_tx, mono[i]);
            proof {
                assert(mono@.take(i + 1).drop_last() =~= mono@.take(i as int));
                assert(before.push(mono@[i as int]).drop_last() =~= before);
                assert((tried + mono@.take(i as int)).push(mono@[i as int]) =~= tried + mono@.take(
                    i + 1,
                ));
                assert((sent + mono@.take(i as int)).push(mono@[i as int]) =~= sent + mono@.take(
                    i + 1,
                ));
            }
            i += 1;
        }
        assert(mono@.take(mono@.len() as int) =~= mono@);
    }
}

/// What one call of [`Mixer::fill`] on a buffer of `len` samples does: from
/// `m0` and `sh0` to `m1` and `sh1`, with `out` in the buffer.
pub open spec fn filled(
    m0: Mixer,
    sh0: Shared,
    len: nat,
    m1: Mixer,
    sh1: Shared,
    out: Seq<u32>,
    r: Filled,
) -> bool {
    let dropped = Mixer::dropped(m0, m1, r.samples);
    let played = (sh0.played_frames + r.samples / m0.channels) as u64;
    &&& r.retune == (sh0.eq_version != m0.eq_seen)
    &&& r.flushed == (sh0.flush_version != m0.flush_seen)
    &&& m1 == Mixer {
        eq_seen: sh0.eq_version,
        flush_seen: sh0.flush_version,
        channels: m0.channels,
        fft_tx: m0.fft_tx,
        ..m1
    }
    &&& r.samples <= len
    &&& r.samples % m0.channels == 0
    &&& !sh0.playing ==> r.samples == 0
    &&& sh0.playing ==> r.samples == whole_frames(
        len,
        Mixer::found(m1, r.samples),
        m0.channels as nat,
    )
    &&& sample_looks(m1.audio_rx) == sample_looks(m0.audio_rx) + (if r.flushed {
        seq![dropped as nat]
    } else {
        Seq::<nat>::empty()
    }) + (if sh0.playing {
        seq![Mixer::found(m1, r.samples)]
    } else {
        Seq::<nat>::empty()
    })
    &&& Mixer::consumed(m0, m1, r.samples)
    &&& !r.flushed ==> dropped == 0
    &&& r.flushed ==> dropped >= noticed_samples(m0.audio_rx)
    &&& out == Mixer::heard(m0, m1, r.samples) + Seq::new((len - r.samples) as nat, |i: int| 0u32)
    &&& r.samples == 0 ==> {
        &&& sh1 == sh0
        &&& !r.crossed
        &&& m1.marker_rx == m0.marker_rx
        &&& m1.pending == m0.pending
        &&& m1.origin_global == m0.origin_global
        &&& m1.origin_pos == m0.origin_pos
    }
    &&& r.samples > 0 ==> {
        &&& advanced(
            Mixer {
                marker_rx: m0.marker_rx,
                pending: m0.pending,
                origin_global: m0.origin_global,
                origin_pos: m0.origin_pos,
                ..m1
            },
            Shared { played_frames: played, ..sh0 },
            m1,
            sh1,
            played,
        )
        &&& r.crossed == (passed(Mixer::known(m0, m1), played) > 0)
    }
}

/// `after` is `before` with some of `items` appended, in their order.
pub open spec fn offered(before: Seq<u32>, items: Seq<u32>, after: Seq<u32>) -> bool
    decreases items.len(),
{
    if items.len() == 0 {
        after == before
    } else {
        ||| offered(before, items.drop_last(), after)
        ||| after.len() > 0 && after.last() == items.last() && offered(
            before,
            items.drop_last(),
            after.drop_last(),
        )
    }
}

/// The position is resolved from the marker that has been passed last, whatever
/// was marked before it: it restarts inside the new track, or goes on from where
/// a seek led, rather than counting on.
pub proof fn law_position_follows_the_last_marker_passed(
    before: Mixer,
    sh0: Shared,
    after: Mixer,
    sh1: Shared,
    played: u64,
    i: int,
)
    requires
        advanced(before, sh0, after, sh1, played),
        0 <= i < Mixer::known(before, after).len(),
        Mixer::known(before, after)[i].at_global_frame <= played,
        forall|j: int|
            i < j < Mixer::known(before, after).len() ==> (#[trigger] Mixer::known(
                before,
                after,
            )[j]).at_global_frame > played,
    ensures
        ({
            let m = Mixer::known(before, after)[i];
            &&& sh1.current_track == m.track_id
            &&& after.pending@ == Mixer::known(before, after).skip(i + 1)
            &&& m.track_start_frame + (played - m.at_global_frame) <= u64::MAX ==> sh1.pos_frames
                == m.track_start_frame + (played - m.at_global_frame)
        }),
{
    lemma_passed_is(Mixer::known(before, after), played, (i + 1) as nat);
}

/// Boundaries that have not been reached stay ahead, and change nothing yet.
pub proof fn law_boundaries_ahead_stay_ahead(
    before: Mixer,
    sh0: Shared,
    after: Mixer,
    sh1: Shared,
    played: u64,
)
    requires
        advanced(before, sh0, after, sh1, played),
        forall|j: int|
            0 <= j < Mixer::known(before, after).len() ==> (#[trigger] Mixer::known(
                before,
                after,
            )[j]).at_global_frame > played,
    ensures
        sh1.current_track == sh0.current_track,
        after.queue() == before.queue(),
        sh1.pos_frames == position_at(before.origin_global, before.origin_pos, played),
{
    lemma_passed_is(Mixer::known(before, after), played, 0);
    assert(after.queue() =~= before.queue());
}

/// Between boundaries the position advances by exactly the frames that are
/// played.
pub proof fn law_position_counts_frames(
    origin_global: u64,
    origin_pos: u64,
    played: u64,
    frames: u64,
)
    requires
        origin_global <= played,
        played + frames <= u64::MAX,
        origin_pos + (played + frames - origin_global) <= u64::MAX,
    ensures
        position_at(origin_global, origin_pos, (played + frames) as u64) == position_at(
            origin_global,
            origin_pos,
            played,
        ) + frames,
{
}

/// What two fills in a row deliver is what was queued, in order and without a
/// gap: a stray sample that does not make a frame is left for the next one.
pub proof fn law_fills_follow_each_other(m0: Mixer, m1: Mixer, m2: Mixer, a: usize, b: usize)
    requires
        Mixer::consumed(m0, m1, a),
        Mixer::consumed(m1, m2, b),
        Mixer::dropped(m0, m1, a) == 0,
        Mixer::dropped(m1, m2, b) == 0,
    ensures
        Mixer::heard(m0, m1, a) + Mixer::heard(m1, m2, b) == upcoming_samples(m0.audio_rx).take(
            a + b,
        ),
{
    assert(Mixer::heard(m0, m1, a) + Mixer::heard(m1, m2, b) =~= upcoming_samples(
        m0.audio_rx,
    ).take(a + b));
}

/// The device hears what the decoder pushed, at every fill: where `taken` samples
/// have left the ring before, the samples that a fill delivers are those that
/// were sent through the other end behind them, in their order, and behind the
/// ones that this fill throws away. What is left of the ring's samples is the
/// rest, so that the next fill goes on from there.
pub proof fn law_device_hears_what_was_pushed(
    tx: Producer<u32>,
    taken: int,
    m0: Mixer,
    m1: Mixer,
    samples: usize,
)
    requires
        0 <= taken <= all_samples(tx).len(),
        upcoming_samples(m0.audio_rx) == all_samples(tx).skip(taken),
        sent_samples(tx).is_prefix_of(all_samples(tx)),
        Mixer::consumed(m0, m1, samples),
        taken + Mixer::dropped(m0, m1, samples) + samples <= sent_samples(tx).len(),
    ensures
        Mixer::heard(m0, m1, samples) == sent_samples(tx).subrange(
            taken + Mixer::dropped(m0, m1, samples),
            taken + Mixer::dropped(m0, m1, samples) + samples,
        ),
        upcoming_samples(m1.audio_rx) == all_samples(tx).skip(
            taken + Mixer::dropped(m0, m1, samples) + samples,
        ),
{
    assert(Mixer::heard(m0, m1, samples) =~= sent_samples(tx).subrange(
        taken + Mixer::dropped(m0, m1, samples),
        taken + Mixer::dropped(m0, m1, samples) + samples,
    ));
    assert(upcoming_samples(m1.audio_rx) =~= all_samples(tx).skip(
        taken + Mixer::dropped(m0, m1, samples) + samples,
    ));
}

/// A buffer is never filled with part of a frame, and with as many frames as the
/// ring and the buffer allow.
pub proof fn law_whole_frames_only(len: nat, ready: nat, channels: nat)
    requires
        channels > 0,
    ensures
        whole_frames(len, ready, channels) % channels == 0,
        whole_frames(len, ready, channels) <= len,
        whole_frames(len, ready, channels) <= ready,
        whole_frames(len, ready, channels) + channels > len || whole_frames(len, ready, channels)
            + channels > ready,
{
    let want = if len <= ready {
        len
    } else {
        ready
    };
    lemma_whole(want as int, channels as int);
    lemma_fundamental_div_mod(want as int, channels as int);
    lemma_mul_is_commutative((want / channels) as int, channels as int);
}

/// Whole frames can be counted in two pieces, if the first piece of the buffer
/// is whole itself.
proof fn lemma_whole_in_pieces(len: nat, k: nat, ready: nat, channels: nat)
    requires
        channels > 0,
        k <= len,
        k % channels == 0,
    ensures
        whole_frames(k, ready, channels) <= ready,
        whole_frames(k, ready, channels) + whole_frames(
            (len - k) as nat,
            (ready - whole_frames(k, ready, channels)) as nat,
            channels,
        ) == whole_frames(len, ready, channels),
        whole_frames(k, ready, channels) == k || whole_frames(
            (len - k) as nat,
            (ready - whole_frames(k, ready, channels)) as nat,
            channels,
        ) == 0,
{
    let c = channels as int;
    let want = if len <= ready {
        len
    } else {
        ready
    };
    if k <= ready {
        lemma_fundamental_div_mod(k as int, c);
        lemma_mul_is_commutative(k as int / c, c);
        assert(whole_frames(k, ready, channels) == k);
        lemma_hoist_over_denominator(want - k, k as int / c, channels);
        lemma_mul_is_distributive_add_other_way(c, (want - k) / c, k as int / c);
    } else {
        lemma_whole(ready as int, c);
        lemma_fundamental_div_mod(ready as int, c);
        lemma_mul_is_commutative(ready as int / c, c);
        let left = (ready - whole_frames(k, ready, channels)) as nat;
        assert(left < channels);
        let small = if len - k <= left {
            (len - k) as nat
        } else {
            left
        };
        lemma_basic_div(small as int, c);
        lemma_mul_by_zero_is_zero(c);
    }
}

/// Two fills and one fill that start alike find the same things in the rings:
/// nothing is put there between them. `there` markers are in theirs.
pub open spec fn undisturbed(
    m0: Mixer,
    sh0: Shared,
    m1: Mixer,
    r: Filled,
    ma: Mixer,
    ra: Filled,
    mb: Mixer,
    rb: Filled,
    there: int,
) -> bool {
    &&& Mixer::dropped(m0, ma, ra.samples) == Mixer::dropped(m0, m1, r.samples)
    &&& sh0.playing ==> Mixer::found(ma, ra.samples) == Mixer::found(m1, r.samples)
    &&& sh0.playing ==> Mixer::found(mb, rb.samples) == noticed_samples(ma.audio_rx)
    &&& r.samples > 0 ==> Mixer::found_markers(m0, m1) == there
    &&& ra.samples > 0 ==> Mixer::found_markers(m0, ma) == there
    &&& rb.samples > 0 ==> Mixer::found_markers(ma, mb) == if ra.samples > 0 {
        0
    } else {
        there
    }
}

/// Filling a buffer in two pieces of whole frames comes to the same as filling it
/// at once, if nothing else touches the rings and the shared state meanwhile:
/// the same audio, the same frames played, the same position in the same track,
/// and the same audio and boundaries ahead.
pub proof fn law_splitting_a_buffer_changes_nothing(
    m0: Mixer,
    sh0: Shared,
    len: nat,
    m1: Mixer,
    sh1: Shared,
    out: Seq<u32>,
    r: Filled,
    k: nat,
    ma: Mixer,
    sha: Shared,
    outa: Seq<u32>,
    ra: Filled,
    mb: Mixer,
    shb: Shared,
    outb: Seq<u32>,
    rb: Filled,
    there: int,
)
    requires
        m0.channels > 0,
        k <= len,
        k % m0.channels as nat == 0,
        sh0.played_frames + len / m0.channels as nat <= u64::MAX,
        filled(m0, sh0, len, m1, sh1, out, r),
        filled(m0, sh0, k, ma, sha, outa, ra),
        filled(ma, sha, (len - k) as nat, mb, shb, outb, rb),
        undisturbed(m0, sh0, m1, r, ma, ra, mb, rb, there),
    ensures
        outa + outb == out,
        shb == sh1,
        upcoming_samples(mb.audio_rx) == upcoming_samples(m1.audio_rx),
        mb.pending@ == m1.pending@,
        upcoming_markers(mb.marker_rx) == upcoming_markers(m1.marker_rx),
        mb.origin_global == m1.origin_global,
        mb.origin_pos == m1.origin_pos,
{
    let c = m0.channels as nat;
    if sh0.playing {
        lemma_whole_in_pieces(len, k, Mixer::found(m1, r.samples), c);
    }
    assert(r.samples == ra.samples + rb.samples);
    assert(Mixer::dropped(ma, mb, rb.samples) == 0);
    assert(upcoming_samples(mb.audio_rx) =~= upcoming_samples(m1.audio_rx));
    lemma_pieces_heard(m0, sh0, len, m1, sh1, out, r, k, ma, sha, outa, ra, mb, shb, outb, rb);
    lemma_pieces_counted(ra.samples as int, rb.samples as int, c as int);
    lemma_div_is_ordered(r.samples as int, len as int, c as int);
    if r.samples > 0 {
        let now = (sh0.played_frames + ra.samples / m0.channels) as u64;
        let later = (sh0.played_frames + r.samples / m0.channels) as u64;
        if ra.samples > 0 && rb.samples > 0 {
            let known = Mixer::known(m0, m1);
            assert(Mixer::known(m0, ma) == known);
            lemma_passed_in_steps(known, now, later);
            let rest = known.skip(passed(known, now) as int);
            assert(Mixer::known(ma, mb) =~= rest);
            let q = passed(rest, later);
            lemma_passed(rest, later);
            assert(known.skip(passed(known, later) as int) =~= rest.skip(q as int));
            if q > 0 {
                assert(rest[q - 1] == known[passed(known, later) - 1]);
            }
            assert(upcoming_markers(mb.marker_rx) =~= upcoming_markers(m1.marker_rx));
        } else if ra.samples > 0 {
            assert(Mixer::known(m0, ma) == Mixer::known(m0, m1));
        } else {
            assert(Mixer::known(ma, mb) == Mixer::known(m0, m1));
        }
    }
}

/// What two fills in a row put into the pieces of a buffer is what one fill puts
/// into all of it.
proof fn lemma_pieces_heard(
    m0: Mixer,
    sh0: Shared,
    len: nat,
    m1: Mixer,
    sh1: Shared,
    out: Seq<u32>,
    r: Filled,
    k: nat,
    ma: Mixer,
    sha: Shared,
    outa: Seq<u32>,
    ra: Filled,
    mb: Mixer,
    shb: Shared,
    outb: Seq<u32>,
    rb: Filled,
)
    requires
        m0.channels > 0,
        k <= len,
        k % m0.channels as nat == 0,
        filled(m0, sh0, len, m1, sh1, out, r),
        filled(m0, sh0, k, ma, sha, outa, ra),
        filled(ma, sha, (len - k) as nat, mb, shb, outb, rb),
        r.samples == ra.samples + rb.samples,
        Mixer::dropped(m0, ma, ra.samples) == Mixer::dropped(m0, m1, r.samples),
        Mixer::dropped(ma, mb, rb.samples) == 0,
        rb.samples > 0 ==> ra.samples == k,
    ensures
        outa + outb == out,
{
    assert(outa + outb =~= out);
}

proof fn lemma_pieces_counted(a: int, b: int, c: int)
    requires
        0 <= a,
        0 <= b,
        c > 0,
        a % c == 0,
        b % c == 0,
    ensures
        (a + b) / c == a / c + b / c,
{
    lemma_fundamental_div_mod(a, c);
    lemma_mul_is_commutative(a / c, c);
    lemma_hoist_over_denominator(b, a / c, c as nat);
}

/// Every change of the equalizer settings is reported, playing or not, and so is
/// every seek or track load: a fill reports one if and only if the version it
/// finds is not the one it saw last, and it has seen that version then.
pub proof fn law_changes_are_reported(
    m0: Mixer,
    sh0: Shared,
    len: nat,
    m1: Mixer,
    sh1: Shared,
    out: Seq<u32>,
    r: Filled,
)
    requires
        filled(m0, sh0, len, m1, sh1, out, r),
    ensures
        r.retune <==> sh0.eq_version != m0.eq_seen,
        m1.eq_seen == sh0.eq_version,
        r.flushed <==> sh0.flush_version != m0.flush_seen,
        m1.flush_seen == sh0.flush_version,
{
}

/// A run of the callback: fill `i` takes the mixer from `before[i]` to `after[i]`
/// on the state `shs[i]`. Between two fills nothing touches what it has seen.
pub open spec fn is_session(
    before: Seq<Mixer>,
    shs: Seq<Shared>,
    lens: Seq<nat>,
    after: Seq<Mixer>,
    shs1: Seq<Shared>,
    outs: Seq<Seq<u32>>,
    rs: Seq<Filled>,
) -> bool {
    &&& forall|i: int|
        0 <= i < rs.len() ==> filled(
            before[i],
            shs[i],
            lens[i],
            after[i],
            shs1[i],
            outs[i],
            #[trigger] rs[i],
        )
    &&& forall|i: int|
        0 < i < rs.len() ==> (#[trigger] before[i]).eq_seen == after[i - 1].eq_seen
            && before[i].flush_seen == after[i - 1].flush_seen
}

/// Over a run, a fill reports new equalizer settings if and only if their version
/// is not that of the fill before, and the same holds of seeks and loads.
pub proof fn law_each_version_is_reported_when_it_comes(
    before: Seq<Mixer>,
    shs: Seq<Shared>,
    lens: Seq<nat>,
    after: Seq<Mixer>,
    shs1: Seq<Shared>,
    outs: Seq<Seq<u32>>,
    rs: Seq<Filled>,
    i: int,
)
    requires
        is_session(before, shs, lens, after, shs1, outs, rs),
        0 < i < rs.len(),
    ensures
        rs[i].retune <==> shs[i].eq_version != shs[i - 1].eq_version,
        rs[i].flushed <==> shs[i].flush_version != shs[i - 1].flush_version,
{
    law_changes_are_reported(before[i], shs[i], lens[i], after[i], shs1[i], outs[i], rs[i]);
    law_changes_are_reported(
        before[i - 1],
        shs[i - 1],
        lens[i - 1],
        after[i - 1],
        shs1[i - 1],
        outs[i - 1],
        rs[i - 1],
    );
}

/// Over a run, no version of the equalizer settings counts as seen that was not
/// reported: where fill `i` has seen one that was not seen at the start, there
/// is a fill up to then that found this version and reported it.
pub proof fn law_no_version_is_seen_unreported(
    before: Seq<Mixer>,
    shs: Seq<Shared>,
    lens: Seq<nat>,
    after: Seq<Mixer>,
    shs1: Seq<Shared>,
    outs: Seq<Seq<u32>>,
    rs: Seq<Filled>,
    i: int,
) -> (k: int)
    requires
        is_session(before, shs, lens, after, shs1, outs, rs),
        0 <= i < rs.len(),
        after[i].eq_seen != before[0].eq_seen,
    ensures
        0 <= k <= i,
        rs[k].retune,
        shs[k].eq_version == after[i].eq_seen,
        forall|j: int| k < j <= i ==> !(#[trigger] rs[j]).retune,
    decreases i,
{
    law_changes_are_reported(before[i], shs[i], lens[i], after[i], shs1[i], outs[i], rs[i]);
    if rs[i].retune {
        i
    } else {
        assert(after[i].eq_seen == before[i].eq_seen);
        law_no_version_is_seen_unreported(before, shs, lens, after, shs1, outs, rs, i - 1)
    }
}

/// A paused player is silent and stands still.
pub proof fn law_paused_is_silent(
    m0: Mixer,
    sh0: Shared,
    len: nat,
    m1: Mixer,
    sh1: Shared,
    out: Seq<u32>,
    r: Filled,
)
    requires
        filled(m0, sh0, len, m1, sh1, out, r),
        !sh0.playing,
    ensures
        r.samples == 0,
        out.len() == len,
        forall|i: int| 0 <= i < len ==> #[trigger] out[i] == 0,
        sh1 == sh0,
        m1.pending@ == m0.pending@,
        m1.origin_global == m0.origin_global,
        m1.origin_pos == m0.origin_pos,
{
}

/// While playing, a fill delivers all that it can: whole frames, no more than the
/// buffer takes or the look at the ring found, and so many that not one frame
/// more would do. Where it delivers nothing, nothing moves.
pub proof fn law_playing_delivers_all_it_can(
    m0: Mixer,
    sh0: Shared,
    len: nat,
    m1: Mixer,
    sh1: Shared,
    out: Seq<u32>,
    r: Filled,
)
    requires
        m0.channels > 0,
        filled(m0, sh0, len, m1, sh1, out, r),
        sh0.playing,
    ensures
        sample_looks(m1.audio_rx).len() > sample_looks(m0.audio_rx).len(),
        ({
            let found = sample_looks(m1.audio_rx).last();
            &&& r.samples % m0.channels == 0
            &&& r.samples <= len
            &&& r.samples <= found
            &&& r.samples + m0.channels > len || r.samples + m0.channels > found
            &&& noticed_samples(m1.audio_rx) == found - r.samples
        }),
        r.samples == 0 ==> sh1 == sh0,
{
    law_whole_frames_only(len, Mixer::found(m1, r.samples), m0.channels as nat);
}

/// What a fill puts into the buffer: queued samples at the front, in their order,
/// and silence behind them, whatever stood there before.
pub proof fn law_buffer_holds_audio_then_silence(
    m0: Mixer,
    sh0: Shared,
    len: nat,
    m1: Mixer,
    sh1: Shared,
    out: Seq<u32>,
    r: Filled,
    i: int,
)
    requires
        filled(m0, sh0, len, m1, sh1, out, r),
        0 <= i < len,
    ensures
        out.len() == len,
        i >= r.samples ==> out[i] == 0,
        ({
            let dropped = upcoming_samples(m0.audio_rx).len() - upcoming_samples(
                m1.audio_rx,
            ).len() - r.samples;
            i < r.samples ==> 0 <= dropped + i < upcoming_samples(m0.audio_rx).len() && out[i]
                == upcoming_samples(m0.audio_rx)[dropped + i]
        }),
{
}

/// Audio is thrown away only for a seek or a track load, and then all of it that
/// the look at the ring finds; otherwise every sample that leaves the ring is
/// heard.
pub proof fn law_only_a_flush_throws_audio_away(
    m0: Mixer,
    sh0: Shared,
    len: nat,
    m1: Mixer,
    sh1: Shared,
    out: Seq<u32>,
    r: Filled,
)
    requires
        filled(m0, sh0, len, m1, sh1, out, r),
    ensures
        sh0.flush_version == m0.flush_seen ==> {
            &&& upcoming_samples(m1.audio_rx) == upcoming_samples(m0.audio_rx).skip(
                r.samples as int,
            )
            &&& out.take(r.samples as int) == upcoming_samples(m0.audio_rx).take(
                r.samples as int,
            )
        },
        sh0.flush_version != m0.flush_seen ==> ({
            let k = sample_looks(m0.audio_rx).len() as int;
            &&& k < sample_looks(m1.audio_rx).len()
            &&& sample_looks(m1.audio_rx)[k] >= noticed_samples(m0.audio_rx)
            &&& upcoming_samples(m1.audio_rx) == upcoming_samples(m0.audio_rx).skip(
                sample_looks(m1.audio_rx)[k] + r.samples,
            )
        }),
{
    if sh0.flush_version == m0.flush_seen {
        assert(out.take(r.samples as int) =~= upcoming_samples(m0.audio_rx).take(
            r.samples as int,
        ));
    }
}

/// A fill counts the frames that it delivers, and sets nothing of the shared
/// state but that count, the position and the current track. What goes to the
/// analyser is left to later.
pub proof fn law_callback_minds_its_own(
    m0: Mixer,
    sh0: Shared,
    len: nat,
    m1: Mixer,
    sh1: Shared,
    out: Seq<u32>,
    r: Filled,
)
    requires
        m0.channels > 0,
        sh0.played_frames + len / m0.channels as nat <= u64::MAX,
        filled(m0, sh0, len, m1, sh1, out, r),
    ensures
        sh1.played_frames == sh0.played_frames + r.samples / m0.channels,
        sh1.playing == sh0.playing,
        sh1.ended == sh0.ended,
        sh1.duration_ms == sh0.duration_ms,
        sh1.volume_bits == sh0.volume_bits,
        sh1.eq_enabled == sh0.eq_enabled,
        sh1.preamp_bits == sh0.preamp_bits,
        sh1.eq_gain_bits == sh0.eq_gain_bits,
        sh1.eq_version == sh0.eq_version,
        sh1.flush_version == sh0.flush_version,
        sh1.out_rate == sh0.out_rate,
        sh1.out_channels == sh0.out_channels,
        sh1.src_rate == sh0.src_rate,
        sh1.src_bits == sh0.src_bits,
        sh1.last_error == sh0.last_error,
        sh1.codec == sh0.codec,
        m1.fft_tx == m0.fft_tx,
        m1.channels == m0.channels,
        !r.crossed ==> sh1.current_track == sh0.current_track,
{
    lemma_div_is_ordered(r.samples as int, len as int, m0.channels as int);
    if r.samples == 0 {
        lemma_basic_div(0, m0.channels as int);
    }
}

/// A fill that delivers audio takes markers from their ring until it finds none.
pub proof fn law_every_marker_there_is_taken(
    m0: Mixer,
    sh0: Shared,
    len: nat,
    m1: Mixer,
    sh1: Shared,
    out: Seq<u32>,
    r: Filled,
)
    requires
        filled(m0, sh0, len, m1, sh1, out, r),
        r.samples > 0,
    ensures
        ({
            let n = marker_takes(m0.marker_rx).len();
            let takes = marker_takes(m1.marker_rx);
            &&& takes.len() > n
            &&& takes.take(n as int) == marker_takes(m0.marker_rx)
            &&& takes.last() is None
            &&& forall|i: int| n <= i < takes.len() - 1 ==> (#[trigger] takes[i]) is Some
        }),
{
    assert(marker_takes(m1.marker_rx).take(marker_takes(m0.marker_rx).len() as int)
        =~= marker_takes(m0.marker_rx));
}

/// Of the markers that a fill takes, the last one that has been reached says
/// which track plays and where: its own frame of the track, and the frames
/// played since. Those taken behind it lie ahead; nothing else does.
pub proof fn law_last_marker_taken_tells_the_position(
    m0: Mixer,
    sh0: Shared,
    len: nat,
    m1: Mixer,
    sh1: Shared,
    out: Seq<u32>,
    r: Filled,
    i: int,
    m: TrackMarker,
)
    requires
        m0.channels > 0,
        sh0.played_frames + len / m0.channels as nat <= u64::MAX,
        filled(m0, sh0, len, m1, sh1, out, r),
        r.samples > 0,
        marker_takes(m0.marker_rx).len() <= i < marker_takes(m1.marker_rx).len(),
        marker_takes(m1.marker_rx)[i] == Some(m),
        m.at_global_frame <= sh0.played_frames + r.samples / m0.channels,
        forall|j: int|
            i < j < marker_takes(m1.marker_rx).len() ==> ((#[trigger] marker_takes(
                m1.marker_rx,
            )[j]) matches Some(x) ==> x.at_global_frame > sh0.played_frames + r.samples
                / m0.channels),
    ensures
        r.crossed,
        sh1.current_track == m.track_id,
        m.track_start_frame + (sh0.played_frames + r.samples / m0.channels - m.at_global_frame)
            <= u64::MAX ==> sh1.pos_frames == m.track_start_frame + (sh0.played_frames + r.samples
            / m0.channels - m.at_global_frame),
        m1.pending@.len() == marker_takes(m1.marker_rx).len() - 1 - (i + 1),
        forall|k: int|
            0 <= k < m1.pending@.len() ==> Some(#[trigger] m1.pending@[k]) == marker_takes(
                m1.marker_rx,
            )[i + 1 + k],
{
    lemma_div_is_ordered(r.samples as int, len as int, m0.channels as int);
    let played = (sh0.played_frames + r.samples / m0.channels) as u64;
    let known = Mixer::known(m0, m1);
    let base = marker_takes(m0.marker_rx).len();
    let takes = marker_takes(m1.marker_rx);
    let n = m0.pending@.len() + (i - base) + 1;
    assert(known[n - 1] == m);
    assert forall|j: int| n <= j < known.len() implies (#[trigger] known[j]).at_global_frame
        > played by {
        let t = j - m0.pending@.len() + base;
        assert(takes[t] == Some(known[j]));
    }
    lemma_passed_is(known, played, n as nat);
    assert forall|k: int| 0 <= k < m1.pending@.len() implies Some(#[trigger] m1.pending@[k])
        == takes[i + 1 + k] by {
        assert(m1.pending@[k] == known[n + k]);
    }
}

/// Where none of the markers that a fill takes has been reached, the last of
/// those held that has been reached says which track plays and where.
pub proof fn law_last_marker_held_tells_the_position(
    m0: Mixer,
    sh0: Shared,
    len: nat,
    m1: Mixer,
    sh1: Shared,
    out: Seq<u32>,
    r: Filled,
    i: int,
)
    requires
        m0.channels > 0,
        sh0.played_frames + len / m0.channels as nat <= u64::MAX,
        filled(m0, sh0, len, m1, sh1, out, r),
        r.samples > 0,
        0 <= i < m0.pending@.len(),
        m0.pending@[i].at_global_frame <= sh0.played_frames + r.samples / m0.channels,
        forall|j: int|
            i < j < m0.pending@.len() ==> (#[trigger] m0.pending@[j]).at_global_frame
                > sh0.played_frames + r.samples / m0.channels,
        forall|j: int|
            marker_takes(m0.marker_rx).len() <= j < marker_takes(m1.marker_rx).len() ==> ((
            #[trigger] marker_takes(m1.marker_rx)[j]) matches Some(x) ==> x.at_global_frame
                > sh0.played_frames + r.samples / m0.channels),
    ensures
        r.crossed,
        sh1.current_track == m0.pending@[i].track_id,
        ({
            let m = m0.pending@[i];
            m.track_start_frame + (sh0.played_frames + r.samples / m0.channels
                - m.at_global_frame) <= u64::MAX ==> sh1.pos_frames == m.track_start_frame + (
            sh0.played_frames + r.samples / m0.channels - m.at_global_frame)
        }),
{
    lemma_div_is_ordered(r.samples as int, len as int, m0.channels as int);
    let played = (sh0.played_frames + r.samples / m0.channels) as u64;
    let known = Mixer::known(m0, m1);
    let base = marker_takes(m0.marker_rx).len();
    let takes = marker_takes(m1.marker_rx);
    assert(known[i] == m0.pending@[i]);
    assert forall|j: int| i + 1 <= j < known.len() implies (#[trigger] known[j]).at_global_frame
        > played by {
        if j < m0.pending@.len() {
            assert(known[j] == m0.pending@[j]);
        } else {
            let t = j - m0.pending@.len() + base;
            assert(takes[t] == Some(known[j]));
        }
    }
    lemma_passed_is(known, played, (i + 1) as nat);
}

/// Where no marker has been reached, the track stays and the position advances by
/// what is delivered; all markers, held and taken, lie ahead.
pub proof fn law_between_markers_the_position_counts_on(
    m0: Mixer,
    sh0: Shared,
    len: nat,
    m1: Mixer,
    sh1: Shared,
    out: Seq<u32>,
    r: Filled,
)
    requires
        m0.channels > 0,
        sh0.played_frames + len / m0.channels as nat <= u64::MAX,
        filled(m0, sh0, len, m1, sh1, out, r),
        r.samples > 0,
        forall|j: int|
            0 <= j < m0.pending@.len() ==> (#[trigger] m0.pending@[j]).at_global_frame
                > sh0.played_frames + r.samples / m0.channels,
        forall|j: int|
            marker_takes(m0.marker_rx).len() <= j < marker_takes(m1.marker_rx).len() ==> ((
            #[trigger] marker_takes(m1.marker_rx)[j]) matches Some(x) ==> x.at_global_frame
                > sh0.played_frames + r.samples / m0.channels),
    ensures
        !r.crossed,
        sh1.current_track == sh0.current_track,
        m1.origin_global == m0.origin_global,
        m1.origin_pos == m0.origin_pos,
        m0.origin_global <= sh0.played_frames && sh0.pos_frames == m0.origin_pos
            + (sh0.played_frames - m0.origin_global) && sh0.pos_frames + r.samples
            / m0.channels <= u64::MAX ==> sh1.pos_frames == sh0.pos_frames + r.samples
            / m0.channels,
        m1.pending@.len() == m0.pending@.len() + (marker_takes(m1.marker_rx).len()
            - marker_takes(m0.marker_rx).len() - 1),
        m1.pending@.take(m0.pending@.len() as int) == m0.pending@,
{
    lemma_div_is_ordered(r.samples as int, len as int, m0.channels as int);
    let played = (sh0.played_frames + r.samples / m0.channels) as u64;
    let known = Mixer::known(m0, m1);
    let base = marker_takes(m0.marker_rx).len();
    let takes = marker_takes(m1.marker_rx);
    assert forall|j: int| 0 <= j < known.len() implies (#[trigger] known[j]).at_global_frame
        > played by {
        if j < m0.pending@.len() {
            assert(known[j] == m0.pending@[j]);
        } else {
            let t = j - m0.pending@.len() + base;
            assert(takes[t] == Some(known[j]));
        }
    }
    lemma_passed_is(known, played, 0);
    assert(m1.pending@ =~= known);
    assert(m1.pending@.take(m0.pending@.len() as int) =~= m0.pending@);
}

/// At a marker, and before it, the position is that of the marker; from there on
/// it never goes back.
pub proof fn law_position_never_goes_back(
    origin_global: u64,
    origin_pos: u64,
    now: u64,
    later: u64,
)
    requires
        now <= later,
    ensures
        now <= origin_global ==> position_at(origin_global, origin_pos, now) == origin_pos,
        origin_pos <= position_at(origin_global, origin_pos, now) <= position_at(
            origin_global,
            origin_pos,
            later,
        ),
{
}

/// The analyser gets samples behind those it has, at most all that were offered
/// and none that was not.
pub proof fn law_offers_only_add(before: Seq<u32>, items: Seq<u32>, after: Seq<u32>)
    requires
        offered(before, items, after),
    ensures
        before.len() <= after.len() <= before.len() + items.len(),
        after.take(before.len() as int) == before,
        forall|i: int|
            before.len() <= i < after.len() ==> items.contains(#[trigger] after[i]),
        after.len() == before.len() + items.len() ==> after == before + items,
    decreases items.len(),
{
    if items.len() == 0 {
        assert(after.take(before.len() as int) =~= before);
        assert(after =~= before + items);
    } else {
        let rest = items.drop_last();
        assert forall|x: u32| rest.contains(x) implies items.contains(x) by {
            let k = choose|k: int| 0 <= k < rest.len() && rest[k] == x;
            assert(items[k] == x);
        }
        if offered(before, rest, after) {
            law_offers_only_add(before, rest, after);
        } else {
            law_offers_only_add(before, rest, after.drop_last());
            assert(after.take(before.len() as int) =~= before);
            assert forall|i: int| before.len() <= i < after.len() implies items.contains(
                #[trigger] after[i],
            ) by {
                if i < after.len() - 1 {
                    assert(after[i] == after.drop_last()[i]);
                } else {
                    assert(items[items.len() - 1] == after[i]);
                }
            }
            if after.len() == before.len() + items.len() {
                assert(after.drop_last() == before + rest);
                assert(after =~= (before + rest).push(items.last()));
                assert(after =~= before + items);
            }
        }
    }
}

/// A mixer for a device of `channels` channels that has played nothing yet.
pub open spec fn is_fresh(m: Mixer, channels: usize) -> bool {
    &&& m.channels == channels
    &&& m.eq_seen == u64::MAX
    &&& m.flush_seen == 0
    &&& m.origin_global == 0
    &&& m.origin_pos == 0
    &&& m.pending@.len() == 0
}

/// The first callback brings the filters up to date, throws nothing away unless a
/// seek or track load asks for it, and plays silence until something plays.
pub proof fn law_the_first_callback_tunes_the_filters(
    m0: Mixer,
    channels: usize,
    sh0: Shared,
    len: nat,
    m1: Mixer,
    sh1: Shared,
    out: Seq<u32>,
    r: Filled,
)
    requires
        is_fresh(m0, channels),
        filled(m0, sh0, len, m1, sh1, out, r),
    ensures
        sh0.eq_version < u64::MAX ==> r.retune,
        r.flushed <==> sh0.flush_version != 0,
        starts(sh0) ==> r.retune && !r.flushed && r.samples == 0,
        m1.channels == channels,
        m0.queue() == upcoming_markers(m0.marker_rx),
{
    assert(m0.pending@ =~= Seq::empty());
    assert(m0.queue() =~= upcoming_markers(m0.marker_rx));
}

/// Until a boundary has been crossed, a fresh mixer counts from the start: the
/// position is the number of frames played.
pub proof fn law_playback_counts_from_the_start(
    m0: Mixer,
    channels: usize,
    sh0: Shared,
    len: nat,
    m1: Mixer,
    sh1: Shared,
    out: Seq<u32>,
    r: Filled,
)
    requires
        channels > 0,
        is_fresh(m0, channels),
        filled(m0, sh0, len, m1, sh1, out, r),
        sh0.played_frames + r.samples / m0.channels <= u64::MAX,
        r.samples > 0,
        !r.crossed,
    ensures
        sh1.pos_frames == sh1.played_frames,
        sh1.played_frames == sh0.played_frames + r.samples / channels,
        sh1.current_track == sh0.current_track,
{
    let mid = Mixer {
        marker_rx: m0.marker_rx,
        pending: m0.pending,
        origin_global: m0.origin_global,
        origin_pos: m0.origin_pos,
        ..m1
    };
    assert(Mixer::known(mid, m1) == Mixer::known(m0, m1));
}

/// Without a frame delivered no boundary is crossed, and no marker is taken.
pub proof fn law_nothing_is_crossed_standing_still(
    m0: Mixer,
    sh0: Shared,
    len: nat,
    m1: Mixer,
    sh1: Shared,
    out: Seq<u32>,
    r: Filled,
)
    requires
        filled(m0, sh0, len, m1, sh1, out, r),
        r.samples == 0,
    ensures
        !r.crossed,
        sh1 == sh0,
        m1.queue() == m0.queue(),
{
}

} // verus!
