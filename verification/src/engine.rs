//! The engine as the UI sees it: commands in, state out.

use rtrb::{Consumer, Producer};
use vstd::prelude::*;

use crate::deck::{turn, Action, Cmd, Deck, Event};
use crate::eq::BANDS;
use crate::frames::Room;
use crate::level::{at_least_zero, clamp, clamped, from_zero, law_times_start_at_zero};
use crate::mixer::{filled, Filled, Mixer};
use crate::monitor::FFT_SIZE;
use crate::rings::{
    joined, joined_markers, marker_ring, noticed_marker_room, noticed_room, noticed_samples,
    ring_slots, sample_ring, sent_markers, sent_samples, TrackMarker,
};
use crate::shared::{starts, Shared, FULL_VOLUME};
use crate::source::{is_http, Source};
use crate::stream::join;

verus! {

/// Ring capacity in frames (about 1.5 s at 48 kHz): enough to ride out
/// scheduling hiccups without adding noticeable latency to transport controls.
pub const RING_FRAMES: usize = 72_000;

/// Slots of the ring that carries track markers.
pub const MARKER_SLOTS: usize = 64;

/// Analyser windows that the ring to the analyser holds.
pub const FFT_WINDOWS: usize = 8;

/// The bit pattern of `-24.0f32`, the lowest gain in decibels.
pub const MIN_GAIN: u32 = 0xc1c0_0000;

/// The bit pattern of `24.0f32`, the highest gain in decibels.
pub const MAX_GAIN: u32 = 0x41c0_0000;

/// Both ends of every ring of the engine.
pub struct Rings {
    pub audio_tx: Producer<u32>,
    pub audio_rx: Consumer<u32>,
    pub marker_tx: Producer<TrackMarker>,
    pub marker_rx: Consumer<TrackMarker>,
    pub fft_tx: Producer<u32>,
    pub fft_rx: Consumer<u32>,
}

impl Rings {
    /// Empty rings for a device of `out_channels` channels.
    pub fn new(out_channels: usize) -> (rings: Self)
        requires
            RING_FRAMES * out_channels * 4 <= isize::MAX,
        ensures
            joined(rings.audio_tx, rings.audio_rx),
            ring_slots(rings.audio_tx) == RING_FRAMES * out_channels,
            noticed_room(rings.audio_tx) == RING_FRAMES * out_channels,
            sent_samples(rings.audio_tx) == Seq::<u32>::empty(),
            noticed_samples(rings.audio_rx) == 0,
            joined_markers(rings.marker_tx, rings.marker_rx),
            noticed_marker_room(rings.marker_tx) == MARKER_SLOTS,
            sent_markers(rings.marker_tx) == Seq::<TrackMarker>::empty(),
            joined(rings.fft_tx, rings.fft_rx),
            ring_slots(rings.fft_tx) == FFT_SIZE * FFT_WINDOWS,
            noticed_room(rings.fft_tx) == FFT_SIZE * FFT_WINDOWS,
            sent_samples(rings.fft_tx) == Seq::<u32>::empty(),
            noticed_samples(rings.fft_rx) == 0,
            are_empty(rings, out_channels),
    {
        let (audio_tx, audio_rx) = sample_ring(RING_FRAMES * out_channels);
        let (marker_tx, marker_rx) = marker_ring(MARKER_SLOTS);
        let (fft_tx, fft_rx) = sample_ring(FFT_SIZE * FFT_WINDOWS);
        Rings { audio_tx, audio_rx, marker_tx, marker_rx, fft_tx, fft_rx }
    }
}

/// What the UI shows of the engine. The position in seconds is `position` frames
/// by `rate` frames per second, the duration is in milliseconds.
pub struct EngineState {
    pub playing: bool,
    pub position: u64,
    pub rate: u32,
    pub duration_ms: u64,
    pub track_id: u64,
    pub ended: bool,
    pub sample_rate: u32,
    pub bit_depth: u32,
    pub codec: String,
    pub error: Option<String>,
}

/// The engine's own memory: which track id comes next.
pub struct AudioEngine {
    pub next_track_id: u64,
}

/// The gain that band `i` gets of a list of gains: flat where the list ends, and
/// within what the sliders allow.
pub open spec fn gain_for(gains: Seq<u32>, i: int) -> u32 {
    clamped(
        if i < gains.len() {
            gains[i]
        } else {
            0
        },
        MIN_GAIN,
        MAX_GAIN,
    )
}

/// The source is the one that `path` names.
pub open spec fn is_source(source: Source, path: Seq<char>) -> bool {
    source.text() == path && (source is Url <==> is_http(path))
}

/// What loading a track does: an id is spent, and a command made.
pub open spec fn loaded(
    e0: AudioEngine,
    sh0: Shared,
    path: Seq<char>,
    autoplay: bool,
    e1: AudioEngine,
    sh1: Shared,
    r: (u64, Cmd),
) -> bool {
    &&& r.0 == e0.next_track_id
    &&& e1.next_track_id == e0.next_track_id.wrapping_add(1)
    &&& sh1 == Shared { ended: false, ..sh0 }
    &&& r.1 matches Cmd::Load { source, track_id, autoplay: auto } && is_source(source, path)
        && track_id == r.0 && auto == autoplay
}

/// What queueing a track does, or none: an id is spent, or not, and a command
/// made.
pub open spec fn queued(
    e0: AudioEngine,
    path: Option<Seq<char>>,
    e1: AudioEngine,
    r: (u64, Cmd),
) -> bool {
    match path {
        Some(p) => {
            &&& r.0 == e0.next_track_id
            &&& e1.next_track_id == e0.next_track_id.wrapping_add(1)
            &&& r.1 matches Cmd::SetNext(Some((source, track_id))) && is_source(source, p)
                && track_id == r.0
        },
        None => r.0 == 0 && e1 == e0 && r.1 == Cmd::SetNext(None),
    }
}

/// What setting the volume does.
pub open spec fn volume_set(sh0: Shared, volume: u32, sh1: Shared) -> bool {
    sh1 == Shared { volume_bits: clamped(volume, 0, FULL_VOLUME), ..sh0 }
}

/// What setting the equalizer does.
pub open spec fn eq_set(
    sh0: Shared,
    gains: Seq<u32>,
    preamp: u32,
    enabled: bool,
    sh1: Shared,
) -> bool {
    &&& sh1 == Shared {
        eq_gain_bits: sh1.eq_gain_bits,
        preamp_bits: clamped(preamp, MIN_GAIN, MAX_GAIN),
        eq_enabled: enabled,
        eq_version: sh0.eq_version.wrapping_add(1),
        ..sh0
    }
    &&& forall|i: int|
        0 <= i < BANDS ==> #[trigger] sh1.eq_gain_bits@[i] == gain_for(gains, i)
}

/// What the UI is shown of a state.
pub open spec fn shows(s: EngineState, sh: Shared) -> bool {
    &&& s.playing == sh.playing
    &&& s.position == sh.pos_frames
    &&& s.rate == if sh.out_rate == 0 {
        1
    } else {
        sh.out_rate
    }
    &&& s.duration_ms == sh.duration_ms
    &&& s.track_id == sh.current_track
    &&& s.ended == sh.ended
    &&& s.sample_rate == sh.src_rate
    &&& s.bit_depth == sh.src_bits
    &&& s.codec@ == sh.codec@
    &&& s.error == sh.last_error
}

impl AudioEngine {
    /// An engine that has not loaded anything: ids start at 1.
    pub fn new() -> (engine: Self)
        ensures
            engine.next_track_id == 1,
            is_new(engine),
    {
        AudioEngine { next_track_id: 1 }
    }

    fn next_id(&mut self) -> (id: u64)
        ensures
            id == old(self).next_track_id,
            final(self).next_track_id == old(self).next_track_id.wrapping_add(1),
    {
        let id = self.next_track_id;
        self.next_track_id = id.wrapping_add(1);
        id
    }

    /// Loads a track: hands out an id for it, and the command that loads it.
    pub fn load(&mut self, sh: &mut Shared, path: &str, autoplay: bool) -> (r: (u64, Cmd))
        ensures
            r.0 == old(self).next_track_id,
            final(self).next_track_id == old(self).next_track_id.wrapping_add(1),
            *final(sh) == (Shared { ended: false, ..*old(sh) }),
            r.1 matches Cmd::Load { source, track_id, autoplay: auto } && is_source(source, path@)
                && track_id == r.0 && auto == autoplay,
            loaded(*old(self), *old(sh), path@, autoplay, *final(self), *final(sh), r),
    {
        let track_id = self.next_id();
        sh.ended = false;
        (track_id, Cmd::Load { source: Source::parse(path), track_id, autoplay })
    }

    /// Queues the track to go on with, under an id of its own, or none, under the
    /// id 0.
    pub fn set_next(&mut self, path: Option<&str>) -> (r: (u64, Cmd))
        ensures
            match path {
                Some(p) => {
                    &&& r.0 == old(self).next_track_id
                    &&& final(self).next_track_id == old(self).next_track_id.wrapping_add(1)
                    &&& r.1 matches Cmd::SetNext(Some((source, track_id))) && is_source(
                        source,
                        p@,
                    ) && track_id == r.0
                },
                None => {
                    &&& r.0 == 0
                    &&& *final(self) == *old(self)
                    &&& r.1 == Cmd::SetNext(None)
                },
            },
            queued(
                *old(self),
                match path {
                    Some(p) => Some(p@),
                    None => None,
                },
                *final(self),
                r,
            ),
    {
        match path {
            Some(p) => {
                let track_id = self.next_id();
                (track_id, Cmd::SetNext(Some((Source::parse(p), track_id))))
            },
            None => (0, Cmd::SetNext(None)),
        }
    }

    /// The command that starts playback.
    pub fn play(&self) -> (cmd: Cmd)
        ensures
            cmd == Cmd::Play,
            asks_to_play(cmd),
    {
        Cmd::Play
    }

    /// The command that pauses playback.
    pub fn pause(&self) -> (cmd: Cmd)
        ensures
            cmd == Cmd::Pause,
            asks_to_pause(cmd),
    {
        Cmd::Pause
    }

    /// The command that stops playback.
    pub fn stop(&self) -> (cmd: Cmd)
        ensures
            cmd == Cmd::Stop,
            asks_to_stop(cmd),
    {
        Cmd::Stop
    }

    /// The command that seeks to a time in seconds, given as the bits of an
    /// `f64`. There is nothing before the start.
    pub fn seek(&self, secs: u64) -> (cmd: Cmd)
        ensures
            cmd == Cmd::Seek(from_zero(secs)),
            asks_to_seek(cmd, secs),
    {
        Cmd::Seek(at_least_zero(secs))
    }

    /// Sets the volume, kept between silence and full.
    pub fn set_volume(&self, sh: &mut Shared, volume: u32)
        ensures
            *final(sh) == (Shared {
                volume_bits: clamped(volume, 0, FULL_VOLUME),
                ..*old(sh)
            }),
            volume_set(*old(sh), volume, *final(sh)),
    {
        sh.volume_bits = clamp(volume, 0, FULL_VOLUME);
    }

    /// Sets the equalizer. Bands without a gain are flat; gains are kept within
    /// what the sliders allow. The new version tells the callback to look.
    pub fn set_eq(&self, sh: &mut Shared, gains: &[u32], preamp: u32, enabled: bool)
        ensures
            *final(sh) == (Shared {
                eq_gain_bits: final(sh).eq_gain_bits,
                preamp_bits: clamped(preamp, MIN_GAIN, MAX_GAIN),
                eq_enabled: enabled,
                eq_version: old(sh).eq_version.wrapping_add(1),
                ..*old(sh)
            }),
            forall|i: int|
                0 <= i < BANDS ==> #[trigger] final(sh).eq_gain_bits@[i] == gain_for(gains@, i),
            eq_set(*old(sh), gains@, preamp, enabled, *final(sh)),
    {
        let mut i: usize = 0;
        while i < BANDS
            invariant
                i <= BANDS,
                *sh == (Shared { eq_gain_bits: sh.eq_gain_bits, ..*old(sh) }),
                forall|j: int|
                    0 <= j < i ==> #[trigger] sh.eq_gain_bits@[j] == gain_for(gains@, j),
            decreases BANDS - i,
        {
            let g = if i < gains.len() {
                gains[i]
            } else {
                0
            };
            sh.eq_gain_bits[i] = clamp(g, MIN_GAIN, MAX_GAIN);
            i += 1;
        }
        sh.preamp_bits = clamp(preamp, MIN_GAIN, MAX_GAIN);
        sh.eq_enabled = enabled;
        sh.eq_version = sh.eq_version.wrapping_add(1);
    }

    /// What the UI shows of the engine now.
    pub fn state(&self, sh: &Shared) -> (s: EngineState)
        ensures
            s.playing == sh.playing,
            s.position == sh.pos_frames,
            s.rate == if sh.out_rate == 0 {
                1
            } else {
                sh.out_rate
            },
            s.duration_ms == sh.duration_ms,
            s.track_id == sh.current_track,
            s.ended == sh.ended,
            s.sample_rate == sh.src_rate,
            s.bit_depth == sh.src_bits,
            s.codec@ == sh.codec@,
            s.error == sh.last_error,
            shows(s, *sh),
    {
        EngineState {
            playing: sh.playing,
            position: sh.pos_frames,
            rate: if sh.out_rate == 0 {
                1
            } else {
                sh.out_rate
            },
            duration_ms: sh.duration_ms,
            track_id: sh.current_track,
            ended: sh.ended,
            sample_rate: sh.src_rate,
            bit_depth: sh.src_bits,
            codec: sh.codec.clone(),
            error: sh.last_error.clone(),
        }
    }
}

/// Why there is no sound, with what the cause said of itself.
#[derive(Clone, Debug)]
pub enum DeviceError {
    NoDevice,
    NoConfig(String),
    SampleFormat(String),
    NoStream(String),
    NotStarted(String),
    Output(String),
}

impl DeviceError {
    /// The message that the UI shows.
    pub open spec fn text(self) -> Seq<char> {
        match self {
            DeviceError::NoDevice => "no audio output device found"@,
            DeviceError::NoConfig(e) => "output config unavailable: "@ + e@,
            DeviceError::SampleFormat(e) => "unsupported audio sample format: "@ + e@,
            DeviceError::NoStream(e) => "cannot open audio device: "@ + e@,
            DeviceError::NotStarted(e) => "cannot start audio stream: "@ + e@,
            DeviceError::Output(e) => "audio output error: "@ + e@,
        }
    }

    /// The message that the UI shows.
    pub fn message(&self) -> (m: String)
        ensures
            m@ == self.text(),
    {
        match self {
            DeviceError::NoDevice => "no audio output device found".to_owned(),
            DeviceError::NoConfig(e) => join("output config unavailable: ", e.as_str()),
            DeviceError::SampleFormat(e) => join("unsupported audio sample format: ", e.as_str()),
            DeviceError::NoStream(e) => join("cannot open audio device: ", e.as_str()),
            DeviceError::NotStarted(e) => join("cannot start audio stream: ", e.as_str()),
            DeviceError::Output(e) => join("audio output error: ", e.as_str()),
        }
    }
}

/// What a command that may not have been delivered amounts to.
pub fn delivered(sent: bool, track_id: u64) -> (r: Result<u64, String>)
    ensures
        r is Ok <==> sent,
        r matches Ok(id) ==> id == track_id,
        r matches Err(m) ==> m@ == "audio engine is not running"@,
        tells_delivery(sent, track_id, r),
{
    if sent {
        Ok(track_id)
    } else {
        Err("audio engine is not running".to_owned())
    }
}

/// Ids rise with every track, and none is that of "no track", until the counter
/// wraps around.
pub proof fn law_track_ids_rise(before: AudioEngine, after: AudioEngine)
    requires
        0 < before.next_track_id < u64::MAX,
        after.next_track_id == before.next_track_id.wrapping_add(1),
    ensures
        after.next_track_id > before.next_track_id,
        after.next_track_id != 0,
{
}

/// Loading hands out the id that the track will be known by, and asks for exactly
/// the path that was given: by URL if and only if it starts with an HTTP scheme.
/// What had ended before has not ended any more.
pub proof fn law_loads_ask_for_the_path_given(
    e0: AudioEngine,
    sh0: Shared,
    path: Seq<char>,
    autoplay: bool,
    e1: AudioEngine,
    sh1: Shared,
    r: (u64, Cmd),
)
    requires
        loaded(e0, sh0, path, autoplay, e1, sh1, r),
    ensures
        r.1 matches Cmd::Load { source, track_id, autoplay: auto } && track_id == r.0 && auto
            == autoplay && match source {
            Source::Url(url) => url@ == path && is_http(path),
            Source::File(file) => file@ == path && !is_http(path),
        },
        !sh1.ended,
        sh1.playing == sh0.playing,
        sh1.pos_frames == sh0.pos_frames,
        sh1.current_track == sh0.current_track,
        sh1.flush_version == sh0.flush_version,
{
}

/// Queueing asks for exactly the path that was given, under the id it hands out;
/// clearing the queue asks for none, under no track's id, and spends none.
pub proof fn law_the_queue_is_asked_for_the_path_given(
    e0: AudioEngine,
    path: Option<Seq<char>>,
    e1: AudioEngine,
    r: (u64, Cmd),
)
    requires
        queued(e0, path, e1, r),
    ensures
        path matches Some(p) ==> (r.1 matches Cmd::SetNext(Some((source, track_id))) && track_id
            == r.0 && match source {
            Source::Url(url) => url@ == p && is_http(p),
            Source::File(file) => file@ == p && !is_http(p),
        }),
        path is None ==> r == (0u64, Cmd::SetNext(None)) && e1.next_track_id == e0.next_track_id,
{
}

/// No two tracks in a row share an id, whether they are loaded or queued, and
/// clearing the queue between them makes no difference.
pub proof fn law_tracks_have_ids_of_their_own(
    e0: AudioEngine,
    sh0: Shared,
    path: Seq<char>,
    autoplay: bool,
    e1: AudioEngine,
    sh1: Shared,
    first: (u64, Cmd),
    e2: AudioEngine,
    cleared: (u64, Cmd),
    next: Seq<char>,
    e3: AudioEngine,
    second: (u64, Cmd),
)
    requires
        0 < e0.next_track_id < u64::MAX,
        loaded(e0, sh0, path, autoplay, e1, sh1, first),
        queued(e1, None, e2, cleared),
        queued(e2, Some(next), e3, second),
    ensures
        first.0 != 0,
        second.0 == first.0 + 1,
        cleared.0 == 0,
{
}

/// What the equalizer is set to is what the filters get: each of the ten bands its
/// own gain, moved to the nearest end of the range from -24 dB to 24 dB where it
/// lies outside, and none where none is given.
pub proof fn law_each_band_gets_its_gain(
    sh0: Shared,
    gains: Seq<u32>,
    preamp: u32,
    enabled: bool,
    sh1: Shared,
    i: int,
)
    requires
        eq_set(sh0, gains, preamp, enabled, sh1),
        0 <= i < 10,
    ensures
        i >= gains.len() ==> sh1.eq_gain_bits@[i] == 0,
        i < gains.len() ==> {
            &&& gains[i] <= 0x41c0_0000 ==> sh1.eq_gain_bits@[i] == gains[i]
            &&& 0x41c0_0000 < gains[i] <= 0x7f80_0000 ==> sh1.eq_gain_bits@[i] == 0x41c0_0000
            &&& 0x8000_0000 <= gains[i] <= 0xc1c0_0000 ==> sh1.eq_gain_bits@[i] == gains[i]
            &&& 0xc1c0_0000 < gains[i] <= 0xff80_0000 ==> sh1.eq_gain_bits@[i] == 0xc1c0_0000
        },
        preamp <= 0x41c0_0000 ==> sh1.preamp_bits == preamp,
        0x41c0_0000 < preamp <= 0x7f80_0000 ==> sh1.preamp_bits == 0x41c0_0000,
        0x8000_0000 <= preamp <= 0xc1c0_0000 ==> sh1.preamp_bits == preamp,
        0xc1c0_0000 < preamp <= 0xff80_0000 ==> sh1.preamp_bits == 0xc1c0_0000,
        sh1.eq_enabled == enabled,
        sh1.volume_bits == sh0.volume_bits,
        sh1.playing == sh0.playing,
        sh1.pos_frames == sh0.pos_frames,
        sh1.flush_version == sh0.flush_version,
{
    assert(sh1.eq_gain_bits@[i] == gain_for(gains, i));
}

/// A slider that is moved reaches the filters: the next fill after the equalizer
/// was set, by a callback that had applied what was set before, applies it,
/// playing or paused.
pub proof fn law_sliders_reach_the_filters(
    sh0: Shared,
    gains: Seq<u32>,
    preamp: u32,
    enabled: bool,
    sh1: Shared,
    m0: Mixer,
    len: nat,
    m1: Mixer,
    sh2: Shared,
    out: Seq<u32>,
    r: Filled,
)
    requires
        eq_set(sh0, gains, preamp, enabled, sh1),
        m0.eq_seen == sh0.eq_version,
        filled(m0, sh1, len, m1, sh2, out, r),
    ensures
        r.retune,
        m1.eq_seen == sh1.eq_version,
{
}

/// The volume is what it is set to, between silence and full, and nothing else
/// changes with it.
pub proof fn law_the_volume_is_what_was_set(sh0: Shared, volume: u32, sh1: Shared)
    requires
        volume_set(sh0, volume, sh1),
    ensures
        volume <= 0x3f80_0000 ==> sh1.volume_bits == volume,
        0x3f80_0000 < volume <= 0x7f80_0000 ==> sh1.volume_bits == 0x3f80_0000,
        0x8000_0000 < volume <= 0xff80_0000 ==> sh1.volume_bits == 0,
        sh1 == (Shared { volume_bits: sh1.volume_bits, ..sh0 }),
{
}

/// What the UI sees is the state of the moment, and a rate that can be divided by.
pub proof fn law_the_ui_sees_the_state(s: EngineState, sh: Shared)
    requires
        shows(s, sh),
    ensures
        s.rate > 0,
        sh.out_rate > 0 ==> s.rate == sh.out_rate,
        s.position == sh.pos_frames,
        s.duration_ms == sh.duration_ms,
        s.playing == sh.playing,
        s.ended == sh.ended,
        s.track_id == sh.current_track,
        s.error == sh.last_error,
        s.codec@ == sh.codec@,
        s.sample_rate == sh.src_rate,
        s.bit_depth == sh.src_bits,
{
}

/// The rings of an engine for a device of `out_channels` channels, with nothing in
/// them yet.
pub open spec fn are_empty(rings: Rings, out_channels: usize) -> bool {
    &&& joined(rings.audio_tx, rings.audio_rx)
    &&& ring_slots(rings.audio_tx) == RING_FRAMES * out_channels
    &&& noticed_room(rings.audio_tx) == RING_FRAMES * out_channels
    &&& sent_samples(rings.audio_tx) == Seq::<u32>::empty()
    &&& joined_markers(rings.marker_tx, rings.marker_rx)
    &&& noticed_marker_room(rings.marker_tx) == MARKER_SLOTS
    &&& sent_markers(rings.marker_tx) == Seq::<TrackMarker>::empty()
    &&& joined(rings.fft_tx, rings.fft_rx)
    &&& ring_slots(rings.fft_tx) == FFT_SIZE * FFT_WINDOWS
    &&& noticed_room(rings.fft_tx) == FFT_SIZE * FFT_WINDOWS
    &&& sent_samples(rings.fft_tx) == Seq::<u32>::empty()
}

/// An engine that has not loaded anything.
pub open spec fn is_new(engine: AudioEngine) -> bool {
    engine.next_track_id == 1
}

/// The command starts playback.
pub open spec fn asks_to_play(cmd: Cmd) -> bool {
    cmd == Cmd::Play
}

/// The command pauses playback.
pub open spec fn asks_to_pause(cmd: Cmd) -> bool {
    cmd == Cmd::Pause
}

/// The command stops playback.
pub open spec fn asks_to_stop(cmd: Cmd) -> bool {
    cmd == Cmd::Stop
}

/// The command seeks to `secs`, or to the start if that lies before it.
pub open spec fn asks_to_seek(cmd: Cmd, secs: u64) -> bool {
    cmd == Cmd::Seek(from_zero(secs))
}

/// `r` tells whether a command was delivered.
pub open spec fn tells_delivery(sent: bool, track_id: u64, r: Result<u64, String>) -> bool {
    if sent {
        r == Ok::<u64, String>(track_id)
    } else {
        r matches Err(m) && m@ == "audio engine is not running"@
    }
}

/// The audio ring holds a second and a half at 48 kHz, of every channel; the
/// marker ring sixty-four boundaries, and the analyser's ring eight of its
/// windows. All of it is free at first, so that decoding can begin, and what is
/// sent into a ring comes out of that ring.
pub proof fn law_rings_start_with_room(rings: Rings, out_channels: usize)
    requires
        are_empty(rings, out_channels),
    ensures
        2 * ring_slots(rings.audio_tx) == 3 * 48_000 * out_channels,
        noticed_room(rings.audio_tx) == ring_slots(rings.audio_tx),
        ring_slots(rings.audio_tx) >= 2_048 * out_channels,
        noticed_marker_room(rings.marker_tx) == 64,
        ring_slots(rings.fft_tx) == 8 * 1_024,
        noticed_room(rings.fft_tx) == ring_slots(rings.fft_tx),
        sent_samples(rings.audio_tx).len() == 0,
        sent_samples(rings.fft_tx).len() == 0,
        sent_markers(rings.marker_tx).len() == 0,
        joined(rings.audio_tx, rings.audio_rx),
        joined(rings.fft_tx, rings.fft_rx),
        joined_markers(rings.marker_tx, rings.marker_rx),
{
    assert(2 * (RING_FRAMES * out_channels) == 3 * 48_000 * out_channels) by (nonlinear_arith)
        requires
            RING_FRAMES == 72_000,
    ;
    assert(RING_FRAMES * out_channels >= 2_048 * out_channels) by (nonlinear_arith)
        requires
            RING_FRAMES == 72_000,
    ;
}

/// No track is known by the id that says "none": the first one that an engine
/// loads has a higher id, whatever is loaded.
pub proof fn law_the_first_track_has_an_id(
    e0: AudioEngine,
    sh0: Shared,
    path: Seq<char>,
    autoplay: bool,
    e1: AudioEngine,
    sh1: Shared,
    r: (u64, Cmd),
)
    requires
        is_new(e0),
        loaded(e0, sh0, path, autoplay, e1, sh1, r),
        starts(sh0),
    ensures
        r.0 > 0,
        r.0 > sh0.current_track,
        e1.next_track_id > r.0,
{
}

/// The buttons do what they say: once the decoder has taken the command, a loaded
/// track plays, nothing plays, or the track is gone.
pub proof fn law_buttons_do_what_they_say(
    cmd: Cmd,
    d0: Deck,
    sh0: Shared,
    room: Room,
    d1: Deck,
    sh1: Shared,
    m0: Producer<TrackMarker>,
    m1: Producer<TrackMarker>,
    action: Action,
)
    requires
        turn(d0, sh0, Event::Command(cmd), room, d1, sh1, m0, m1, action),
    ensures
        asks_to_play(cmd) && d0.current is Some ==> sh1.playing && d1 == d0,
        asks_to_play(cmd) && d0.current is None ==> sh1 == sh0 && d1 == d0,
        asks_to_pause(cmd) ==> !sh1.playing && d1 == d0 && sh1.pos_frames == sh0.pos_frames,
        asks_to_stop(cmd) ==> !sh1.playing && d1.current is None,
{
}

/// The slider of the position reaches the demuxer, playing or paused: of a loaded
/// track it seeks to that time, and to the start where the time lies before it.
pub proof fn law_the_position_slider_seeks(
    cmd: Cmd,
    secs: u64,
    d0: Deck,
    sh0: Shared,
    room: Room,
    d1: Deck,
    sh1: Shared,
    m0: Producer<TrackMarker>,
    m1: Producer<TrackMarker>,
    action: Action,
)
    requires
        asks_to_seek(cmd, secs),
        d0.current is Some,
        turn(d0, sh0, Event::Command(cmd), room, d1, sh1, m0, m1, action),
    ensures
        action matches Action::Seek { secs: to, track_id } && track_id == d0.current->0.track_id && (
        secs <= 0x7ff0_0000_0000_0000 ==> to == secs) && (secs > 0x8000_0000_0000_0000
            ==> to == 0),
        sh1.playing == sh0.playing,
{
    law_times_start_at_zero(secs);
}

/// A load is answered with the id of its track if it was delivered, and with what
/// is wrong if it was not.
pub proof fn law_undelivered_commands_say_so(sent: bool, track_id: u64, r: Result<u64, String>)
    requires
        tells_delivery(sent, track_id, r),
    ensures
        sent ==> r == Ok::<u64, String>(track_id),
        !sent ==> (r matches Err(m) && m@ == "audio engine is not running"@),
{
}

/// A message about the device ends with what the cause says, and shows which cause
/// it was: no two of them begin alike.
pub proof fn law_device_messages_tell_the_cause(e: DeviceError, f: DeviceError, why: String)
    requires
        e == DeviceError::NoConfig(why) || e == DeviceError::SampleFormat(why) || e
            == DeviceError::NoStream(why) || e == DeviceError::NotStarted(why) || e
            == DeviceError::Output(why),
        f == DeviceError::NoConfig(why) || f == DeviceError::SampleFormat(why) || f
            == DeviceError::NoStream(why) || f == DeviceError::NotStarted(why) || f
            == DeviceError::Output(why),
    ensures
        e.text().len() > why@.len(),
        e.text().skip(e.text().len() - why@.len()) == why@,
        e.text().take(8) == f.text().take(8) ==> e == f,
{
    reveal_strlit("output config unavailable: ");
    reveal_strlit("unsupported audio sample format: ");
    reveal_strlit("cannot open audio device: ");
    reveal_strlit("cannot start audio stream: ");
    reveal_strlit("audio output error: ");
    assert(e.text().skip(e.text().len() - why@.len()) =~= why@);
    let a = e.text().take(8);
    let b = f.text().take(8);
    assert(a[0] == e.text()[0] && b[0] == f.text()[0]);
    assert(a[7] == e.text()[7] && b[7] == f.text()[7]);
}

/// A queued track and one that is loaded after it have ids of their own, too, and
/// queueing none spends no id.
pub proof fn law_queued_tracks_have_ids_of_their_own(
    e0: AudioEngine,
    next: Seq<char>,
    e1: AudioEngine,
    first: (u64, Cmd),
    e2: AudioEngine,
    cleared: (u64, Cmd),
    sh0: Shared,
    path: Seq<char>,
    autoplay: bool,
    e3: AudioEngine,
    sh1: Shared,
    second: (u64, Cmd),
)
    requires
        0 < e0.next_track_id < u64::MAX,
        queued(e0, Some(next), e1, first),
        queued(e1, None, e2, cleared),
        loaded(e2, sh0, path, autoplay, e3, sh1, second),
    ensures
        first.0 == e0.next_track_id,
        second.0 == first.0 + 1,
        e2.next_track_id == e1.next_track_id,
{
}

} // verus!
