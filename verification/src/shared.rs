//! What the threads of the engine tell each other.

use vstd::prelude::*;

use crate::eq::BANDS;

verus! {

/// The state that the decoder, the output callback, the analyser and the UI
/// share, as one of them finds it. Levels and gains are the bit patterns of
/// `f32` values.
pub struct Shared {
    pub playing: bool,
    /// Frames the callback has delivered to the device since start-up.
    pub played_frames: u64,
    /// Position within the current track, in output frames.
    pub pos_frames: u64,
    pub duration_ms: u64,
    pub current_track: u64,
    pub ended: bool,
    pub volume_bits: u32,
    pub eq_enabled: bool,
    pub preamp_bits: u32,
    pub eq_gain_bits: [u32; BANDS],
    pub eq_version: u64,
    /// Bumped by the decoder to tell the callback to throw away buffered audio
    /// (after a seek or a new track); only the consumer side can empty a ring.
    pub flush_version: u64,
    pub out_rate: u32,
    pub out_channels: u32,
    /// Source sample rate and bit depth of what is playing, for the UI.
    pub src_rate: u32,
    pub src_bits: u32,
    pub last_error: Option<String>,
    pub codec: String,
}

/// The bit pattern of `1.0f32`, the volume that leaves samples as they are.
pub const FULL_VOLUME: u32 = 0x3f80_0000;

impl Shared {
    /// The state at start-up: nothing playing, full volume, flat equalizer.
    pub fn new() -> (sh: Self)
        ensures
            !sh.playing,
            sh.played_frames == 0,
            sh.pos_frames == 0,
            sh.duration_ms == 0,
            sh.current_track == 0,
            !sh.ended,
            sh.volume_bits == FULL_VOLUME,
            sh.eq_enabled,
            sh.preamp_bits == 0,
            sh.eq_gain_bits@ == Seq::new(BANDS as nat, |i: int| 0u32),
            sh.eq_version == 0,
            sh.flush_version == 0,
            sh.out_rate == 48_000,
            sh.out_channels == 2,
            sh.src_rate == 0,
            sh.src_bits == 0,
            sh.last_error is None,
            sh.codec@ == Seq::<char>::empty(),
            starts(sh),
    {
        Shared {
            playing: false,
            played_frames: 0,
            pos_frames: 0,
            duration_ms: 0,
            current_track: 0,
            ended: false,
            volume_bits: FULL_VOLUME,
            eq_enabled: true,
            preamp_bits: 0,
            eq_gain_bits: [0u32; BANDS],
            eq_version: 0,
            flush_version: 0,
            out_rate: 48_000,
            out_channels: 2,
            src_rate: 0,
            src_bits: 0,
            last_error: None,
            codec: String::new(),
        }
    }
}

/// The state at start-up.
pub open spec fn starts(sh: Shared) -> bool {
    &&& !sh.playing && !sh.ended
    &&& sh.played_frames == 0 && sh.pos_frames == 0 && sh.duration_ms == 0
    &&& sh.current_track == 0
    &&& sh.volume_bits == FULL_VOLUME
    &&& sh.eq_enabled && sh.preamp_bits == 0
    &&& sh.eq_gain_bits@ == Seq::new(BANDS as nat, |i: int| 0u32)
    &&& sh.eq_version == 0 && sh.flush_version == 0
    &&& sh.out_rate == 48_000 && sh.out_channels == 2
    &&& sh.src_rate == 0 && sh.src_bits == 0
    &&& sh.last_error is None
    &&& sh.codec@ == Seq::<char>::empty()
}

/// At start-up nothing plays, nothing went wrong, and what will play is heard as
/// it is: at full volume, with every one of the ten bands at zero.
pub proof fn law_starts_silent_and_neutral(sh: Shared, i: int)
    requires
        starts(sh),
    ensures
        !sh.playing && !sh.ended && sh.last_error is None,
        sh.pos_frames == 0 && sh.current_track == 0,
        sh.volume_bits == 0x3f80_0000,
        sh.preamp_bits == 0,
        sh.eq_gain_bits@.len() == 10,
        0 <= i < 10 ==> sh.eq_gain_bits@[i] == 0,
        sh.eq_enabled,
        sh.out_rate > 0 && sh.out_channels > 0,
        sh.eq_version == 0 && sh.flush_version == 0,
        sh.src_rate == 0 && sh.src_bits == 0 && sh.codec@.len() == 0,
{
}

} // verus!
