//! The ten bands of the equalizer: which filter each of them is, and when there
//! is nothing for the filters to do.
//!
//! Gains are decibels, as the bit patterns of `f32` values.

use vstd::prelude::*;

use crate::level::magnitude;

verus! {

/// The number of equalizer bands.
pub const BANDS: usize = 10;

/// The filter of a band.
#[derive(Clone, Copy, Debug, PartialEq, Eq, Structural)]
pub enum Kind {
    LowShelf,
    Peaking,
    HighShelf,
}

/// The filter of band `i`: shelves at both ends, peaks in between.
pub open spec fn kind_of(i: int) -> Kind {
    if i == 0 {
        Kind::LowShelf
    } else if i == BANDS - 1 {
        Kind::HighShelf
    } else {
        Kind::Peaking
    }
}

/// The filter of band `i`.
pub fn band_kind(i: usize) -> (kind: Kind)
    ensures
        kind == kind_of(i as int),
{
    if i == 0 {
        Kind::LowShelf
    } else if i == BANDS - 1 {
        Kind::HighShelf
    } else {
        Kind::Peaking
    }
}

/// The centre frequency of band `i` in Hz, matching the UI sliders.
pub open spec fn centre(i: int) -> u32 {
    if i == 0 {
        31
    } else if i == 1 {
        62
    } else if i == 2 {
        125
    } else if i == 3 {
        250
    } else if i == 4 {
        500
    } else if i == 5 {
        1000
    } else if i == 6 {
        2000
    } else if i == 7 {
        4000
    } else if i == 8 {
        8000
    } else {
        16000
    }
}

/// The centre frequency of band `i` in Hz.
pub fn band_hz(i: usize) -> (hz: u32)
    requires
        i < BANDS,
    ensures
        hz == centre(i as int),
{
    match i {
        0 => 31,
        1 => 62,
        2 => 125,
        3 => 250,
        4 => 500,
        5 => 1000,
        6 => 2000,
        7 => 4000,
        8 => 8000,
        _ => 16000,
    }
}

/// Band `i` lies below the Nyquist frequency of `sample_rate`.
pub open spec fn is_live(sample_rate: u32, i: int) -> bool {
    2 * centre(i) < sample_rate
}

/// Whether band `i` has anything to act on at `sample_rate`: its centre lies
/// below the Nyquist frequency. A band that has not is left flat.
pub fn band_acts(sample_rate: u32, i: usize) -> (yes: bool)
    requires
        i < BANDS,
    ensures
        yes == (2 * centre(i as int) < sample_rate),
        yes == is_live(sample_rate, i as int),
{
    2 * band_hz(i) < sample_rate
}

/// The bands lie in rising order, so those above the Nyquist frequency are the
/// last ones.
pub proof fn law_bands_rise(i: int, j: int)
    requires
        0 <= i < j < BANDS,
    ensures
        centre(i) < centre(j),
{
}

/// The bit pattern of `0.05f32`: a gain below it is as good as none.
pub const FLAT_BELOW: u32 = 0x3d4c_cccd;

/// No band has a gain to speak of.
pub open spec fn is_flat(gains: Seq<u32>) -> bool {
    forall|i: int| 0 <= i < gains.len() ==> magnitude(#[trigger] gains[i]) < FLAT_BELOW
}

/// Whether no band has a gain to speak of.
pub fn flat(gains: &[u32; BANDS]) -> (yes: bool)
    ensures
        yes == is_flat(gains@),
{
    let mut i: usize = 0;
    while i < BANDS
        invariant
            i <= BANDS,
            forall|j: int| 0 <= j < i ==> magnitude(#[trigger] gains@[j]) < FLAT_BELOW,
        decreases BANDS - i,
    {
        if gains[i] % 0x8000_0000 >= FLAT_BELOW {
            assert(magnitude(gains@[i as int]) >= FLAT_BELOW);
            return false;
        }
        i += 1;
    }
    true
}

/// The filters can be skipped.
pub open spec fn is_bypassed(enabled: bool, gains: Seq<u32>, preamp_is_unity: bool) -> bool {
    !enabled || (is_flat(gains) && preamp_is_unity)
}

/// Whether the filters can be skipped: the equalizer is off, or it is flat and
/// its preamp leaves the level as it is. Samples then pass through untouched.
pub fn bypass(enabled: bool, gains: &[u32; BANDS], preamp_is_unity: bool) -> (yes: bool)
    ensures
        yes == (!enabled || (is_flat(gains@) && preamp_is_unity)),
        yes == is_bypassed(enabled, gains@, preamp_is_unity),
{
    !enabled || (flat(gains) && preamp_is_unity)
}

/// The number of filter chains for so many channels.
pub open spec fn chains_for(channels: int) -> int {
    if channels == 0 {
        1
    } else {
        channels
    }
}

/// The number of filter chains for so many channels: one each, and at least one.
pub fn chain_count(channels: usize) -> (n: usize)
    ensures
        n == if channels == 0 {
            1
        } else {
            channels as int
        },
        n == chains_for(channels as int),
{
    if channels == 0 {
        1
    } else {
        channels
    }
}

/// The filter chain for sample `i` of interleaved frames.
pub open spec fn chain_of(i: usize, channels: usize, chains: usize) -> Option<usize> {
    if i % channels < chains {
        Some((i % channels) as usize)
    } else {
        None
    }
}

/// The filter chain for sample `i` of interleaved frames of `channels` samples:
/// that of its channel, if there is one.
pub fn chain_for(i: usize, channels: usize, chains: usize) -> (chain: Option<usize>)
    requires
        channels > 0,
    ensures
        chain == if i % channels < chains {
            Some((i % channels) as usize)
        } else {
            None
        },
        chain == chain_of(i, channels, chains),
{
    let ch = i % channels;
    if ch < chains {
        Some(ch)
    } else {
        None
    }
}

/// Every band counts, the first and the last included: a gain of 0.05 dB or more
/// in any of the ten, up or down, is not flat, and an enabled equalizer acts
/// then.
pub proof fn law_any_band_can_act(gains: Seq<u32>, i: int, preamp_is_unity: bool)
    requires
        gains.len() == 10,
        0 <= i < 10,
        0x3d4c_cccd <= gains[i] < 0x8000_0000 || gains[i] >= 0xbd4c_cccd,
    ensures
        !is_flat(gains),
        !is_bypassed(true, gains, preamp_is_unity),
{
    assert(magnitude(gains[i]) >= FLAT_BELOW);
}

/// Settings in which no band has a gain of 0.05 dB are flat, and leave the audio
/// untouched unless the preamp acts.
pub proof fn law_flat_settings_leave_the_audio_alone(gains: Seq<u32>, preamp_is_unity: bool)
    requires
        forall|i: int|
            0 <= i < gains.len() ==> (#[trigger] gains[i]) < 0x3d4c_cccd || 0x8000_0000 <= gains[i]
                < 0xbd4c_cccd,
    ensures
        is_flat(gains),
        is_bypassed(true, gains, preamp_is_unity) <==> preamp_is_unity,
{
    assert forall|i: int| 0 <= i < gains.len() implies magnitude(#[trigger] gains[i])
        < FLAT_BELOW by {}
}

/// A disabled equalizer does nothing, whatever it is set to; an enabled one whose
/// preamp acts always does something.
pub proof fn law_the_switch_and_the_preamp_count(gains: Seq<u32>, preamp_is_unity: bool)
    ensures
        is_bypassed(false, gains, preamp_is_unity),
        !is_bypassed(true, gains, false),
{
}

/// The bands span the range from 31 Hz to 16 kHz, each an octave above the one
/// before.
pub proof fn law_bands_are_octaves(i: int)
    requires
        0 <= i < 9,
    ensures
        centre(0) == 31,
        centre(9) == 16000,
        2 * centre(i) <= centre(i + 1) <= 2 * centre(i) + 1,
{
}

/// The filters at the two ends are shelves, each on its own side; all between
/// them are peaks.
pub proof fn law_shelves_stand_at_the_ends(i: int)
    requires
        0 <= i < 10,
    ensures
        kind_of(i) == Kind::LowShelf <==> i == 0,
        kind_of(i) == Kind::HighShelf <==> i == 9,
        kind_of(i) == Kind::Peaking <==> 0 < i < 9,
{
}

/// A band acts if and only if its centre lies below half of the sample rate. So
/// where a band acts, all lower ones do, and it does at every higher rate.
pub proof fn law_bands_below_nyquist_act(rate: u32, higher: u32, i: int, j: int)
    requires
        0 <= j <= i < BANDS,
        rate <= higher,
    ensures
        is_live(rate, i) <==> centre(i) + centre(i) < rate,
        is_live(rate, i) ==> is_live(rate, j) && is_live(higher, i),
        rate > 32000 ==> is_live(rate, i),
        rate <= 62 ==> !is_live(rate, i),
{
}

/// Each channel has a chain of its own, and its samples go through that one: the
/// samples of one frame go to different chains, and sample `i` of every frame to
/// the same.
pub proof fn law_channels_keep_to_their_chain(i: usize, j: usize, channels: usize)
    requires
        channels > 0,
    ensures
        chains_for(channels as int) == channels,
        chains_for(0) == 1,
        chain_of(i, channels, channels) matches Some(c) && c < channels && c == i % channels,
        i % channels == j % channels <==> chain_of(i, channels, channels) == chain_of(
            j,
            channels,
            channels,
        ),
        i < channels ==> chain_of(i, channels, channels) == Some(i),
        forall|chains: usize|
            #[trigger] chain_of(i, channels, chains) is None <==> i % channels >= chains,
{
    if i < channels {
        vstd::arithmetic::div_mod::lemma_small_mod(i as nat, channels as nat);
    }
}

} // verus!
