//! What an opened file or stream is, and what playing it takes.

use vstd::prelude::*;

use crate::deck::DecodeStep;
use crate::shared::Shared;

verus! {

/// The codecs that the player tells apart.
#[derive(Clone, Copy, Debug, PartialEq, Eq, Structural)]
pub enum Codec {
    Flac,
    Alac,
    Mp3,
    Aac,
    Vorbis,
    PcmS16Le,
    PcmS24Le,
    PcmS32Le,
    PcmF32Le,
    PcmF64Le,
    PcmS16Be,
    PcmS24Be,
    PcmS32Be,
    PcmF32Be,
    PcmF64Be,
    PcmU8,
    PcmS8,
    /// Uncompressed PCM in any other layout: unsigned samples of more than 8
    /// bits, or one plane per channel.
    PcmOther,
    MonkeysAudio,
    TrueAudio,
    AdpcmImaWav,
    AdpcmMs,
    /// Any other codec. None of these reproduces the recorded samples exactly
    /// whenever it is used: WavPack, which has a lossy mode, is among them.
    Other,
}

/// A codec's name in the player bar.
pub open spec fn codec_label(codec: Codec) -> Seq<char> {
    match codec {
        Codec::Flac => "FLAC"@,
        Codec::Alac => "ALAC"@,
        Codec::Mp3 => "MP3"@,
        Codec::Aac => "AAC"@,
        Codec::Vorbis => "Vorbis"@,
        Codec::PcmS16Le | Codec::PcmS24Le | Codec::PcmS32Le | Codec::PcmF32Le => "PCM"@,
        Codec::PcmS16Be | Codec::PcmS24Be | Codec::PcmS32Be => "PCM"@,
        Codec::AdpcmImaWav | Codec::AdpcmMs => "ADPCM"@,
        Codec::PcmF64Le | Codec::PcmF32Be | Codec::PcmF64Be | Codec::PcmU8 | Codec::PcmS8 => "audio"@,
        Codec::PcmOther | Codec::MonkeysAudio | Codec::TrueAudio | Codec::Other => "audio"@,
    }
}

/// The codec is uncompressed PCM.
pub open spec fn is_raw(codec: Codec) -> bool {
    match codec {
        Codec::PcmS16Le | Codec::PcmS24Le | Codec::PcmS32Le => true,
        Codec::PcmS16Be | Codec::PcmS24Be | Codec::PcmS32Be => true,
        Codec::PcmF32Le | Codec::PcmF64Le | Codec::PcmF32Be | Codec::PcmF64Be => true,
        Codec::PcmU8 | Codec::PcmS8 | Codec::PcmOther => true,
        _ => false,
    }
}

/// The codec reproduces the recorded samples exactly: it is uncompressed, or
/// packs them without loss.
pub open spec fn keeps_samples(codec: Codec) -> bool {
    is_raw(codec) || codec is Flac || codec is Alac || codec is MonkeysAudio || codec is TrueAudio
}

/// Whether the codec reproduces the recorded samples exactly.
pub fn codec_is_lossless(codec: Codec) -> (yes: bool)
    ensures
        yes == keeps_samples(codec),
{
    match codec {
        Codec::Mp3 | Codec::Aac | Codec::Vorbis | Codec::AdpcmImaWav | Codec::AdpcmMs
        | Codec::Other => false,
        _ => true,
    }
}

/// A codec's name in the player bar.
pub fn codec_name(codec: Codec) -> (name: String)
    ensures
        name@ == codec_label(codec),
{
    match codec {
        Codec::Flac => "FLAC".to_owned(),
        Codec::Alac => "ALAC".to_owned(),
        Codec::Mp3 => "MP3".to_owned(),
        Codec::Aac => "AAC".to_owned(),
        Codec::Vorbis => "Vorbis".to_owned(),
        Codec::PcmS16Le | Codec::PcmS24Le | Codec::PcmS32Le | Codec::PcmF32Le => "PCM".to_owned(),
        Codec::PcmS16Be | Codec::PcmS24Be | Codec::PcmS32Be => "PCM".to_owned(),
        Codec::AdpcmImaWav | Codec::AdpcmMs => "ADPCM".to_owned(),
        Codec::PcmF64Le | Codec::PcmF32Be | Codec::PcmF64Be | Codec::PcmU8 | Codec::PcmS8 => {
            "audio".to_owned()
        },
        Codec::PcmOther | Codec::MonkeysAudio | Codec::TrueAudio | Codec::Other => {
            "audio".to_owned()
        },
    }
}

/// What the container says about its audio track.
#[derive(Clone, Copy, Debug)]
pub struct StreamParams {
    pub codec: Codec,
    pub sample_rate: Option<u32>,
    /// The number of channels.
    pub channels: Option<usize>,
    pub n_frames: Option<u64>,
    pub bits_per_sample: Option<u32>,
    pub bits_per_coded_sample: Option<u32>,
}

/// What playing a stream on a given device takes.
#[derive(Clone, Copy, Debug, PartialEq, Eq)]
pub struct StreamPlan {
    pub src_rate: u32,
    pub src_channels: usize,
    /// The device runs at another rate than the stream.
    pub resample: bool,
}

impl StreamParams {
    /// The bit depth, as far as the container knows it; 0 otherwise.
    pub open spec fn depth(self) -> u32 {
        match self.bits_per_sample {
            Some(b) => b,
            None => match self.bits_per_coded_sample {
                Some(b) => b,
                None => 0,
            },
        }
    }

    /// The bit depth, as far as the container knows it; 0 otherwise.
    pub fn bit_depth(&self) -> (bits: u32)
        ensures
            bits == self.depth(),
    {
        match self.bits_per_sample {
            Some(b) => b,
            None => match self.bits_per_coded_sample {
                Some(b) => b,
                None => 0,
            },
        }
    }

    /// Frames and frames per second, when the container knows both: their
    /// quotient is the duration.
    pub open spec fn length(self) -> Option<(u64, u32)> {
        match (self.n_frames, self.sample_rate) {
            (Some(frames), Some(rate)) => Some((frames, rate)),
            _ => None,
        }
    }

    /// Frames and frames per second, when the container knows both.
    pub fn duration(&self) -> (d: Option<(u64, u32)>)
        ensures
            d == self.length(),
    {
        match (self.n_frames, self.sample_rate) {
            (Some(frames), Some(rate)) => Some((frames, rate)),
            _ => None,
        }
    }

    /// What playing the stream takes on a given device.
    pub open spec fn planned(self, out_rate: u32, out_channels: usize) -> StreamPlan {
        let rate = match self.sample_rate {
            Some(rate) => rate,
            None => out_rate,
        };
        let n = match self.channels {
            Some(n) => n,
            None => out_channels,
        };
        StreamPlan {
            src_rate: rate,
            src_channels: if n == 0 {
                1
            } else {
                n
            },
            resample: rate != out_rate,
        }
    }

    /// What playing the stream takes on a device of `out_rate` and
    /// `out_channels`. A resampler engages only if the rates differ.
    pub fn plan(&self, out_rate: u32, out_channels: usize) -> (plan: StreamPlan)
        ensures
            plan.src_rate == match self.sample_rate {
                Some(rate) => rate,
                None => out_rate,
            },
            plan.src_channels == {
                let n = match self.channels {
                    Some(n) => n,
                    None => out_channels,
                };
                if n == 0 {
                    1
                } else {
                    n
                }
            },
            plan.resample == (plan.src_rate != out_rate),
            plan == self.planned(out_rate, out_channels),
    {
        let src_rate = match self.sample_rate {
            Some(rate) => rate,
            None => out_rate,
        };
        let n = match self.channels {
            Some(n) => n,
            None => out_channels,
        };
        StreamPlan {
            src_rate,
            src_channels: if n == 0 {
                1
            } else {
                n
            },
            resample: src_rate != out_rate,
        }
    }

    /// Tells the UI about the stream that is about to play. `duration_ms` is 0
    /// where the duration is unknown.
    pub fn publish(&self, sh: &mut Shared, plan: &StreamPlan, duration_ms: u64)
        ensures
            *final(sh) == (Shared {
                duration_ms,
                src_rate: plan.src_rate,
                src_bits: self.depth(),
                codec: final(sh).codec,
                last_error: None,
                ..*old(sh)
            }),
            final(sh).codec@ == codec_label(self.codec),
            published(*self, *old(sh), *plan, duration_ms, *final(sh)),
    {
        sh.duration_ms = duration_ms;
        sh.src_rate = plan.src_rate;
        sh.src_bits = self.bit_depth();
        sh.codec = codec_name(self.codec);
        sh.last_error = None;
    }
}

/// What publishing a stream does to the shared state.
pub open spec fn published(
    params: StreamParams,
    sh0: Shared,
    plan: StreamPlan,
    duration_ms: u64,
    sh1: Shared,
) -> bool {
    &&& sh1 == Shared {
        duration_ms,
        src_rate: plan.src_rate,
        src_bits: params.depth(),
        codec: sh1.codec,
        last_error: None,
        ..sh0
    }
    &&& sh1.codec@ == codec_label(params.codec)
}

/// Why a source could not be opened, with what the cause said of itself.
#[derive(Clone, Debug)]
pub enum OpenError {
    File(String),
    Stream(String),
    Format(String),
    NoTrack,
    NoDecoder(String),
    NoResampler(String),
}

impl OpenError {
    /// The message that the UI shows.
    pub open spec fn text(self) -> Seq<char> {
        match self {
            OpenError::File(e) => "cannot open file: "@ + e@,
            OpenError::Stream(e) => "cannot open stream: "@ + e@,
            OpenError::Format(e) => "unsupported or corrupt audio: "@ + e@,
            OpenError::NoTrack => "file contains no audio track"@,
            OpenError::NoDecoder(e) => "no decoder for this format: "@ + e@,
            OpenError::NoResampler(e) => "cannot build resampler: "@ + e@,
        }
    }

    /// The message that the UI shows.
    pub fn message(&self) -> (m: String)
        ensures
            m@ == self.text(),
    {
        match self {
            OpenError::File(e) => join("cannot open file: ", e.as_str()),
            OpenError::Stream(e) => join("cannot open stream: ", e.as_str()),
            OpenError::Format(e) => join("unsupported or corrupt audio: ", e.as_str()),
            OpenError::NoTrack => "file contains no audio track".to_owned(),
            OpenError::NoDecoder(e) => join("no decoder for this format: ", e.as_str()),
            OpenError::NoResampler(e) => join("cannot build resampler: ", e.as_str()),
        }
    }
}

pub(crate) fn join(a: &str, b: &str) -> (s: String)
    ensures
        s@ == a@ + b@,
{
    let mut s = a.to_owned();
    s.append(b);
    s
}

/// What came of asking the demuxer for a packet.
pub enum PacketRead {
    /// A packet of this track.
    Packet { track_id: u32 },
    /// Reading failed, possibly because the file is over.
    Io { at_end: bool, message: String },
    /// The tracks have changed.
    ResetRequired,
    Error(String),
}

/// What came of decoding a packet.
pub enum PacketDecode {
    /// So many frames.
    Frames(usize),
    /// A recoverable glitch.
    Glitch,
    Error(String),
}

/// What a packet that was read means.
pub open spec fn read_means(read: PacketRead, wanted: u32, step: Option<DecodeStep>) -> bool {
    match read {
        PacketRead::Packet { track_id } => if track_id == wanted {
            step is None
        } else {
            step == Some(DecodeStep::Continued)
        },
        PacketRead::Io { at_end, message } => if at_end {
            step == Some(DecodeStep::Finished)
        } else {
            step matches Some(DecodeStep::Failed(m)) && m@ == "read error: "@ + message@
        },
        PacketRead::ResetRequired => step == Some(DecodeStep::Finished),
        PacketRead::Error(e) => step matches Some(DecodeStep::Failed(m)) && m@
            == "read error: "@ + e@,
    }
}

/// What a packet that was read means, if it is not to be decoded: the end of the
/// file and a change of its tracks finish the track, and packets of other tracks
/// are passed over.
pub fn after_read(read: PacketRead, wanted: u32) -> (step: Option<DecodeStep>)
    ensures
        match read {
            PacketRead::Packet { track_id } => if track_id == wanted {
                step is None
            } else {
                step == Some(DecodeStep::Continued)
            },
            PacketRead::Io { at_end, message } => if at_end {
                step == Some(DecodeStep::Finished)
            } else {
                step matches Some(DecodeStep::Failed(m)) && m@ == "read error: "@ + message@
            },
            PacketRead::ResetRequired => step == Some(DecodeStep::Finished),
            PacketRead::Error(e) => step matches Some(DecodeStep::Failed(m)) && m@
                == "read error: "@ + e@,
        },
        read_means(read, wanted, step),
{
    match read {
        PacketRead::Packet { track_id } => if track_id == wanted {
            None
        } else {
            Some(DecodeStep::Continued)
        },
        PacketRead::Io { at_end, message } => if at_end {
            Some(DecodeStep::Finished)
        } else {
            Some(DecodeStep::Failed(join("read error: ", message.as_str())))
        },
        PacketRead::ResetRequired => Some(DecodeStep::Finished),
        PacketRead::Error(e) => Some(DecodeStep::Failed(join("read error: ", e.as_str()))),
    }
}

/// What a decoded packet means.
pub open spec fn decoding_means(decoded: PacketDecode, step: Option<DecodeStep>) -> bool {
    match decoded {
        PacketDecode::Frames(n) => if n > 0 {
            step is None
        } else {
            step == Some(DecodeStep::Continued)
        },
        PacketDecode::Glitch => step == Some(DecodeStep::Continued),
        PacketDecode::Error(e) => step matches Some(DecodeStep::Failed(m)) && m@
            == "decode error: "@ + e@,
    }
}

/// What a decoded packet means, if it holds no audio: a glitch costs the packet
/// rather than the playback.
pub fn after_decoding(decoded: PacketDecode) -> (step: Option<DecodeStep>)
    ensures
        match decoded {
            PacketDecode::Frames(n) => if n > 0 {
                step is None
            } else {
                step == Some(DecodeStep::Continued)
            },
            PacketDecode::Glitch => step == Some(DecodeStep::Continued),
            PacketDecode::Error(e) => step matches Some(DecodeStep::Failed(m)) && m@
                == "decode error: "@ + e@,
        },
        decoding_means(decoded, step),
{
    match decoded {
        PacketDecode::Frames(n) => if n > 0 {
            None
        } else {
            Some(DecodeStep::Continued)
        },
        PacketDecode::Glitch => Some(DecodeStep::Continued),
        PacketDecode::Error(e) => Some(DecodeStep::Failed(join("decode error: ", e.as_str()))),
    }
}

/// What a failing resampler means.
pub fn resampling_failed(e: &str) -> (step: DecodeStep)
    ensures
        step matches DecodeStep::Failed(m) && m@ == "resample error: "@ + e@,
        is_resample_failure(e@, step),
{
    DecodeStep::Failed(join("resample error: ", e))
}

/// A resampler engages if and only if the rate of the stream is known and is not
/// the device's: whatever the device, a stream at its own rate is never
/// resampled.
pub proof fn law_only_other_rates_are_resampled(p: StreamParams, out_rate: u32, out_channels: usize)
    ensures
        p.planned(out_rate, out_channels).resample <==> p.sample_rate is Some && p.sample_rate
            != Some(out_rate),
        p.sample_rate matches Some(rate) ==> p.planned(out_rate, out_channels).src_rate == rate,
        p.sample_rate is None ==> p.planned(out_rate, out_channels).src_rate == out_rate,
        p.planned(out_rate, out_channels).src_channels > 0,
        p.channels matches Some(n) && n > 0 ==> p.planned(out_rate, out_channels).src_channels
            == p.channels->0,
        p.channels is None && out_channels > 0 ==> p.planned(out_rate, out_channels).src_channels
            == out_channels,
{
}

/// The bit depth of the samples counts before that of their code, and no depth is
/// made up. A duration is known if and only if frames and rate are.
pub proof fn law_what_the_container_knows_is_kept(p: StreamParams)
    ensures
        p.bits_per_sample matches Some(b) ==> p.depth() == b,
        p.bits_per_sample is None ==> (p.bits_per_coded_sample matches Some(b) ==> p.depth() == b),
        p.bits_per_sample is None && p.bits_per_coded_sample is None ==> p.depth() == 0,
        p.length() is Some <==> p.n_frames is Some && p.sample_rate is Some,
        p.length() matches Some((frames, rate)) ==> p.n_frames == Some(frames) && p.sample_rate
            == Some(rate),
{
}

/// What the UI shows of a stream is that of the stream, and an error that came
/// before it is gone; how it plays is not touched.
pub proof fn law_streams_are_shown_as_they_are(
    params: StreamParams,
    sh0: Shared,
    plan: StreamPlan,
    duration_ms: u64,
    sh1: Shared,
)
    requires
        published(params, sh0, plan, duration_ms, sh1),
    ensures
        sh1.last_error is None,
        sh1.duration_ms == duration_ms,
        sh1.src_rate == plan.src_rate,
        sh1.src_bits == params.depth(),
        sh1.codec@ == codec_label(params.codec),
        sh1.playing == sh0.playing,
        sh1.ended == sh0.ended,
        sh1.pos_frames == sh0.pos_frames,
        sh1.played_frames == sh0.played_frames,
        sh1.current_track == sh0.current_track,
        sh1.flush_version == sh0.flush_version,
        sh1.eq_version == sh0.eq_version,
        sh1.volume_bits == sh0.volume_bits,
{
}

/// Packets of the wanted track are decoded, and no others; those are passed over.
/// Only the end of the file, or a change of its tracks, ends the track, and every
/// other failure says what it was.
pub proof fn law_only_wanted_packets_are_decoded(
    read: PacketRead,
    wanted: u32,
    step: Option<DecodeStep>,
)
    requires
        read_means(read, wanted, step),
    ensures
        step is None <==> read == (PacketRead::Packet { track_id: wanted }),
        step == Some(DecodeStep::Continued) <==> (read matches PacketRead::Packet { track_id }
            && track_id != wanted),
        step == Some(DecodeStep::Finished) <==> read is ResetRequired || (
        read matches PacketRead::Io { at_end, .. } && at_end),
        step matches Some(DecodeStep::Failed(m)) ==> (read matches PacketRead::Error(e) ==> m@
            == "read error: "@ + e@) && (read matches PacketRead::Io { message, .. } ==> m@
            == "read error: "@ + message@),
{
}

/// A packet that was decoded is played if it holds any frame at all; a glitch
/// costs the packet alone, and no packet ends the track. Other failures say what
/// they were.
pub proof fn law_glitches_cost_one_packet(decoded: PacketDecode, step: Option<DecodeStep>)
    requires
        decoding_means(decoded, step),
    ensures
        step is None <==> (decoded matches PacketDecode::Frames(n) && n > 0),
        step != Some(DecodeStep::Finished),
        step == Some(DecodeStep::Continued) <==> decoded is Glitch || decoded
            == PacketDecode::Frames(0),
        decoded matches PacketDecode::Error(e) ==> (step matches Some(DecodeStep::Failed(m)) && m@
            == "decode error: "@ + e@),
{
}

/// Every uncompressed layout reproduces the recorded samples, and so do the codecs
/// that pack them without loss; nothing else does.
pub proof fn law_lossless_codecs_are_known(codec: Codec)
    ensures
        !keeps_samples(codec) <==> codec is Mp3 || codec is Aac || codec is Vorbis || codec
            is AdpcmImaWav || codec is AdpcmMs || codec is Other,
{
}

/// A message ends with what the cause says, and shows which cause it was: no two
/// of them begin alike.
pub proof fn law_messages_tell_the_cause(e: OpenError, f: OpenError, why: String)
    requires
        e == OpenError::File(why) || e == OpenError::Stream(why) || e == OpenError::Format(why)
            || e == OpenError::NoDecoder(why) || e == OpenError::NoResampler(why),
        f == OpenError::File(why) || f == OpenError::Stream(why) || f == OpenError::Format(why)
            || f == OpenError::NoDecoder(why) || f == OpenError::NoResampler(why),
    ensures
        e.text().len() > why@.len(),
        e.text().skip(e.text().len() - why@.len()) == why@,
        e.text().take(13) == f.text().take(13) ==> e == f,
{
    reveal_strlit("cannot open file: ");
    reveal_strlit("cannot open stream: ");
    reveal_strlit("unsupported or corrupt audio: ");
    reveal_strlit("no decoder for this format: ");
    reveal_strlit("cannot build resampler: ");
    assert(e.text().skip(e.text().len() - why@.len()) =~= why@);
    let a = e.text().take(13);
    let b = f.text().take(13);
    assert(a[0] == e.text()[0] && b[0] == f.text()[0]);
    assert(a[7] == e.text()[7] && b[7] == f.text()[7]);
    assert(a[12] == e.text()[12] && b[12] == f.text()[12]);
}

/// How a round of decoding ends when the resampler fails with `e`.
pub open spec fn is_resample_failure(e: Seq<char>, step: DecodeStep) -> bool {
    step matches DecodeStep::Failed(m) && m@ == "resample error: "@ + e
}

/// A failing resampler ends the round, and its message ends with what it said.
pub proof fn law_resampler_failures_end_the_round(e: Seq<char>, step: DecodeStep)
    requires
        is_resample_failure(e, step),
    ensures
        step matches DecodeStep::Failed(m) && m@.len() > e.len() && m@.skip(m@.len() - e.len())
            == e,
{
    reveal_strlit("resample error: ");
    if let DecodeStep::Failed(m) = step {
        assert(m@.skip(m@.len() - e.len()) =~= e);
    }
}

} // verus!
