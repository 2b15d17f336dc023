//! The engine's controls, the equalizer's bands and the analyser's window.

use horriplayer::deck::{Cmd, DecodeStep};
use horriplayer::engine::{delivered, AudioEngine, DeviceError, Rings, RING_FRAMES};
use horriplayer::eq::{
    band_acts, band_hz, band_kind, bypass, chain_count, chain_for, flat, Kind, BANDS,
};
use horriplayer::level::{at_least_zero, clamp, volume_acts};
use horriplayer::monitor::{bar_bins, take_all, Monitor, Report, FFT_SIZE, IDLE_REPORT};
use horriplayer::shared::{Shared, FULL_VOLUME};
use horriplayer::source::Source;
use horriplayer::stream::{
    after_decoding, after_read, resampling_failed, Codec, PacketDecode, PacketRead, StreamParams,
    StreamPlan,
};
use rtrb::RingBuffer;

fn params() -> StreamParams {
    StreamParams {
        codec: Codec::Flac,
        sample_rate: Some(44_100),
        channels: Some(2),
        n_frames: Some(88_200),
        bits_per_sample: None,
        bits_per_coded_sample: Some(24),
    }
}

#[test]
fn ids_rise_with_every_track() {
    let mut engine = AudioEngine::new();
    let mut sh = Shared::new();
    sh.ended = true;
    let (id, cmd) = engine.load(&mut sh, "/a.mp3", true);
    assert_eq!(id, 1);
    assert!(!sh.ended);
    assert!(matches!(
        cmd,
        Cmd::Load { source: Source::File(p), track_id: 1, autoplay: true } if p == "/a.mp3"
    ));
    let (id, cmd) = engine.set_next(Some("http://h/b"));
    assert_eq!(id, 2);
    assert!(matches!(cmd, Cmd::SetNext(Some((Source::Url(u), 2))) if u == "http://h/b"));
    let (id, cmd) = engine.set_next(None);
    assert_eq!(id, 0);
    assert!(matches!(cmd, Cmd::SetNext(None)));
    assert_eq!(engine.load(&mut sh, "/c", false).0, 3);
}

#[test]
fn transport_commands_are_what_they_say() {
    let engine = AudioEngine::new();
    assert!(matches!(engine.play(), Cmd::Play));
    assert!(matches!(engine.pause(), Cmd::Pause));
    assert!(matches!(engine.stop(), Cmd::Stop));
    let seek = |secs: f64| match engine.seek(secs.to_bits()) {
        Cmd::Seek(bits) => f64::from_bits(bits),
        _ => panic!("expected a seek"),
    };
    assert_eq!(seek(2.5), 2.5);
    assert_eq!(seek(-2.5), 0.0);
    assert_eq!(seek(f64::NAN), 0.0);
    assert_eq!(seek(f64::INFINITY), f64::INFINITY);
    assert_eq!(seek(f64::NEG_INFINITY), 0.0);
}

#[test]
fn commands_that_cannot_be_delivered_are_errors() {
    assert_eq!(delivered(true, 7), Ok(7));
    assert_eq!(delivered(false, 7), Err("audio engine is not running".to_string()));
}

#[test]
fn every_device_error_has_its_message() {
    let e = || "e".to_string();
    let cases = [
        (DeviceError::NoDevice, "no audio output device found"),
        (DeviceError::NoConfig(e()), "output config unavailable: e"),
        (DeviceError::SampleFormat(e()), "unsupported audio sample format: e"),
        (DeviceError::NoStream(e()), "cannot open audio device: e"),
        (DeviceError::NotStarted(e()), "cannot start audio stream: e"),
        (DeviceError::Output(e()), "audio output error: e"),
    ];
    for (error, message) in cases {
        assert_eq!(error.message(), message);
    }
}

#[test]
fn levels_are_clamped_as_floats_are() {
    let values = [
        0.0f32,
        -0.0,
        0.5,
        1.0,
        1.0000001,
        -1.0,
        -24.0,
        -24.1,
        24.0,
        1e30,
        -1e30,
        f32::MIN_POSITIVE,
        f32::INFINITY,
        f32::NEG_INFINITY,
    ];
    for (lo, hi) in [(0.0f32, 1.0f32), (-24.0, 24.0)] {
        for v in values {
            let c = f32::from_bits(clamp(v.to_bits(), lo.to_bits(), hi.to_bits()));
            assert_eq!(c, v.clamp(lo, hi), "{v} in {lo}..{hi}");
        }
        let c = clamp(f32::NAN.to_bits(), lo.to_bits(), hi.to_bits());
        assert!(f32::from_bits(c).is_nan());
    }
    assert_eq!(at_least_zero(f64::MIN_POSITIVE.to_bits()), f64::MIN_POSITIVE.to_bits());
}

#[test]
fn the_volume_stays_between_silence_and_full() {
    let engine = AudioEngine::new();
    let mut sh = Shared::new();
    assert_eq!(f32::from_bits(sh.volume_bits), 1.0);
    assert_eq!(FULL_VOLUME, 1.0f32.to_bits());
    engine.set_volume(&mut sh, 0.25f32.to_bits());
    assert_eq!(f32::from_bits(sh.volume_bits), 0.25);
    engine.set_volume(&mut sh, (-3.0f32).to_bits());
    assert_eq!(f32::from_bits(sh.volume_bits), 0.0);
    engine.set_volume(&mut sh, 3.0f32.to_bits());
    assert_eq!(f32::from_bits(sh.volume_bits), 1.0);
}

#[test]
fn full_volume_leaves_samples_as_they_are() {
    let engine = AudioEngine::new();
    let mut sh = Shared::new();
    assert!(!volume_acts(sh.volume_bits));
    engine.set_volume(&mut sh, 7.5f32.to_bits());
    assert!(!volume_acts(sh.volume_bits));
    engine.set_volume(&mut sh, 0.99f32.to_bits());
    assert!(volume_acts(sh.volume_bits));
    let near = |offset: i32| f32::from_bits((1.0f32.to_bits() as i32 + offset) as u32);
    for v in (-5..5).map(near).chain([0.0, -0.0, -1.0, f32::INFINITY, f32::NAN, 0.5]) {
        assert_eq!(volume_acts(v.to_bits()), (v - 1.0).abs() > f32::EPSILON, "{v}");
    }
}

#[test]
fn gains_stay_within_the_sliders_and_missing_ones_are_flat() {
    let engine = AudioEngine::new();
    let mut sh = Shared::new();
    sh.eq_gain_bits[9] = 3.0f32.to_bits();
    let gains = [6.0f32.to_bits(), 100.0f32.to_bits(), (-100.0f32).to_bits()];
    engine.set_eq(&mut sh, &gains, 30.0f32.to_bits(), false);
    let got: Vec<f32> = sh.eq_gain_bits.iter().map(|b| f32::from_bits(*b)).collect();
    assert_eq!(got, vec![6.0, 24.0, -24.0, 0.0, 0.0, 0.0, 0.0, 0.0, 0.0, 0.0]);
    assert_eq!(f32::from_bits(sh.preamp_bits), 24.0);
    assert!(!sh.eq_enabled);
    assert_eq!(sh.eq_version, 1);
    engine.set_eq(&mut sh, &[0; 20], 0, true);
    assert_eq!(sh.eq_gain_bits, [0; BANDS]);
    assert_eq!(sh.eq_version, 2);
}

#[test]
fn the_state_is_that_of_the_moment() {
    let engine = AudioEngine::new();
    let mut sh = Shared::new();
    sh.playing = true;
    sh.pos_frames = 96_000;
    sh.out_rate = 0;
    sh.duration_ms = 1500;
    sh.current_track = 4;
    sh.src_rate = 44_100;
    sh.src_bits = 16;
    sh.codec = "FLAC".to_string();
    sh.last_error = Some("e".to_string());
    let s = engine.state(&sh);
    assert!(s.playing);
    assert!(!s.ended);
    assert_eq!((s.position, s.rate), (96_000, 1));
    assert_eq!(s.duration_ms, 1500);
    assert_eq!(s.track_id, 4);
    assert_eq!((s.sample_rate, s.bit_depth), (44_100, 16));
    assert_eq!(s.codec, "FLAC");
    assert_eq!(s.error.as_deref(), Some("e"));
    sh.out_rate = 48_000;
    assert_eq!(engine.state(&sh).rate, 48_000);
}

#[test]
fn rings_are_sized_for_the_device() {
    let mut rings = Rings::new(2);
    assert_eq!(rings.audio_tx.slots(), RING_FRAMES * 2);
    assert_eq!(rings.marker_tx.slots(), 64);
    assert_eq!(rings.fft_tx.slots(), FFT_SIZE * 8);
    rings.audio_tx.push(5).unwrap();
    assert_eq!(rings.audio_rx.pop(), Ok(5));
    rings.fft_tx.push(6).unwrap();
    assert_eq!(take_all(&mut rings.fft_rx), vec![6]);
    assert_eq!(take_all(&mut rings.fft_rx), Vec::<u32>::new());
}

#[test]
fn bands_have_shelves_at_both_ends() {
    assert_eq!(band_kind(0), Kind::LowShelf);
    for i in 1..BANDS - 1 {
        assert_eq!(band_kind(i), Kind::Peaking);
    }
    assert_eq!(band_kind(BANDS - 1), Kind::HighShelf);
    let hz: Vec<u32> = (0..BANDS).map(band_hz).collect();
    assert_eq!(hz, vec![31, 62, 125, 250, 500, 1000, 2000, 4000, 8000, 16000]);
}

#[test]
fn bands_above_nyquist_have_nothing_to_act_on() {
    assert!(!band_acts(22_050, BANDS - 1));
    assert!(band_acts(22_050, BANDS - 2));
    assert!(!band_acts(32_000, BANDS - 1));
    assert!(band_acts(32_001, BANDS - 1));
    assert!(!band_acts(0, 0));
}

#[test]
fn flat_or_disabled_settings_need_no_filters() {
    let mut gains = [0u32; BANDS];
    assert!(flat(&gains));
    assert!(bypass(true, &gains, true));
    assert!(!bypass(true, &gains, false), "the preamp still acts");
    gains[3] = (-0.04f32).to_bits();
    assert!(flat(&gains));
    gains[3] = 0.05f32.to_bits();
    assert!(!flat(&gains));
    gains[3] = f32::NAN.to_bits();
    assert!(!flat(&gains));
    assert!(!bypass(true, &gains, true));
    assert!(bypass(false, &gains, false));
}

#[test]
fn samples_go_to_the_chain_of_their_channel() {
    assert_eq!(chain_count(0), 1);
    assert_eq!(chain_count(6), 6);
    let chains: Vec<Option<usize>> = (0..6).map(|i| chain_for(i, 3, 2)).collect();
    assert_eq!(chains, vec![Some(0), Some(1), None, Some(0), Some(1), None]);
}

#[test]
fn the_window_keeps_the_newest_samples() {
    let mut once = Monitor::new();
    let mut twice = Monitor::new();
    assert_eq!(once.window, vec![0; FFT_SIZE]);
    let samples: Vec<u32> = (0..1500).collect();
    once.absorb(&samples);
    twice.absorb(&samples[..700]);
    assert_eq!(twice.window[FFT_SIZE - 700..], samples[..700]);
    assert_eq!(twice.window[..FFT_SIZE - 700], vec![0; FFT_SIZE - 700]);
    twice.absorb(&samples[700..]);
    assert_eq!(once.window, samples[1500 - FFT_SIZE..]);
    assert_eq!(once.window, twice.window);
    once.absorb(&[]);
    assert_eq!(once.window, twice.window);
}

#[test]
fn the_analyser_takes_all_that_is_queued_across_the_wrap() {
    let (mut tx, mut rx) = RingBuffer::<u32>::new(4);
    for round in 0..5u32 {
        for i in 0..3 {
            tx.push(10 * round + i).unwrap();
        }
        assert_eq!(take_all(&mut rx), vec![10 * round, 10 * round + 1, 10 * round + 2]);
    }
}

#[test]
fn reports_are_rare_while_idle() {
    let ms = |n: u64| n * 1_000_000;
    let mut m = Monitor::new();
    let mut sh = Shared::new();
    assert_eq!(IDLE_REPORT, ms(500));
    assert_eq!(m.report(&sh, 0), Report::Skip);
    assert_eq!(m.report(&sh, ms(500) - 1), Report::Skip);
    assert_eq!(m.report(&sh, ms(500)), Report::SendIdle);
    assert_eq!(m.report(&sh, ms(999)), Report::Skip);
    assert_eq!(m.report(&sh, 0), Report::Skip);
    sh.current_track = 3;
    assert_eq!(m.report(&sh, ms(999)), Report::Send);
    assert_eq!(m.report(&sh, ms(999)), Report::Skip, "the change is reported once");
    sh.ended = true;
    assert_eq!(m.report(&sh, ms(999)), Report::Send);
    sh.ended = false;
    sh.playing = true;
    assert_eq!(m.report(&sh, ms(5000)), Report::Send);
    sh.playing = false;
    assert_eq!(m.report(&sh, ms(5001)), Report::SendIdle);
    assert_eq!(m.last_idle, ms(5001));
}

#[test]
fn idle_reports_of_a_run_are_half_a_second_apart() {
    let mut m = Monitor::new();
    let mut sh = Shared::new();
    let mut last = None;
    for i in 0..2000u64 {
        sh.playing = i % 97 < 5;
        sh.ended = i % 301 == 0;
        sh.current_track = i / 400;
        m.absorb(&[i as u32]);
        let now = i * 33_000_000;
        if m.report(&sh, now) == Report::SendIdle {
            assert!(last.is_none_or(|t| now - t >= IDLE_REPORT));
            last = Some(now);
        }
    }
    assert!(last.is_some());
}

#[test]
fn bars_have_at_least_one_bin() {
    assert_eq!(bar_bins(0, 0, 513), (0, 1));
    assert_eq!(bar_bins(3, 9, 513), (3, 9));
    assert_eq!(bar_bins(600, 700, 513), (512, 513));
    assert_eq!(bar_bins(500, 700, 513), (500, 513));
    assert_eq!(bar_bins(0, 5, 0), (0, 0));
}

#[test]
fn a_resampler_engages_only_if_the_rates_differ() {
    assert_eq!(
        params().plan(48_000, 2),
        StreamPlan { src_rate: 44_100, src_channels: 2, resample: true }
    );
    assert!(!params().plan(44_100, 2).resample);
    let unknown = StreamParams { sample_rate: None, channels: None, ..params() };
    assert_eq!(
        unknown.plan(48_000, 6),
        StreamPlan { src_rate: 48_000, src_channels: 6, resample: false }
    );
    let none = StreamParams { channels: Some(0), ..params() };
    assert_eq!(none.plan(48_000, 2).src_channels, 1);
}

#[test]
fn an_opened_stream_is_published() {
    let p = params();
    let mut sh = Shared::new();
    sh.last_error = Some("old".to_string());
    p.publish(&mut sh, &p.plan(48_000, 2), 2000);
    assert_eq!(sh.duration_ms, 2000);
    assert_eq!(sh.src_rate, 44_100);
    assert_eq!(sh.src_bits, 24);
    assert_eq!(sh.codec, "FLAC");
    assert_eq!(sh.last_error, None);
    assert_eq!(p.duration(), Some((88_200, 44_100)));
    assert_eq!(StreamParams { n_frames: None, ..p }.duration(), None);
    assert_eq!(StreamParams { bits_per_sample: Some(16), ..p }.bit_depth(), 16);
    assert_eq!(StreamParams { bits_per_coded_sample: None, ..p }.bit_depth(), 0);
}

#[test]
fn packets_are_decoded_passed_over_or_end_the_track() {
    let e = || "e".to_string();
    assert!(after_read(PacketRead::Packet { track_id: 1 }, 1).is_none());
    let step = after_read(PacketRead::Packet { track_id: 2 }, 1);
    assert!(matches!(step, Some(DecodeStep::Continued)));
    let step = after_read(PacketRead::Io { at_end: true, message: e() }, 1);
    assert!(matches!(step, Some(DecodeStep::Finished)));
    let step = after_read(PacketRead::Io { at_end: false, message: e() }, 1);
    assert!(matches!(step, Some(DecodeStep::Failed(m)) if m == "read error: e"));
    let step = after_read(PacketRead::ResetRequired, 1);
    assert!(matches!(step, Some(DecodeStep::Finished)));
    let step = after_read(PacketRead::Error(e()), 1);
    assert!(matches!(step, Some(DecodeStep::Failed(m)) if m == "read error: e"));

    assert!(after_decoding(PacketDecode::Frames(1)).is_none());
    assert!(matches!(after_decoding(PacketDecode::Frames(0)), Some(DecodeStep::Continued)));
    assert!(matches!(after_decoding(PacketDecode::Glitch), Some(DecodeStep::Continued)));
    let step = after_decoding(PacketDecode::Error(e()));
    assert!(matches!(step, Some(DecodeStep::Failed(m)) if m == "decode error: e"));
    assert!(matches!(resampling_failed("e"), DecodeStep::Failed(m) if m == "resample error: e"));
}
