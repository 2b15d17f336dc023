//! The output callback: what reaches the device, and the position it reports.

use horriplayer::mixer::{usable_samples, Filled, Mixer};
use horriplayer::rings::TrackMarker;
use horriplayer::shared::Shared;
use rtrb::{Consumer, Producer, RingBuffer};

fn bits(v: f32) -> u32 {
    v.to_bits()
}

fn values(out: &[u32]) -> Vec<f32> {
    out.iter().map(|b| f32::from_bits(*b)).collect()
}

/// A mixer wired to rings the test controls, with no audio device involved.
fn test_mixer(channels: usize) -> (Mixer, Producer<u32>, Producer<TrackMarker>, Consumer<u32>, Shared) {
    let (audio_tx, audio_rx) = RingBuffer::<u32>::new(4096);
    let (marker_tx, marker_rx) = RingBuffer::<TrackMarker>::new(16);
    let (fft_tx, fft_rx) = RingBuffer::<u32>::new(4096);
    let mixer = Mixer::new(audio_rx, marker_rx, fft_tx, channels);
    (mixer, audio_tx, marker_tx, fft_rx, Shared::new())
}

fn push(tx: &mut Producer<u32>, data: &[f32]) {
    for v in data {
        tx.push(bits(*v)).expect("ring has room");
    }
}

#[test]
fn silence_is_output_when_paused() {
    let (mut mixer, mut tx, _mk, _fft, mut shared) = test_mixer(2);
    push(&mut tx, &[0.5; 64]);
    shared.playing = false;
    let mut out = [bits(1.0); 64];
    mixer.fill(&mut shared, &mut out);
    assert!(values(&out).iter().all(|v| *v == 0.0), "paused output must be silent");
    assert_eq!(shared.played_frames, 0, "paused playback must not advance position");
}

#[test]
fn underrun_fills_the_rest_with_silence_instead_of_repeating() {
    let (mut mixer, mut tx, _mk, _fft, mut shared) = test_mixer(2);
    shared.playing = true;
    push(&mut tx, &[0.25; 8]); // only 4 frames for a 16-frame buffer
    let mut out = [bits(9.0); 32];
    mixer.fill(&mut shared, &mut out);
    let out = values(&out);
    assert!(out[..8].iter().all(|v| (*v - 0.25).abs() < 1e-6));
    assert!(
        out[8..].iter().all(|v| *v == 0.0),
        "missing audio must become silence, not stale samples"
    );
}

#[test]
fn position_follows_playback_and_track_markers() {
    let (mut mixer, mut tx, mut mk, _fft, mut shared) = test_mixer(2);
    shared.playing = true;

    // First track starts at global frame 0.
    mk.push(TrackMarker {
        at_global_frame: 0,
        track_id: 7,
        track_start_frame: 0,
    })
    .unwrap();
    push(&mut tx, &[0.1; 64]); // 32 frames
    let mut out = [bits(0.0); 64];
    mixer.fill(&mut shared, &mut out);
    assert_eq!(shared.pos_frames, 32);
    assert_eq!(shared.current_track, 7);

    // Gapless hand-off: next track begins at global frame 32.
    mk.push(TrackMarker {
        at_global_frame: 32,
        track_id: 8,
        track_start_frame: 0,
    })
    .unwrap();
    push(&mut tx, &[0.1; 64]);
    mixer.fill(&mut shared, &mut out);
    assert_eq!(shared.current_track, 8);
    assert_eq!(
        shared.pos_frames, 32,
        "position must restart within the new track, not keep counting"
    );
}

#[test]
fn seek_marker_reports_position_inside_the_track() {
    let (mut mixer, mut tx, mut mk, _fft, mut shared) = test_mixer(2);
    shared.playing = true;
    // Seeked to frame 1000; playback resumes at global frame 0.
    mk.push(TrackMarker {
        at_global_frame: 0,
        track_id: 3,
        track_start_frame: 1000,
    })
    .unwrap();
    push(&mut tx, &[0.2; 40]); // 20 frames
    let mut out = [bits(0.0); 40];
    mixer.fill(&mut shared, &mut out);
    assert_eq!(shared.pos_frames, 1020);
}

#[test]
fn flush_discards_queued_audio() {
    let (mut mixer, mut tx, _mk, _fft, mut shared) = test_mixer(2);
    shared.playing = true;
    push(&mut tx, &[0.75; 64]);
    // A seek happened before this buffer was ever played.
    shared.flush_version += 1;
    let mut out = [bits(0.0); 64];
    let filled = mixer.fill(&mut shared, &mut out);
    assert!(
        values(&out).iter().all(|v| *v == 0.0),
        "audio queued before a seek must never reach the device"
    );
    assert!(filled.flushed);
    assert_eq!(mixer.flush_seen, 1);
}

#[test]
fn partial_frames_are_never_split_across_buffers() {
    // 3 samples with 2 channels is one whole frame plus a stray sample; the
    // stray must stay in the ring so channels don't swap places.
    let (mut mixer, mut tx, _mk, _fft, mut shared) = test_mixer(2);
    shared.playing = true;
    push(&mut tx, &[1.0, -1.0, 1.0]);
    let mut out = [bits(0.0); 8];
    mixer.fill(&mut shared, &mut out);
    assert_eq!(shared.played_frames, 1);
    assert_eq!(&values(&out)[..2], &[1.0, -1.0]);
}

#[test]
fn a_stray_sample_is_heard_with_the_rest_of_its_frame() {
    let (mut mixer, mut tx, _mk, _fft, mut shared) = test_mixer(2);
    shared.playing = true;
    push(&mut tx, &[1.0, -1.0, 0.5]);
    let mut out = [bits(0.0); 4];
    assert_eq!(mixer.fill(&mut shared, &mut out).samples, 2);
    push(&mut tx, &[-0.5]);
    assert_eq!(mixer.fill(&mut shared, &mut out).samples, 2);
    assert_eq!(values(&out), vec![0.5, -0.5, 0.0, 0.0]);
}

#[test]
fn audio_queued_after_a_flush_is_heard() {
    let (mut mixer, mut tx, _mk, _fft, mut shared) = test_mixer(1);
    shared.playing = true;
    push(&mut tx, &[0.75; 4]);
    shared.flush_version += 1;
    let mut out = [bits(0.0); 2];
    assert_eq!(mixer.fill(&mut shared, &mut out).samples, 0);
    push(&mut tx, &[0.5, 0.25]);
    let filled = mixer.fill(&mut shared, &mut out);
    assert_eq!(filled, Filled { samples: 2, retune: false, flushed: false, crossed: false });
    assert_eq!(values(&out), vec![0.5, 0.25]);
}

#[test]
fn the_first_fill_asks_for_the_equalizer_settings_and_later_ones_only_on_change() {
    let (mut mixer, _tx, _mk, _fft, mut shared) = test_mixer(2);
    let mut out = [bits(0.0); 4];
    assert!(mixer.fill(&mut shared, &mut out).retune);
    assert!(!mixer.fill(&mut shared, &mut out).retune);
    shared.eq_version += 1;
    assert!(mixer.fill(&mut shared, &mut out).retune);
}

#[test]
fn several_boundaries_can_be_crossed_in_one_buffer() {
    let (mut mixer, mut tx, mut mk, _fft, mut shared) = test_mixer(1);
    shared.playing = true;
    for (at, id) in [(0u64, 1u64), (3, 2), (5, 3), (40, 4)] {
        mk.push(TrackMarker {
            at_global_frame: at,
            track_id: id,
            track_start_frame: 100,
        })
        .unwrap();
    }
    push(&mut tx, &[0.1; 10]);
    let mut out = [bits(0.0); 10];
    mixer.fill(&mut shared, &mut out);
    assert_eq!(shared.current_track, 3);
    assert_eq!(shared.pos_frames, 105);
    let ahead: Vec<u64> = mixer.pending.iter().map(|m| m.track_id).collect();
    assert_eq!(ahead, vec![4]);
}

#[test]
fn position_never_wraps_around() {
    let (mut mixer, _tx, _mk, _fft, _shared) = test_mixer(1);
    mixer.origin_global = 10;
    mixer.origin_pos = u64::MAX - 1;
    assert_eq!(mixer.position(9), u64::MAX - 1);
    assert_eq!(mixer.position(10), u64::MAX - 1);
    assert_eq!(mixer.position(11), u64::MAX);
    assert_eq!(mixer.position(12), u64::MAX);
}

#[test]
fn usable_samples_come_in_whole_frames() {
    assert_eq!(usable_samples(8, 3, 2), 2);
    assert_eq!(usable_samples(8, 1, 2), 0);
    assert_eq!(usable_samples(7, 100, 2), 6);
    assert_eq!(usable_samples(8, 100, 6), 6);
    assert_eq!(usable_samples(0, 100, 6), 0);
}

#[test]
fn the_analyser_gets_the_mono_mix_until_its_ring_is_full() {
    let (_audio_tx, audio_rx) = RingBuffer::<u32>::new(4);
    let (_marker_tx, marker_rx) = RingBuffer::<TrackMarker>::new(4);
    let (fft_tx, mut fft_rx) = RingBuffer::<u32>::new(3);
    let mut mixer = Mixer::new(audio_rx, marker_rx, fft_tx, 2);
    mixer.offer(&[11, 12, 13, 14]);
    let mut got = Vec::new();
    while let Ok(v) = fft_rx.pop() {
        got.push(v);
    }
    assert_eq!(got, vec![11, 12, 13]);
    mixer.offer(&[15]);
    assert_eq!(fft_rx.pop(), Ok(15));
}

fn mark(mk: &mut Producer<TrackMarker>, at_global_frame: u64, track_id: u64, track_start_frame: u64) {
    mk.push(TrackMarker { at_global_frame, track_id, track_start_frame }).unwrap();
}

#[test]
fn a_seek_counts_though_the_next_track_was_marked_before_it() {
    let (mut mixer, mut tx, mut mk, _fft, mut shared) = test_mixer(2);
    shared.playing = true;
    mark(&mut mk, 0, 7, 0);
    mark(&mut mk, 1000, 8, 0);
    push(&mut tx, &[0.1; 64]);
    let mut out = [bits(0.0); 64];
    assert!(mixer.fill(&mut shared, &mut out).crossed);
    assert_eq!((shared.current_track, shared.pos_frames), (7, 32));

    shared.flush_version += 1;
    mark(&mut mk, 32, 7, 500);
    assert_eq!(mixer.fill(&mut shared, &mut out).samples, 0);
    push(&mut tx, &[0.1; 40]);
    assert!(mixer.fill(&mut shared, &mut out[..40]).crossed);
    assert_eq!((shared.current_track, shared.pos_frames), (7, 520));
    assert!(mixer.pending.is_empty(), "the boundary at 1000 went with its audio");
}

#[test]
fn the_last_marker_reached_counts_in_whatever_order_they_come() {
    let (mut mixer, mut tx, mut mk, _fft, mut shared) = test_mixer(1);
    shared.playing = true;
    for (at, id) in [(90, 1), (2, 2), (50, 3), (4, 4), (60, 5), (70, 6)] {
        mark(&mut mk, at, id, 0);
    }
    push(&mut tx, &[0.1; 10]);
    let mut out = [bits(0.0); 10];
    mixer.fill(&mut shared, &mut out);
    assert_eq!((shared.current_track, shared.pos_frames), (4, 6));
    let ahead: Vec<u64> = mixer.pending.iter().map(|m| m.track_id).collect();
    assert_eq!(ahead, vec![5, 6]);

    push(&mut tx, &[0.1; 10]);
    assert!(!mixer.fill(&mut shared, &mut out).crossed);
    assert_eq!((shared.current_track, shared.pos_frames), (4, 16));
}

#[test]
fn boundaries_that_are_held_are_crossed_when_they_are_reached() {
    let (mut mixer, mut tx, mut mk, _fft, mut shared) = test_mixer(1);
    shared.playing = true;
    for (at, id) in [(0, 1), (15, 2), (18, 3), (25, 4)] {
        mark(&mut mk, at, id, 0);
    }
    let mut out = [bits(0.0); 10];
    let mut seen = Vec::new();
    for _ in 0..3 {
        push(&mut tx, &[0.1; 10]);
        mixer.fill(&mut shared, &mut out);
        seen.push((shared.current_track, shared.pos_frames));
    }
    assert_eq!(seen, vec![(1, 10), (3, 2), (4, 5)]);
}

#[test]
fn filling_in_pieces_comes_to_the_same_as_filling_at_once() {
    for queued in [0usize, 1, 5, 7, 8, 12, 31, 64] {
        for k in (0..=24).step_by(2) {
            let run = |cuts: &[usize]| {
                let (mut mixer, mut tx, mut mk, _fft, mut shared) = test_mixer(2);
                shared.playing = true;
                for (at, id) in [(0, 1), (900, 2), (3, 3), (6, 4), (40, 5)] {
                    mark(&mut mk, at, id, 10 * id);
                }
                for i in 0..queued {
                    tx.push(i as u32 + 1).unwrap();
                }
                let mut out = [99u32; 24];
                for cut in cuts.windows(2) {
                    mixer.fill(&mut shared, &mut out[cut[0]..cut[1]]);
                }
                let ahead: Vec<u64> = mixer.pending.iter().map(|m| m.track_id).collect();
                let left = mixer.audio_rx.slots();
                (out, left, shared.played_frames, shared.pos_frames, shared.current_track, ahead)
            };
            let (one, two) = (run(&[0, 24]), run(&[0, k, 24]));
            assert_eq!(one.0, two.0, "queued {queued}, cut at {k}");
            assert_eq!((one.1, one.2, one.3, one.4), (two.1, two.2, two.3, two.4));
            if one.2 > 0 {
                assert_eq!(one.5, two.5);
            }
        }
    }
}

#[test]
fn a_long_run_delivers_what_was_pushed_and_nothing_else() {
    let (mut mixer, mut tx, _mk, _fft, mut shared) = test_mixer(2);
    shared.playing = true;
    let mut sent: u32 = 0;
    let mut heard = Vec::new();
    for round in 0..200usize {
        for _ in 0..(round * 7) % 23 {
            sent += 1;
            tx.push(sent).unwrap();
        }
        let mut out = vec![0; 2 * (round % 9)];
        let n = mixer.fill(&mut shared, &mut out).samples;
        heard.extend_from_slice(&out[..n]);
    }
    assert_eq!(heard, (1..=heard.len() as u32).collect::<Vec<u32>>());
    assert_eq!(shared.played_frames, heard.len() as u64 / 2);
}
