//! Frames on their way to the ring.

use horriplayer::frames::{
    frame_count, interleave, map_frames, next_write, push_some, ring_room, write_frame, FeedStep,
    PacketFeed, Room, Stage, RESAMPLE_CHUNK,
};
use rtrb::RingBuffer;

fn bits(v: &[f32]) -> Vec<u32> {
    v.iter().map(|s| s.to_bits()).collect()
}

#[test]
fn mono_frames_expand_to_every_output_channel() {
    let mut out = Vec::new();
    write_frame(&mut out, &bits(&[0.5]), 2);
    assert_eq!(out, bits(&[0.5, 0.5]));
}

#[test]
fn stereo_frames_pass_through_unchanged() {
    let mut out = Vec::new();
    write_frame(&mut out, &bits(&[0.25, -0.25]), 2);
    assert_eq!(out, bits(&[0.25, -0.25]));
}

#[test]
fn surround_sources_are_truncated_to_device_channels() {
    let mut out = Vec::new();
    write_frame(&mut out, &bits(&[1.0, 2.0, 3.0, 4.0, 5.0, 6.0]), 2);
    assert_eq!(out, bits(&[1.0, 2.0]));
}

#[test]
fn missing_channels_repeat_the_last_one_and_empty_frames_are_silent() {
    let mut out = bits(&[9.0]);
    write_frame(&mut out, &bits(&[1.0, 2.0]), 4);
    write_frame(&mut out, &[], 2);
    write_frame(&mut out, &bits(&[3.0]), 0);
    assert_eq!(out, bits(&[9.0, 1.0, 2.0, 2.0, 2.0, 0.0, 0.0]));
}

#[test]
fn packets_are_mapped_frame_by_frame() {
    assert_eq!(map_frames(&[1, 2, 3, 4, 5, 6], 2, 3, 2), vec![1, 2, 4, 5]);
    assert_eq!(map_frames(&[1, 2], 2, 1, 2), vec![1, 1, 2, 2]);
    assert_eq!(map_frames(&[], 0, 2, 2), Vec::<u32>::new());
}

#[test]
fn packets_in_the_device_layout_are_kept_bit_for_bit() {
    let samples: Vec<u32> = (0..12).map(|i| 0x7fc0_0000 + i).collect();
    assert_eq!(map_frames(&samples, 6, 2, 2), samples);
    assert_eq!(map_frames(&samples, 3, 2, 2), samples[..6]);
}

#[test]
fn a_straight_feed_pushes_the_packet_once() {
    let mut feed = PacketFeed::new(vec![1, 2, 3, 4], 2, 2);
    match feed.feed_straight(1) {
        FeedStep::Push(out) => assert_eq!(out, vec![1, 3]),
        _ => panic!("expected audio"),
    }
    assert!(matches!(feed.feed_straight(1), FeedStep::Done));
}

#[test]
fn the_resampler_gets_full_chunks_across_packets() {
    let mut stage = Stage::new(3);
    let packet = |from: u32, n: u32| -> Vec<u32> {
        (from..from + n).flat_map(|f| [2 * f, 2 * f + 1]).collect()
    };
    // 1000 stereo frames do not fill a chunk.
    let mut feed = PacketFeed::new(packet(0, 1000), 1000, 2);
    assert!(matches!(feed.feed_staged(&mut stage), FeedStep::Done));
    assert_eq!(stage.chans[0].len(), 1000);

    // 1100 more fill two, and leave 52 frames staged.
    let mut feed = PacketFeed::new(packet(1000, 1100), 1100, 2);
    let mut chunks = Vec::new();
    loop {
        match feed.feed_staged(&mut stage) {
            FeedStep::Resample(chunk) => chunks.push(chunk),
            FeedStep::Push(_) => panic!("nothing is pushed unresampled"),
            FeedStep::Done => break,
        }
    }
    assert_eq!(chunks.len(), 2);
    assert_eq!(stage.chans[0].len(), 52);
    let mut left = Vec::new();
    let mut right = Vec::new();
    for chunk in &chunks {
        assert_eq!(chunk.len(), 3);
        assert!(chunk.iter().all(|c| c.len() == RESAMPLE_CHUNK));
        assert!(chunk[2].iter().all(|v| *v == 0), "a channel the packet lacks is silent");
        left.extend(chunk[0].iter().copied());
        right.extend(chunk[1].iter().copied());
    }
    left.extend(stage.chans[0].iter().copied());
    right.extend(stage.chans[1].iter().copied());
    assert_eq!(left, (0..2100).map(|f| 2 * f).collect::<Vec<u32>>());
    assert_eq!(right, (0..2100).map(|f| 2 * f + 1).collect::<Vec<u32>>());

    stage.clear();
    assert_eq!(stage.chans.len(), 3);
    assert!(stage.chans.iter().all(|c| c.is_empty()));
}

#[test]
fn a_packet_that_fills_a_chunk_exactly_leaves_nothing_staged() {
    let mut stage = Stage::new(1);
    let mut feed = PacketFeed::new(vec![5; RESAMPLE_CHUNK], RESAMPLE_CHUNK, 1);
    assert!(matches!(feed.feed_staged(&mut stage), FeedStep::Resample(_)));
    assert!(matches!(feed.feed_staged(&mut stage), FeedStep::Done));
    assert!(stage.chans[0].is_empty());
}

#[test]
fn resampled_channels_are_interleaved() {
    let chans = vec![vec![1, 2, 3], vec![4, 5, 6]];
    assert_eq!(interleave(&chans, 2), vec![1, 4, 2, 5, 3, 6]);
    assert_eq!(interleave(&chans, 1), vec![1, 2, 3]);
    assert_eq!(interleave(&vec![], 2), Vec::<u32>::new());
}

#[test]
fn pushing_goes_on_where_the_ring_was_full() {
    let (mut tx, mut rx) = RingBuffer::<u32>::new(4);
    let data: Vec<u32> = (1..=10).collect();
    let mut pushed = push_some(&mut tx, &data, 0);
    assert_eq!(pushed, 4);
    assert_eq!(push_some(&mut tx, &data, pushed), 4, "a full ring takes nothing");
    let mut got = Vec::new();
    while pushed < data.len() || rx.slots() > 0 {
        for _ in 0..3 {
            if let Ok(v) = rx.pop() {
                got.push(v);
            }
        }
        pushed = push_some(&mut tx, &data, pushed);
    }
    assert_eq!(got, data);
}

#[test]
fn the_ring_shows_its_room() {
    let (mut tx, mut rx) = RingBuffer::<u32>::new(4);
    assert_eq!(ring_room(&mut tx), Room { free: 4, slots: 4 });
    tx.push(1).unwrap();
    tx.push(2).unwrap();
    assert_eq!(ring_room(&mut tx), Room { free: 2, slots: 4 });
    rx.pop().unwrap();
    assert_eq!(ring_room(&mut tx), Room { free: 3, slots: 4 });
}

#[test]
fn frames_are_counted_by_channels() {
    assert_eq!(frame_count(12, 2), 6);
    assert_eq!(frame_count(13, 2), 6);
    assert_eq!(frame_count(12, 0), 12);
    assert_eq!(next_write(3, 2, 10), 3);
    assert_eq!(next_write(30, 2, 10), 8);
}
