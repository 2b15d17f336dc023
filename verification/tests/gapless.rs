//! Decoder and callback together, over the engine's own rings.

use horriplayer::deck::{Action, Cmd, DecodeStep, Deck, Event, Playing};
use horriplayer::engine::{AudioEngine, Rings};
use horriplayer::frames::{frame_count, push_some, ring_room};
use horriplayer::mixer::Mixer;
use horriplayer::rings::TrackMarker;
use horriplayer::shared::Shared;
use horriplayer::stream::StreamPlan;
use rtrb::Producer;

struct Player {
    engine: AudioEngine,
    sh: Shared,
    deck: Deck,
    audio_tx: Producer<u32>,
    marker_tx: Producer<TrackMarker>,
    mixer: Mixer,
}

impl Player {
    fn new() -> Player {
        let rings = Rings::new(2);
        Player {
            engine: AudioEngine::new(),
            sh: Shared::new(),
            deck: Deck::new(2),
            audio_tx: rings.audio_tx,
            marker_tx: rings.marker_tx,
            mixer: Mixer::new(rings.audio_rx, rings.marker_rx, rings.fft_tx, 2),
        }
    }

    fn step(&mut self, event: Event) -> Action {
        assert!(self.deck.accepts(&event));
        let room = ring_room(&mut self.audio_tx);
        self.deck.step(&mut self.sh, &mut self.marker_tx, event, room)
    }

    /// Lets the callback run once, and waits out a drain.
    fn drain(&mut self) -> Action {
        self.play(4);
        loop {
            match self.step(Event::Resumed) {
                Action::Wait(_) => {}
                action => return action,
            }
        }
    }

    fn opened(&mut self) {
        let plan = StreamPlan { src_rate: 48_000, src_channels: 2, resample: false };
        self.step(Event::Opened(Ok(Playing::new(0, &plan))));
    }

    fn push(&mut self, data: &[u32]) {
        assert_eq!(push_some(&mut self.audio_tx, data, 0), data.len());
        self.deck.count_written(frame_count(data.len(), 2));
    }

    fn play(&mut self, samples: usize) -> Vec<u32> {
        let mut out = vec![99; samples];
        self.mixer.fill(&mut self.sh, &mut out);
        out
    }
}

#[test]
fn the_device_hears_what_was_pushed_across_tracks() {
    let mut p = Player::new();
    let (first, cmd) = p.engine.load(&mut p.sh, "/a.flac", true);
    p.step(Event::Command(cmd));
    assert!(matches!(p.drain(), Action::Open(_)));
    p.opened();
    let (second, cmd) = p.engine.set_next(Some("/b.flac"));
    p.step(Event::Command(cmd));

    p.push(&[1, 2, 3, 4, 5, 6]);
    assert!(matches!(p.step(Event::NoCommand), Action::Decode));
    assert!(matches!(p.step(Event::Decoded(DecodeStep::Finished)), Action::Open(_)));
    p.opened();
    p.push(&[7, 8, 9, 10]);

    assert_eq!(p.play(4), vec![1, 2, 3, 4]);
    assert_eq!((p.sh.current_track, p.sh.pos_frames), (first, 2));
    assert_eq!(p.play(4), vec![5, 6, 7, 8]);
    assert_eq!((p.sh.current_track, p.sh.pos_frames), (second, 1));
    assert_eq!(p.play(4), vec![9, 10, 0, 0]);
    assert_eq!((p.sh.current_track, p.sh.pos_frames), (second, 2));
}

#[test]
fn nothing_queued_before_a_seek_is_heard() {
    let mut p = Player::new();
    let (id, cmd) = p.engine.load(&mut p.sh, "/a.flac", true);
    p.step(Event::Command(cmd));
    p.drain();
    p.opened();
    p.push(&[1, 2, 3, 4, 5, 6]);
    assert_eq!(p.play(2), vec![1, 2]);

    let seek = p.engine.seek(2.0f64.to_bits());
    assert!(matches!(p.step(Event::Command(seek)), Action::Seek { .. }));
    p.step(Event::Sought { target: 96_000 });
    p.drain();
    p.push(&[7, 8, 9, 10]);
    assert_eq!(p.play(4), vec![7, 8, 9, 10]);
    assert_eq!((p.sh.current_track, p.sh.pos_frames), (id, 96_002));
}

#[test]
fn a_load_replaces_what_was_playing() {
    let mut p = Player::new();
    let (_, cmd) = p.engine.load(&mut p.sh, "/a.flac", true);
    p.step(Event::Command(cmd));
    p.drain();
    p.opened();
    p.push(&[1, 2, 3, 4]);
    assert_eq!(p.play(2), vec![1, 2]);
    let (id, cmd) = p.engine.load(&mut p.sh, "/b.flac", false);
    p.step(Event::Command(cmd));
    assert!(!p.sh.playing);
    p.drain();
    p.opened();
    p.push(&[5, 6]);
    assert_eq!(p.play(4), vec![0, 0, 0, 0], "not before it is told to play");
    p.step(Event::Command(Cmd::Play));
    assert_eq!(p.play(4), vec![5, 6, 0, 0]);
    assert_eq!((p.sh.current_track, p.sh.pos_frames), (id, 1));
}

#[test]
fn a_seek_while_the_next_track_is_already_queued_reports_its_own_position() {
    let mut p = Player::new();
    let (_, cmd) = p.engine.load(&mut p.sh, "/a.flac", true);
    p.step(Event::Command(cmd));
    p.drain();
    p.opened();
    let (second, cmd) = p.engine.set_next(Some("/b.flac"));
    p.step(Event::Command(cmd));
    p.push(&[1; 600]);
    p.step(Event::NoCommand);
    p.step(Event::Decoded(DecodeStep::Finished));
    p.opened();
    p.push(&[2; 600]);
    p.play(20);

    // The decoder is in the second track already, so that is what is sought in.
    let seek = p.engine.seek(2.0f64.to_bits());
    p.step(Event::Command(seek));
    p.step(Event::Sought { target: 5000 });
    p.drain();
    p.push(&[3; 40]);
    assert_eq!(p.play(40), vec![3; 40]);
    assert_eq!((p.sh.current_track, p.sh.pos_frames), (second, 5020));
}
