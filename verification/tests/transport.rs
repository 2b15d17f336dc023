//! The decoder's decisions, from command to action.

use horriplayer::deck::{
    Action, AfterDrain, Cmd, DecodeStep, Deck, Event, Landing, Phase, Playing, Writes,
};
use horriplayer::frames::{Room, RESAMPLE_CHUNK};
use horriplayer::rings::TrackMarker;
use horriplayer::shared::Shared;
use horriplayer::source::Source;
use horriplayer::stream::StreamPlan;
use rtrb::{Consumer, Producer, RingBuffer};

const EMPTY: Room = Room { free: 100_000, slots: 100_000 };
const BUSY: Room = Room { free: 99_999, slots: 100_000 };
const FULL: Room = Room { free: 10, slots: 100_000 };

struct Rig {
    deck: Deck,
    sh: Shared,
    tx: Producer<TrackMarker>,
    rx: Consumer<TrackMarker>,
}

impl Rig {
    fn new() -> Rig {
        let (tx, rx) = RingBuffer::<TrackMarker>::new(64);
        Rig { deck: Deck::new(2), sh: Shared::new(), tx, rx }
    }

    fn step(&mut self, event: Event, room: Room) -> Action {
        assert!(self.deck.accepts(&event));
        self.deck.step(&mut self.sh, &mut self.tx, event, room)
    }

    fn marker(&mut self) -> Option<(u64, u64, u64)> {
        self.rx.pop().ok().map(|m| (m.at_global_frame, m.track_id, m.track_start_frame))
    }

    /// Loads a track and lets it be opened.
    fn load(&mut self, id: u64, autoplay: bool) {
        let source = Source::parse("/a.flac");
        let a = self.step(Event::Command(Cmd::Load { source, track_id: id, autoplay }), EMPTY);
        assert!(matches!(a, Action::Check));
        let a = self.step(Event::Resumed, EMPTY);
        assert!(matches!(a, Action::Open(Source::File(p)) if p == "/a.flac"));
        self.step(Event::Opened(Ok(playing())), EMPTY);
    }
}

fn playing() -> Playing {
    Playing::new(3, &StreamPlan { src_rate: 44_100, src_channels: 2, resample: true })
}

#[test]
fn loading_stops_playback_drains_and_anchors_before_opening() {
    let mut rig = Rig::new();
    rig.sh.playing = true;
    rig.sh.played_frames = 500;
    rig.deck.written = 777;
    let source = Source::parse("http://h/a.mp3");
    rig.step(Event::Command(Cmd::Load { source, track_id: 9, autoplay: true }), BUSY);
    assert!(!rig.sh.playing);
    assert_eq!(rig.sh.flush_version, 1);
    assert_eq!(rig.deck.written, 777, "the timeline waits for the callback");

    assert!(matches!(rig.step(Event::Resumed, BUSY), Action::Wait(2)));
    rig.sh.played_frames = 512; // the callback was not done yet
    let a = rig.step(Event::Resumed, EMPTY);
    assert!(matches!(a, Action::Open(Source::Url(u)) if u == "http://h/a.mp3"));
    assert_eq!(rig.deck.written, 512);
    assert_eq!(rig.sh.pos_frames, 0);
    assert_eq!(rig.marker(), Some((512, 9, 0)));

    let a = rig.step(Event::Opened(Ok(playing())), EMPTY);
    assert!(matches!(a, Action::Receive { blocking: false }));
    assert!(rig.sh.playing);
    assert!(!rig.sh.ended);
    assert_eq!(rig.sh.current_track, 9);
    assert_eq!(rig.deck.current.as_ref().map(|p| p.id), Some(9));
}

#[test]
fn a_load_without_autoplay_stays_paused() {
    let mut rig = Rig::new();
    rig.load(4, false);
    assert!(!rig.sh.playing);
    assert!(matches!(rig.step(Event::NoCommand, EMPTY), Action::Receive { blocking: true }));
    rig.step(Event::Command(Cmd::Play), EMPTY);
    assert!(rig.sh.playing);
    rig.step(Event::Command(Cmd::Pause), EMPTY);
    assert!(!rig.sh.playing);
}

#[test]
fn a_source_that_cannot_be_opened_ends_with_its_error() {
    let mut rig = Rig::new();
    let source = Source::parse("/missing");
    rig.step(Event::Command(Cmd::Load { source, track_id: 1, autoplay: true }), EMPTY);
    rig.step(Event::Resumed, EMPTY);
    rig.step(Event::Opened(Err("cannot open file: gone".to_string())), EMPTY);
    assert!(rig.deck.current.is_none());
    assert!(rig.sh.ended);
    assert!(!rig.sh.playing);
    assert_eq!(rig.sh.last_error.as_deref(), Some("cannot open file: gone"));
}

#[test]
fn draining_lasts_until_the_callback_has_emptied_the_ring() {
    let mut rig = Rig::new();
    rig.deck.written = 777;
    rig.sh.played_frames = 5;
    rig.load(1, true);
    rig.marker();
    rig.deck.count_written(9);
    rig.step(Event::Command(Cmd::Seek(0)), BUSY);
    rig.step(Event::Sought { target: 30 }, BUSY);
    for _ in 0..1000 {
        assert!(matches!(rig.step(Event::Resumed, BUSY), Action::Wait(2)));
        assert!(matches!(
            rig.deck.phase,
            Phase::Draining { then: AfterDrain::Anchor { track_id: 1, start_frame: 30 } }
        ));
        assert_eq!(rig.deck.written, 14);
        assert_eq!(rig.marker(), None);
    }
    rig.sh.played_frames = 6;
    rig.step(Event::Resumed, EMPTY);
    assert!(matches!(rig.deck.phase, Phase::Ready));
    assert_eq!(rig.deck.written, 6);
    assert_eq!(rig.marker(), Some((6, 1, 30)));
    assert_eq!(rig.sh.flush_version, 2);
}

#[test]
fn play_does_nothing_without_a_track() {
    let mut rig = Rig::new();
    let a = rig.step(Event::Command(Cmd::Play), EMPTY);
    assert!(matches!(a, Action::Receive { blocking: true }));
    assert!(!rig.sh.playing);
}

#[test]
fn stop_forgets_the_track() {
    let mut rig = Rig::new();
    rig.load(1, true);
    rig.marker();
    assert!(matches!(rig.step(Event::Command(Cmd::Stop), EMPTY), Action::Check));
    assert!(rig.deck.current.is_none());
    assert!(!rig.sh.playing);
    let a = rig.step(Event::Resumed, EMPTY);
    assert!(matches!(a, Action::Receive { blocking: true }));
    assert_eq!(rig.marker(), None);
    assert!(!rig.sh.ended);
}

#[test]
fn a_seek_lands_where_the_demuxer_says() {
    let mut rig = Rig::new();
    rig.load(5, true);
    rig.marker();
    rig.sh.played_frames = 48_000;
    let secs = 2.5f64.to_bits();
    if let Some(p) = rig.deck.current.as_mut() {
        p.stage.chans[0].push(1);
        p.stage.chans[1].push(1);
    }
    let a = rig.step(Event::Command(Cmd::Seek(secs)), EMPTY);
    assert!(matches!(a, Action::Seek { secs: s, track_id: 3 } if s == secs));
    assert_eq!(
        rig.deck.landing(Some(88_200)),
        Landing::Ticks { ts: 88_200, per_second: 44_100 }
    );
    assert_eq!(rig.deck.landing(None), Landing::Seconds(secs));

    assert!(matches!(rig.step(Event::Sought { target: 96_000 }, BUSY), Action::Check));
    assert!(rig.deck.current.as_ref().unwrap().stage.chans[0].is_empty());
    assert_eq!(rig.sh.flush_version, 2);
    let a = rig.step(Event::Resumed, EMPTY);
    assert!(matches!(a, Action::Receive { blocking: false }));
    assert_eq!(rig.sh.pos_frames, 96_000);
    assert_eq!(rig.deck.written, 48_000);
    assert_eq!(rig.marker(), Some((48_000, 5, 96_000)));
    assert!(rig.sh.playing, "a seek does not stop playback");
}

#[test]
fn a_seek_without_a_track_is_ignored() {
    let mut rig = Rig::new();
    let a = rig.step(Event::Command(Cmd::Seek(0)), EMPTY);
    assert!(matches!(a, Action::Receive { blocking: true }));
    assert_eq!(rig.sh.flush_version, 0);
}

#[test]
fn decoding_waits_for_room_in_the_ring() {
    let mut rig = Rig::new();
    rig.load(1, true);
    assert!(matches!(rig.step(Event::NoCommand, FULL), Action::Wait(4)));
    let a = rig.step(Event::Resumed, FULL);
    assert!(matches!(a, Action::Receive { blocking: false }));
    let need = RESAMPLE_CHUNK * 2 * 2;
    let a = rig.step(Event::NoCommand, Room { free: need - 1, slots: 100_000 });
    assert!(matches!(a, Action::Wait(4)));
    let a = rig.step(Event::NoCommand, Room { free: need, slots: 100_000 });
    assert!(matches!(a, Action::Decode));
    let a = rig.step(Event::Decoded(DecodeStep::Continued), EMPTY);
    assert!(matches!(a, Action::Receive { blocking: false }));
}

#[test]
fn playing_without_a_track_only_waits() {
    let mut rig = Rig::new();
    rig.sh.playing = true;
    assert!(matches!(rig.step(Event::NoCommand, EMPTY), Action::Wait(20)));
}

#[test]
fn the_queued_track_follows_without_a_gap() {
    let mut rig = Rig::new();
    rig.load(1, true);
    rig.marker();
    let next = Some((Source::parse("/b.flac"), 2));
    rig.step(Event::Command(Cmd::SetNext(next)), EMPTY);
    rig.deck.count_written(4_000);
    rig.step(Event::NoCommand, EMPTY);
    let a = rig.step(Event::Decoded(DecodeStep::Finished), EMPTY);
    assert!(matches!(a, Action::Open(Source::File(p)) if p == "/b.flac"));
    let a = rig.step(Event::Opened(Ok(playing())), EMPTY);
    assert!(matches!(a, Action::Receive { blocking: false }));
    assert_eq!(rig.marker(), Some((4_000, 2, 0)));
    assert_eq!(rig.sh.flush_version, 1, "only the load drained the ring");
    assert!(rig.sh.playing);
    assert_eq!(rig.sh.current_track, 1, "the callback reports the change when it is heard");
    assert!(rig.deck.next_up.is_none());
}

#[test]
fn the_last_track_ends() {
    let mut rig = Rig::new();
    rig.load(1, true);
    rig.step(Event::NoCommand, EMPTY);
    rig.step(Event::Decoded(DecodeStep::Finished), EMPTY);
    assert!(rig.sh.ended);
    assert!(!rig.sh.playing);
    assert!(rig.deck.current.is_none());
    assert_eq!(rig.sh.last_error, None);
}

#[test]
fn a_decoder_that_fails_ends_the_track_with_its_error() {
    let mut rig = Rig::new();
    rig.load(1, true);
    rig.step(Event::NoCommand, EMPTY);
    rig.step(Event::Decoded(DecodeStep::Failed("read error: x".to_string())), EMPTY);
    assert!(rig.sh.ended);
    assert!(!rig.sh.playing);
    assert_eq!(rig.sh.last_error.as_deref(), Some("read error: x"));
}

#[test]
fn a_queued_track_that_cannot_be_opened_ends_playback() {
    let mut rig = Rig::new();
    rig.load(1, true);
    rig.step(Event::Command(Cmd::SetNext(Some((Source::parse("/b"), 2)))), EMPTY);
    rig.step(Event::NoCommand, EMPTY);
    rig.step(Event::Decoded(DecodeStep::Finished), EMPTY);
    rig.step(Event::Opened(Err("e".to_string())), EMPTY);
    assert!(rig.sh.ended);
    assert!(!rig.sh.playing);
    assert!(rig.deck.current.is_none());
    assert_eq!(rig.sh.last_error.as_deref(), Some("e"));
}

#[test]
fn events_out_of_turn_are_recognised() {
    let mut rig = Rig::new();
    assert!(rig.deck.accepts(&Event::NoCommand));
    assert!(!rig.deck.accepts(&Event::Sought { target: 0 }));
    assert!(!rig.deck.accepts(&Event::Decoded(DecodeStep::Continued)));
    assert!(!rig.deck.accepts(&Event::Opened(Err(String::new()))));
    rig.step(Event::Command(Cmd::Stop), EMPTY);
    assert!(!rig.deck.accepts(&Event::NoCommand));
    assert!(rig.deck.accepts(&Event::Resumed));
}

#[test]
fn the_decoder_leaves_what_is_not_its_own() {
    let mut rig = Rig::new();
    rig.sh.played_frames = 12;
    rig.sh.volume_bits = 34;
    rig.sh.eq_version = 56;
    rig.sh.eq_gain_bits[3] = 78;
    rig.sh.out_rate = 90;
    rig.load(1, true);
    rig.step(Event::Command(Cmd::SetNext(Some((Source::parse("/b"), 2)))), EMPTY);
    rig.step(Event::NoCommand, EMPTY);
    rig.step(Event::Decoded(DecodeStep::Finished), EMPTY);
    rig.step(Event::Opened(Ok(playing())), EMPTY);
    rig.step(Event::Command(Cmd::Stop), EMPTY);
    assert_eq!(rig.sh.played_frames, 12);
    assert_eq!(rig.sh.volume_bits, 34);
    assert_eq!(rig.sh.eq_version, 56);
    assert_eq!(rig.sh.eq_gain_bits[3], 78);
    assert_eq!(rig.sh.out_rate, 90);
    assert_eq!(rig.deck.out_channels, 2);
}

#[test]
fn turns_say_what_they_set() {
    let none = Writes {
        playing: false,
        pos_frames: false,
        current_track: false,
        ended: false,
        flush_version: false,
        last_error: false,
    };
    let mut rig = Rig::new();
    assert_eq!(rig.deck.writes(&Event::NoCommand, EMPTY), none);
    assert_eq!(rig.deck.writes(&Event::Command(Cmd::Play), EMPTY), none);
    assert_eq!(rig.deck.writes(&Event::Command(Cmd::Seek(0)), EMPTY), none);
    let set = Writes { playing: true, ..none };
    assert_eq!(rig.deck.writes(&Event::Command(Cmd::Pause), EMPTY), set);
    let load = Cmd::Load { source: Source::parse("/a"), track_id: 1, autoplay: false };
    let set = Writes { playing: true, flush_version: true, ..none };
    assert_eq!(rig.deck.writes(&Event::Command(load.clone()), EMPTY), set);
    assert_eq!(rig.deck.writes(&Event::Command(Cmd::Stop), EMPTY), set);
    rig.step(Event::Command(load), BUSY);
    assert_eq!(rig.deck.writes(&Event::Resumed, BUSY), none);
    let set = Writes { pos_frames: true, ..none };
    assert_eq!(rig.deck.writes(&Event::Resumed, EMPTY), set);
    rig.step(Event::Resumed, EMPTY);
    let set = Writes { ended: true, last_error: true, ..none };
    assert_eq!(rig.deck.writes(&Event::Opened(Err("e".to_string())), EMPTY), set);
    let set = Writes { current_track: true, ended: true, ..none };
    assert_eq!(rig.deck.writes(&Event::Opened(Ok(playing())), EMPTY), set);
    rig.step(Event::Opened(Ok(playing())), EMPTY);
    rig.step(Event::Command(Cmd::Play), EMPTY);
    rig.step(Event::NoCommand, EMPTY);
    assert_eq!(rig.deck.writes(&Event::Decoded(DecodeStep::Continued), EMPTY), none);
    let set = Writes { playing: true, ended: true, ..none };
    assert_eq!(rig.deck.writes(&Event::Decoded(DecodeStep::Finished), EMPTY), set);
    let failed = Event::Decoded(DecodeStep::Failed("e".to_string()));
    assert_eq!(rig.deck.writes(&failed, EMPTY), Writes { last_error: true, ..set });
    rig.step(Event::Decoded(DecodeStep::Continued), EMPTY);
    rig.step(Event::Command(Cmd::SetNext(Some((Source::parse("/b"), 2)))), EMPTY);
    rig.step(Event::NoCommand, EMPTY);
    assert_eq!(rig.deck.writes(&Event::Decoded(DecodeStep::Finished), EMPTY), none);
    rig.step(Event::Decoded(DecodeStep::Finished), EMPTY);
    assert_eq!(rig.deck.writes(&Event::Opened(Ok(playing())), EMPTY), none);
    assert_eq!(
        rig.deck.writes(&Event::Opened(Err("e".to_string())), EMPTY),
        Writes { last_error: true, ..set }
    );
}
