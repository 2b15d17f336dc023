//! The decoder's side of playback: what to do next, and what that does to the
//! shared state and to the timeline.
//!
//! The deck decides; whoever runs it performs the action it asks for and comes
//! back with the event that the action led to.

use rtrb::Producer;
use vstd::prelude::*;

use crate::frames::{Room, Stage, RESAMPLE_CHUNK};
use crate::rings::{
    all_markers, noticed_marker_room, put_marker, sent_markers, tried_markers, TrackMarker,
};
use crate::shared::Shared;
use crate::source::Source;
use crate::stream::StreamPlan;

verus! {

/// What the UI asks of the decoder. Seconds are the bit pattern of an `f64`.
#[derive(Clone, Debug)]
pub enum Cmd {
    Load { source: Source, track_id: u64, autoplay: bool },
    SetNext(Option<(Source, u64)>),
    Play,
    Pause,
    Seek(u64),
    Stop,
}

/// What the deck knows of the track that is being decoded.
pub struct Playing {
    /// The demuxer's number of the audio track.
    pub track_id: u32,
    pub src_rate: u32,
    /// Staging buffers for the resampler.
    pub stage: Stage,
    pub id: u64,
}

impl Playing {
    /// A track that was just opened, with nothing staged and no id yet.
    pub fn new(track_id: u32, plan: &StreamPlan) -> (p: Self)
        requires
            plan.src_channels > 0,
        ensures
            p.track_id == track_id,
            p.src_rate == plan.src_rate,
            p.stage.wf(),
            p.stage.depth() == 0,
            p.stage.chans@.len() == plan.src_channels,
            p.id == 0,
            just_opened(p, track_id, *plan),
    {
        Playing {
            track_id,
            src_rate: plan.src_rate,
            stage: Stage::new(plan.src_channels),
            id: 0,
        }
    }
}

/// How one round of decoding ended.
pub enum DecodeStep {
    Continued,
    Finished,
    Failed(String),
}

/// What happens once the ring has been emptied.
pub enum AfterDrain {
    Open { source: Source, track_id: u64, autoplay: bool },
    Anchor { track_id: u64, start_frame: u64 },
    Rest,
}

/// What the deck is waiting for.
pub enum Phase {
    Ready,
    Draining { then: AfterDrain },
    Opening { track_id: u64, autoplay: bool },
    OpeningNext { track_id: u64 },
    Seeking { secs: u64 },
    Decoding,
}

/// What came of the action that the deck asked for.
pub enum Event {
    /// A command had arrived.
    Command(Cmd),
    /// No command had arrived.
    NoCommand,
    /// The wait is over.
    Resumed,
    /// A source was opened, or could not be.
    Opened(Result<Playing, String>),
    /// The demuxer stands at this frame of the track, counted at the output rate.
    Sought { target: u64 },
    /// A packet was decoded.
    Decoded(DecodeStep),
}

/// What to do next.
pub enum Action {
    /// Look for a command; wait for one for a moment if `blocking`.
    Receive { blocking: bool },
    /// Come back at once, having published what changed.
    Check,
    /// Sleep for so many milliseconds.
    Wait(u64),
    /// Open a source.
    Open(Source),
    /// Seek in the current track and reset its decoder and resampler.
    Seek { secs: u64, track_id: u32 },
    /// Decode the next packet of the current track.
    Decode,
}

/// Milliseconds between two looks whether the ring has been emptied.
pub const DRAIN_PAUSE: u64 = 2;

/// Milliseconds to wait while the ring is nearly full.
pub const FULL_PAUSE: u64 = 4;

/// Milliseconds to wait while there is nothing to decode.
pub const IDLE_PAUSE: u64 = 20;

/// The decoder's state between two actions.
pub struct Deck {
    pub current: Option<Playing>,
    pub next_up: Option<(Source, u64)>,
    /// Frames pushed into the ring since start-up; markers are placed on this
    /// timeline so the callback can map frames back to tracks.
    pub written: u64,
    pub out_channels: usize,
    pub phase: Phase,
}

/// The marker `m` was offered to the ring, and taken unless the ring was full.
pub open spec fn marked(
    before: Producer<TrackMarker>,
    m: TrackMarker,
    after: Producer<TrackMarker>,
) -> bool {
    &&& tried_markers(after) == tried_markers(before).push(m)
    &&& all_markers(after) == all_markers(before)
    &&& sent_markers(after).is_prefix_of(all_markers(after))
    &&& sent_markers(after) == sent_markers(before).push(m) || sent_markers(after)
        == sent_markers(before)
    &&& noticed_marker_room(before) > 0 ==> sent_markers(after) == sent_markers(before).push(m)
        && noticed_marker_room(after) == noticed_marker_room(before) - 1
}

/// The shared state once queued audio has been declared stale.
pub open spec fn flush_asked(sh: Shared) -> Shared {
    Shared { flush_version: sh.flush_version.wrapping_add(1), ..sh }
}

/// Asks the callback to discard queued audio, so that the decoder's frame
/// counter and the callback's stay on the same timeline.
pub fn ask_flush(sh: &mut Shared)
    ensures
        *final(sh) == flush_asked(*old(sh)),
{
    sh.flush_version = sh.flush_version.wrapping_add(1);
}

/// The callback has discarded the queued audio: the ring is empty again.
pub open spec fn is_drained(room: Room) -> bool {
    room.free >= room.slots
}

/// Puts `e` where the UI finds it.
pub fn set_error(sh: &mut Shared, e: Option<String>)
    ensures
        *final(sh) == (Shared { last_error: e, ..*old(sh) }),
        complained(*old(sh), e, *final(sh)),
{
    sh.last_error = e;
}

/// Re-anchors the timeline: the next audio pushed starts `start_frame` into
/// `track_id`, played from the current global frame onwards.
pub fn reset_position(
    sh: &mut Shared,
    written: &mut u64,
    markers: &mut Producer<TrackMarker>,
    track_id: u64,
    start_frame: u64,
)
    ensures
        *final(sh) == (Shared { pos_frames: start_frame, ..*old(sh) }),
        *final(written) == old(sh).played_frames,
        marked(
            *old(markers),
            TrackMarker {
                at_global_frame: old(sh).played_frames,
                track_id,
                track_start_frame: start_frame,
            },
            *final(markers),
        ),
{
    let played = sh.played_frames;
    *written = played;
    sh.pos_frames = start_frame;
    put_marker(
        markers,
        TrackMarker { at_global_frame: played, track_id, track_start_frame: start_frame },
    );
}

/// Back to the commands: the decoder may wait for one unless it is busy playing.
pub open spec fn receive(deck: Deck, sh: Shared) -> Action {
    Action::Receive { blocking: deck.current is None || !sh.playing }
}

/// What a command does to a deck that is ready for one.
pub open spec fn commanded(d0: Deck, sh0: Shared, cmd: Cmd, d1: Deck, sh1: Shared, action: Action) -> bool {
    match cmd {
        Cmd::Load { source, track_id, autoplay } => {
            &&& sh1 == flush_asked(Shared { playing: false, ..sh0 })
            &&& d1 == Deck {
                phase: Phase::Draining {
                    then: AfterDrain::Open { source, track_id, autoplay },
                },
                ..d0
            }
            &&& action == Action::Check
        },
        Cmd::SetNext(n) => {
            &&& sh1 == sh0
            &&& d1 == Deck { next_up: n, ..d0 }
            &&& action == receive(d1, sh1)
        },
        Cmd::Play => {
            &&& sh1 == Shared { playing: sh0.playing || d0.current is Some, ..sh0 }
            &&& d1 == d0
            &&& action == receive(d1, sh1)
        },
        Cmd::Pause => {
            &&& sh1 == Shared { playing: false, ..sh0 }
            &&& d1 == d0
            &&& action == receive(d1, sh1)
        },
        Cmd::Stop => {
            &&& sh1 == flush_asked(Shared { playing: false, ..sh0 })
            &&& d1 == Deck {
                current: None,
                phase: Phase::Draining { then: AfterDrain::Rest },
                ..d0
            }
            &&& action == Action::Check
        },
        Cmd::Seek(secs) => {
            &&& sh1 == sh0
            &&& match d0.current {
                Some(p) => {
                    &&& d1 == Deck { phase: Phase::Seeking { secs }, ..d0 }
                    &&& action == Action::Seek { secs, track_id: p.track_id }
                },
                None => d1 == d0 && action == receive(d1, sh1),
            }
        },
    }
}

/// What a deck does when there is no command: decode, as long as something is
/// playing and the ring has room for what comes of it.
pub open spec fn idled(d0: Deck, sh: Shared, room: Room, d1: Deck, action: Action) -> bool {
    if !sh.playing {
        d1 == d0 && action == receive(d1, sh)
    } else if d0.current is None {
        d1 == d0 && action == Action::Wait(IDLE_PAUSE)
    } else if room.free < RESAMPLE_CHUNK * d0.out_channels * 2 {
        d1 == d0 && action == Action::Wait(FULL_PAUSE)
    } else {
        d1 == Deck { phase: Phase::Decoding, ..d0 } && action == Action::Decode
    }
}

/// What follows once the ring has been emptied.
pub open spec fn proceeded(
    d0: Deck,
    sh0: Shared,
    then: AfterDrain,
    d1: Deck,
    sh1: Shared,
    m0: Producer<TrackMarker>,
    m1: Producer<TrackMarker>,
    action: Action,
) -> bool {
    let played = sh0.played_frames;
    match then {
        AfterDrain::Open { source, track_id, autoplay } => {
            &&& sh1 == Shared { pos_frames: 0, ..sh0 }
            &&& d1 == Deck {
                written: played,
                phase: Phase::Opening { track_id, autoplay },
                ..d0
            }
            &&& marked(
                m0,
                TrackMarker { at_global_frame: played, track_id, track_start_frame: 0 },
                m1,
            )
            &&& action == Action::Open(source)
        },
        AfterDrain::Anchor { track_id, start_frame } => {
            &&& sh1 == Shared { pos_frames: start_frame, ..sh0 }
            &&& d1 == Deck { written: played, phase: Phase::Ready, ..d0 }
            &&& marked(
                m0,
                TrackMarker { at_global_frame: played, track_id, track_start_frame: start_frame },
                m1,
            )
            &&& action == receive(d1, sh1)
        },
        AfterDrain::Rest => {
            &&& sh1 == sh0
            &&& d1 == Deck { phase: Phase::Ready, ..d0 }
            &&& m1 == m0
            &&& action == receive(d1, sh1)
        },
    }
}

/// Nothing is left to play: the track is over and `e`, if any, says why.
pub open spec fn over(sh: Shared, e: Option<String>) -> Shared {
    Shared {
        ended: true,
        playing: false,
        last_error: match e {
            Some(e) => Some(e),
            None => sh.last_error,
        },
        ..sh
    }
}

/// What comes of opening a source, for a load or for the track queued next.
pub open spec fn opened(
    d0: Deck,
    sh0: Shared,
    result: Result<Playing, String>,
    d1: Deck,
    sh1: Shared,
    m0: Producer<TrackMarker>,
    m1: Producer<TrackMarker>,
) -> bool {
    match (d0.phase, result) {
        (Phase::Opening { track_id, autoplay }, Ok(p)) => {
            &&& sh1 == Shared {
                ended: false,
                current_track: track_id,
                playing: sh0.playing || autoplay,
                ..sh0
            }
            &&& d1 == Deck {
                current: Some(Playing { id: track_id, ..p }),
                phase: Phase::Ready,
                ..d0
            }
            &&& m1 == m0
        },
        (Phase::Opening { .. }, Err(e)) => {
            &&& sh1 == Shared { ended: true, last_error: Some(e), ..sh0 }
            &&& d1 == Deck { current: None, phase: Phase::Ready, ..d0 }
            &&& m1 == m0
        },
        (Phase::OpeningNext { track_id }, Ok(p)) => {
            &&& sh1 == sh0
            &&& d1 == Deck {
                current: Some(Playing { id: track_id, ..p }),
                phase: Phase::Ready,
                ..d0
            }
            &&& marked(
                m0,
                TrackMarker { at_global_frame: d0.written, track_id, track_start_frame: 0 },
                m1,
            )
        },
        (Phase::OpeningNext { .. }, Err(e)) => {
            &&& sh1 == over(sh0, Some(e))
            &&& d1 == Deck { current: None, phase: Phase::Ready, ..d0 }
            &&& m1 == m0
        },
        _ => false,
    }
}

/// What comes of a round of decoding.
pub open spec fn after_decode(d0: Deck, sh0: Shared, step: DecodeStep, d1: Deck, sh1: Shared, action: Action) -> bool {
    match step {
        DecodeStep::Continued => {
            &&& sh1 == sh0
            &&& d1 == Deck { phase: Phase::Ready, ..d0 }
            &&& action == receive(d1, sh1)
        },
        DecodeStep::Failed(e) => {
            &&& sh1 == over(sh0, Some(e))
            &&& d1 == Deck { current: None, phase: Phase::Ready, ..d0 }
            &&& action == receive(d1, sh1)
        },
        DecodeStep::Finished => match d0.next_up {
            Some((source, track_id)) => {
                &&& sh1 == sh0
                &&& d1 == Deck {
                    next_up: None,
                    phase: Phase::OpeningNext { track_id },
                    ..d0
                }
                &&& action == Action::Open(source)
            },
            None => {
                &&& sh1 == over(sh0, None)
                &&& d1 == Deck { current: None, phase: Phase::Ready, ..d0 }
                &&& action == receive(d1, sh1)
            },
        },
    }
}

/// What comes of a seek: what was staged is forgotten, and the timeline will be
/// anchored at the frame where the demuxer landed.
pub open spec fn sought(d0: Deck, sh0: Shared, target: u64, d1: Deck, sh1: Shared, action: Action) -> bool {
    &&& sh1 == flush_asked(sh0)
    &&& d1.current matches Some(p) && {
        let p0 = d0.current->0;
        &&& p == Playing { stage: p.stage, ..p0 }
        &&& p.stage.wf()
        &&& p.stage.depth() == 0
        &&& p.stage.chans@.len() == p0.stage.chans@.len()
        &&& d1 == Deck {
            current: d1.current,
            phase: Phase::Draining {
                then: AfterDrain::Anchor { track_id: p0.id, start_frame: target },
            },
            ..d0
        }
    }
    &&& action == Action::Check
}

impl Deck {
    /// A deck can be in this state, with at most as many output channels as a
    /// device can have.
    pub open spec fn wf(self) -> bool {
        &&& self.out_channels <= u16::MAX
        &&& self.current matches Some(p) ==> p.stage.wf()
        &&& self.phase is Seeking ==> self.current is Some
    }

    /// The event is one that the deck's last action can lead to.
    pub open spec fn expects(self, event: Event) -> bool {
        match event {
            Event::Command(_) => self.phase is Ready,
            Event::NoCommand => self.phase is Ready,
            Event::Resumed => self.phase is Ready || self.phase is Draining,
            Event::Opened(r) => (self.phase is Opening || self.phase is OpeningNext) && (
            r matches Ok(p) ==> p.stage.wf()),
            Event::Sought { .. } => self.phase is Seeking,
            Event::Decoded(_) => self.phase is Decoding,
        }
    }

    /// A deck with nothing loaded.
    pub fn new(out_channels: usize) -> (deck: Self)
        requires
            out_channels <= u16::MAX,
        ensures
            deck.wf(),
            deck.current is None,
            deck.next_up is None,
            deck.written == 0,
            deck.out_channels == out_channels,
            deck.phase is Ready,
            is_empty_deck(deck, out_channels),
    {
        Deck { current: None, next_up: None, written: 0, out_channels, phase: Phase::Ready }
    }

    fn receive(&self, sh: &Shared) -> (action: Action)
        ensures
            action == receive(*self, *sh),
    {
        Action::Receive { blocking: self.current.is_none() || !sh.playing }
    }

    /// Takes a command.
    pub fn command(&mut self, sh: &mut Shared, cmd: Cmd) -> (action: Action)
        requires
            old(self).wf(),
            old(self).phase is Ready,
        ensures
            final(self).wf(),
            commanded(*old(self), *old(sh), cmd, *final(self), *final(sh), action),
    {
        match cmd {
            Cmd::Load { source, track_id, autoplay } => {
                sh.playing = false;
                ask_flush(sh);
                self.phase = Phase::Draining {
                    then: AfterDrain::Open { source, track_id, autoplay },
                };
                Action::Check
            },
            Cmd::SetNext(n) => {
                self.next_up = n;
                self.receive(sh)
            },
            Cmd::Play => {
                if self.current.is_some() {
                    sh.playing = true;
                }
                self.receive(sh)
            },
            Cmd::Pause => {
                sh.playing = false;
                self.receive(sh)
            },
            Cmd::Stop => {
                sh.playing = false;
                self.current = None;
                ask_flush(sh);
                self.phase = Phase::Draining { then: AfterDrain::Rest };
                Action::Check
            },
            Cmd::Seek(secs) => {
                match &self.current {
                    Some(p) => {
                        let track_id = p.track_id;
                        self.phase = Phase::Seeking { secs };
                        Action::Seek { secs, track_id }
                    },
                    None => self.receive(sh),
                }
            },
        }
    }

    /// Goes on without a command.
    pub fn idle(&mut self, sh: &Shared, room: Room) -> (action: Action)
        requires
            old(self).wf(),
            old(self).phase is Ready,
        ensures
            final(self).wf(),
            idled(*old(self), *sh, room, *final(self), action),
    {
        if !sh.playing {
            return self.receive(sh);
        }
        if self.current.is_none() {
            return Action::Wait(IDLE_PAUSE);
        }
        // Keep the ring topped up, but leave room so a push never blocks.
        if room.free < RESAMPLE_CHUNK * self.out_channels * 2 {
            return Action::Wait(FULL_PAUSE);
        }
        self.phase = Phase::Decoding;
        Action::Decode
    }

    /// Goes on once the ring has been emptied.
    fn proceed(
        &mut self,
        sh: &mut Shared,
        markers: &mut Producer<TrackMarker>,
        then: AfterDrain,
    ) -> (action: Action)
        requires
            old(self).wf(),
            old(self).phase is Ready,
        ensures
            final(self).wf(),
            proceeded(
                *old(self),
                *old(sh),
                then,
                *final(self),
                *final(sh),
                *old(markers),
                *final(markers),
                action,
            ),
    {
        match then {
            AfterDrain::Open { source, track_id, autoplay } => {
                reset_position(sh, &mut self.written, markers, track_id, 0);
                self.phase = Phase::Opening { track_id, autoplay };
                Action::Open(source)
            },
            AfterDrain::Anchor { track_id, start_frame } => {
                reset_position(sh, &mut self.written, markers, track_id, start_frame);
                self.receive(sh)
            },
            AfterDrain::Rest => self.receive(sh),
        }
    }

    /// Goes on after a wait: looks whether the callback has emptied the ring, if
    /// that is what the wait was for.
    pub fn resume(
        &mut self,
        sh: &mut Shared,
        markers: &mut Producer<TrackMarker>,
        room: Room,
    ) -> (action: Action)
        requires
            old(self).wf(),
            old(self).phase is Ready || old(self).phase is Draining,
        ensures
            final(self).wf(),
            match old(self).phase {
                Phase::Draining { then } => if is_drained(room) {
                    proceeded(
                        *old(self),
                        *old(sh),
                        then,
                        *final(self),
                        *final(sh),
                        *old(markers),
                        *final(markers),
                        action,
                    )
                } else {
                    &&& *final(self) == *old(self)
                    &&& *final(sh) == *old(sh)
                    &&& *final(markers) == *old(markers)
                    &&& action == Action::Wait(DRAIN_PAUSE)
                },
                _ => {
                    &&& *final(self) == *old(self)
                    &&& *final(sh) == *old(sh)
                    &&& *final(markers) == *old(markers)
                    &&& action == receive(*old(self), *old(sh))
                },
            },
    {
        let mut phase = Phase::Ready;
        std::mem::swap(&mut phase, &mut self.phase);
        match phase {
            Phase::Draining { then } => {
                if room.free >= room.slots {
                    self.proceed(sh, markers, then)
                } else {
                    self.phase = Phase::Draining { then };
                    Action::Wait(DRAIN_PAUSE)
                }
            },
            _ => self.receive(sh),
        }
    }

    /// Goes on after a source was opened, or could not be.
    pub fn open_done(
        &mut self,
        sh: &mut Shared,
        markers: &mut Producer<TrackMarker>,
        result: Result<Playing, String>,
    ) -> (action: Action)
        requires
            old(self).wf(),
            old(self).phase is Opening || old(self).phase is OpeningNext,
            result matches Ok(p) ==> p.stage.wf(),
        ensures
            final(self).wf(),
            opened(
                *old(self),
                *old(sh),
                result,
                *final(self),
                *final(sh),
                *old(markers),
                *final(markers),
            ),
            action == receive(*final(self), *final(sh)),
    {
        let mut phase = Phase::Ready;
        std::mem::swap(&mut phase, &mut self.phase);
        match (phase, result) {
            (Phase::Opening { track_id, autoplay }, Ok(p)) => {
                self.current = Some(Playing { id: track_id, ..p });
                sh.ended = false;
                sh.current_track = track_id;
                if autoplay {
                    sh.playing = true;
                }
            },
            (Phase::Opening { .. }, Err(e)) => {
                self.current = None;
                set_error(sh, Some(e));
                sh.ended = true;
            },
            (Phase::OpeningNext { track_id }, Ok(p)) => {
                put_marker(
                    markers,
                    TrackMarker { at_global_frame: self.written, track_id, track_start_frame: 0 },
                );
                self.current = Some(Playing { id: track_id, ..p });
            },
            (_, Err(e)) => {
                set_error(sh, Some(e));
                self.current = None;
                sh.ended = true;
                sh.playing = false;
            },
            _ => {},
        }
        self.receive(sh)
    }

    /// Goes on after a seek that landed on frame `target`.
    pub fn seek_done(&mut self, sh: &mut Shared, target: u64) -> (action: Action)
        requires
            old(self).wf(),
            old(self).phase is Seeking,
        ensures
            final(self).wf(),
            sought(*old(self), *old(sh), target, *final(self), *final(sh), action),
    {
        let mut current: Option<Playing> = None;
        std::mem::swap(&mut current, &mut self.current);
        let mut id: u64 = 0;
        if let Some(mut p) = current {
            p.stage.clear();
            id = p.id;
            self.current = Some(p);
        }
        ask_flush(sh);
        self.phase = Phase::Draining {
            then: AfterDrain::Anchor { track_id: id, start_frame: target },
        };
        Action::Check
    }

    /// Goes on after a round of decoding.
    pub fn decode_done(&mut self, sh: &mut Shared, step: DecodeStep) -> (action: Action)
        requires
            old(self).wf(),
            old(self).phase is Decoding,
        ensures
            final(self).wf(),
            after_decode(*old(self), *old(sh), step, *final(self), *final(sh), action),
    {
        self.phase = Phase::Ready;
        match step {
            DecodeStep::Continued => {},
            DecodeStep::Failed(e) => {
                set_error(sh, Some(e));
                self.current = None;
                sh.ended = true;
                sh.playing = false;
            },
            DecodeStep::Finished => {
                let mut next: Option<(Source, u64)> = None;
                std::mem::swap(&mut next, &mut self.next_up);
                // Gapless: start the queued track without draining the ring.
                if let Some((source, track_id)) = next {
                    self.phase = Phase::OpeningNext { track_id };
                    return Action::Open(source);
                }
                self.current = None;
                sh.ended = true;
                sh.playing = false;
            },
        }
        self.receive(sh)
    }

    /// Whether the event is one that the deck's last action can lead to.
    pub fn accepts(&self, event: &Event) -> (yes: bool)
        ensures
            yes == match event {
                Event::Opened(_) => self.phase is Opening || self.phase is OpeningNext,
                _ => self.expects(*event),
            },
    {
        match (event, &self.phase) {
            (Event::Command(_), Phase::Ready) => true,
            (Event::NoCommand, Phase::Ready) => true,
            (Event::Resumed, Phase::Ready) => true,
            (Event::Resumed, Phase::Draining { .. }) => true,
            (Event::Opened(_), Phase::Opening { .. }) => true,
            (Event::Opened(_), Phase::OpeningNext { .. }) => true,
            (Event::Sought { .. }, Phase::Seeking { .. }) => true,
            (Event::Decoded(_), Phase::Decoding) => true,
            _ => false,
        }
    }

    /// Takes the event that the last action led to, and says what to do next.
    /// `room` is what the ring looked like before `sh` was read.
    pub fn step(
        &mut self,
        sh: &mut Shared,
        markers: &mut Producer<TrackMarker>,
        event: Event,
        room: Room,
    ) -> (action: Action)
        requires
            old(self).wf(),
            old(self).expects(event),
        ensures
            final(self).wf(),
            turn(
                *old(self),
                *old(sh),
                event,
                room,
                *final(self),
                *final(sh),
                *old(markers),
                *final(markers),
                action,
            ),
    {
        match event {
            Event::Command(cmd) => self.command(sh, cmd),
            Event::NoCommand => self.idle(sh, room),
            Event::Resumed => self.resume(sh, markers, room),
            Event::Opened(result) => self.open_done(sh, markers, result),
            Event::Sought { target } => self.seek_done(sh, target),
            Event::Decoded(step) => self.decode_done(sh, step),
        }
    }

    /// Counts the frames of interleaved audio that were pushed into the ring.
    pub fn count_written(&mut self, frames: u64)
        requires
            old(self).written + frames <= u64::MAX,
        ensures
            *final(self) == (Deck { written: (old(self).written + frames) as u64, ..*old(self) }),
            counted(*old(self), frames, *final(self)),
    {
        self.written = self.written + frames;
    }
}

/// One turn of the deck: from state and event to next state and action.
pub open spec fn turn(
    d0: Deck,
    sh0: Shared,
    event: Event,
    room: Room,
    d1: Deck,
    sh1: Shared,
    m0: Producer<TrackMarker>,
    m1: Producer<TrackMarker>,
    action: Action,
) -> bool {
    match event {
        Event::Command(cmd) => commanded(d0, sh0, cmd, d1, sh1, action) && m1 == m0,
        Event::NoCommand => idled(d0, sh0, room, d1, action) && sh1 == sh0 && m1 == m0,
        Event::Resumed => match d0.phase {
            Phase::Draining { then } => if is_drained(room) {
                proceeded(d0, sh0, then, d1, sh1, m0, m1, action)
            } else {
                &&& d1 == d0
                &&& sh1 == sh0
                &&& m1 == m0
                &&& action == Action::Wait(DRAIN_PAUSE)
            },
            _ => d1 == d0 && sh1 == sh0 && m1 == m0 && action == receive(d0, sh0),
        },
        Event::Opened(result) => {
            &&& opened(d0, sh0, result, d1, sh1, m0, m1)
            &&& action == receive(d1, sh1)
        },
        Event::Sought { target } => sought(d0, sh0, target, d1, sh1, action) && m1 == m0,
        Event::Decoded(step) => after_decode(d0, sh0, step, d1, sh1, action) && m1 == m0,
    }
}

/// The parts of the shared state that a turn of the deck sets. What it does not
/// set may be written by another thread meanwhile.
#[derive(Clone, Copy, Debug, PartialEq, Eq)]
pub struct Writes {
    pub playing: bool,
    pub pos_frames: bool,
    pub current_track: bool,
    pub ended: bool,
    pub flush_version: bool,
    pub last_error: bool,
}

/// Nothing of the shared state is set.
pub open spec fn no_writes() -> Writes {
    Writes {
        playing: false,
        pos_frames: false,
        current_track: false,
        ended: false,
        flush_version: false,
        last_error: false,
    }
}

/// What a turn of the deck sets.
pub open spec fn writes_of(deck: Deck, event: Event, room: Room) -> Writes {
    let none = no_writes();
    match event {
        Event::Command(Cmd::Load { .. }) | Event::Command(Cmd::Stop) => Writes {
            playing: true,
            flush_version: true,
            ..none
        },
        Event::Command(Cmd::Play) => Writes { playing: deck.current is Some, ..none },
        Event::Command(Cmd::Pause) => Writes { playing: true, ..none },
        Event::Command(_) | Event::NoCommand => none,
        Event::Resumed => match deck.phase {
            Phase::Draining { then } => Writes {
                pos_frames: is_drained(room) && !(then is Rest),
                ..none
            },
            _ => none,
        },
        Event::Opened(result) => match (deck.phase, result) {
            (Phase::Opening { autoplay, .. }, Ok(_)) => Writes {
                playing: autoplay,
                current_track: true,
                ended: true,
                ..none
            },
            (Phase::Opening { .. }, Err(_)) => Writes { ended: true, last_error: true, ..none },
            (_, Ok(_)) => none,
            (_, Err(_)) => Writes { playing: true, ended: true, last_error: true, ..none },
        },
        Event::Sought { .. } => Writes { flush_version: true, ..none },
        Event::Decoded(step) => match step {
            DecodeStep::Continued => none,
            DecodeStep::Failed(_) => Writes {
                playing: true,
                ended: true,
                last_error: true,
                ..none
            },
            DecodeStep::Finished => Writes {
                playing: deck.next_up is None,
                ended: deck.next_up is None,
                ..none
            },
        },
    }
}

impl Deck {
    /// What the turn that `event` leads to sets of the shared state.
    pub fn writes(&self, event: &Event, room: Room) -> (w: Writes)
        ensures
            w == writes_of(*self, *event, room),
    {
        let none = Writes {
            playing: false,
            pos_frames: false,
            current_track: false,
            ended: false,
            flush_version: false,
            last_error: false,
        };
        match event {
            Event::Command(Cmd::Load { .. }) | Event::Command(Cmd::Stop) => Writes {
                playing: true,
                flush_version: true,
                ..none
            },
            Event::Command(Cmd::Play) => Writes { playing: self.current.is_some(), ..none },
            Event::Command(Cmd::Pause) => Writes { playing: true, ..none },
            Event::Command(_) | Event::NoCommand => none,
            Event::Resumed => match &self.phase {
                Phase::Draining { then: AfterDrain::Rest } => none,
                Phase::Draining { .. } => Writes { pos_frames: room.free >= room.slots, ..none },
                _ => none,
            },
            Event::Opened(result) => match (&self.phase, result) {
                (Phase::Opening { autoplay, .. }, Ok(_)) => Writes {
                    playing: *autoplay,
                    current_track: true,
                    ended: true,
                    ..none
                },
                (Phase::Opening { .. }, Err(_)) => Writes {
                    ended: true,
                    last_error: true,
                    ..none
                },
                (_, Ok(_)) => none,
                (_, Err(_)) => Writes { playing: true, ended: true, last_error: true, ..none },
            },
            Event::Sought { .. } => Writes { flush_version: true, ..none },
            Event::Decoded(DecodeStep::Continued) => none,
            Event::Decoded(DecodeStep::Failed(_)) => Writes {
                playing: true,
                ended: true,
                last_error: true,
                ..none
            },
            Event::Decoded(DecodeStep::Finished) => Writes {
                playing: self.next_up.is_none(),
                ended: self.next_up.is_none(),
                ..none
            },
        }
    }
}

/// What a turn does not set stays as it was.
pub proof fn law_turns_set_what_they_say(
    d0: Deck,
    sh0: Shared,
    event: Event,
    room: Room,
    d1: Deck,
    sh1: Shared,
    m0: Producer<TrackMarker>,
    m1: Producer<TrackMarker>,
    action: Action,
)
    requires
        d0.expects(event),
        turn(d0, sh0, event, room, d1, sh1, m0, m1, action),
    ensures
        ({
            let w = writes_of(d0, event, room);
            &&& !w.playing ==> sh1.playing == sh0.playing
            &&& !w.pos_frames ==> sh1.pos_frames == sh0.pos_frames
            &&& !w.current_track ==> sh1.current_track == sh0.current_track
            &&& !w.ended ==> sh1.ended == sh0.ended
            &&& !w.flush_version ==> sh1.flush_version == sh0.flush_version
            &&& !w.last_error ==> sh1.last_error == sh0.last_error
        }),
{
}

/// Playback runs only while there is a track to decode, and never while one is
/// being replaced or stopped.
pub open spec fn transport_ok(deck: Deck, sh: Shared) -> bool {
    &&& sh.playing ==> deck.current is Some
    &&& deck.phase is Opening ==> !sh.playing
    &&& deck.phase matches Phase::Draining { then } ==> (then is Open || then is Rest
        ==> !sh.playing)
}

/// A deck with nothing loaded, beside a state in which nothing plays, is
/// consistent: so is the player at start-up.
pub proof fn law_transport_starts_consistent(deck: Deck, sh: Shared)
    requires
        deck.current is None,
        deck.phase is Ready,
        !sh.playing,
    ensures
        transport_ok(deck, sh),
{
}

/// Every turn keeps the transport consistent: whatever the UI asks for and
/// whatever comes of it, nothing plays without a track.
pub proof fn law_nothing_plays_without_a_track(
    d0: Deck,
    sh0: Shared,
    event: Event,
    room: Room,
    d1: Deck,
    sh1: Shared,
    m0: Producer<TrackMarker>,
    m1: Producer<TrackMarker>,
    action: Action,
)
    requires
        d0.wf(),
        d0.expects(event),
        turn(d0, sh0, event, room, d1, sh1, m0, m1, action),
        transport_ok(d0, sh0),
    ensures
        transport_ok(d1, sh1),
        sh1.playing ==> d1.current is Some,
        d1.phase is Opening ==> !sh1.playing,
{
}

/// A turn of the decoder never touches what belongs to the callback and the UI:
/// the frames played, the volume, the equalizer, the output format.
pub proof fn law_decoder_minds_its_own(
    d0: Deck,
    sh0: Shared,
    event: Event,
    room: Room,
    d1: Deck,
    sh1: Shared,
    m0: Producer<TrackMarker>,
    m1: Producer<TrackMarker>,
    action: Action,
)
    requires
        d0.expects(event),
        turn(d0, sh0, event, room, d1, sh1, m0, m1, action),
    ensures
        sh1 == (Shared {
            playing: sh1.playing,
            pos_frames: sh1.pos_frames,
            current_track: sh1.current_track,
            ended: sh1.ended,
            flush_version: sh1.flush_version,
            last_error: sh1.last_error,
            ..sh0
        }),
        d1.out_channels == d0.out_channels,
{
}

/// Gapless: when a track ends and another is queued, the queued one is opened
/// and begins at exactly the frame where the written audio ends. The ring is not
/// drained and playback does not stop in between.
pub proof fn law_gapless_hand_over(
    d0: Deck,
    sh0: Shared,
    next: (Source, u64),
    p: Playing,
    room: Room,
    d1: Deck,
    sh1: Shared,
    a1: Action,
    d2: Deck,
    sh2: Shared,
    m0: Producer<TrackMarker>,
    m1: Producer<TrackMarker>,
    m2: Producer<TrackMarker>,
    a2: Action,
)
    requires
        d0.phase is Decoding,
        d0.next_up == Some(next),
        turn(d0, sh0, Event::Decoded(DecodeStep::Finished), room, d1, sh1, m0, m1, a1),
        turn(d1, sh1, Event::Opened(Ok(p)), room, d2, sh2, m1, m2, a2),
    ensures
        a1 == Action::Open(next.0),
        sh2 == sh0,
        d2.written == d0.written,
        d2.current == Some(Playing { id: next.1, ..p }),
        d2.next_up is None,
        marked(
            m0,
            TrackMarker { at_global_frame: d0.written, track_id: next.1, track_start_frame: 0 },
            m2,
        ),
{
}

/// The decoder waits until the callback has discarded the queued audio, and no
/// longer: it still drains if and only if the ring is not empty. Until then
/// nothing is marked and the timeline stays as it is.
pub proof fn law_draining_waits_for_the_callback(
    d0: Deck,
    sh0: Shared,
    room: Room,
    d1: Deck,
    sh1: Shared,
    m0: Producer<TrackMarker>,
    m1: Producer<TrackMarker>,
    action: Action,
)
    requires
        d0.phase is Draining,
        turn(d0, sh0, Event::Resumed, room, d1, sh1, m0, m1, action),
    ensures
        d1.phase is Draining <==> room.free < room.slots,
        d1.phase is Draining ==> d1 == d0 && sh1 == sh0 && m1 == m0,
{
}

/// A seek or a load puts the decoder's frame counter back onto the callback's
/// timeline, and marks that very frame.
pub proof fn law_timeline_is_anchored(
    d0: Deck,
    sh0: Shared,
    room: Room,
    track_id: u64,
    start_frame: u64,
    d1: Deck,
    sh1: Shared,
    m0: Producer<TrackMarker>,
    m1: Producer<TrackMarker>,
    action: Action,
)
    requires
        d0.phase matches Phase::Draining { then } && is_drained(room) && match then {
            AfterDrain::Open { source, track_id: id, autoplay } => id == track_id && start_frame
                == 0,
            AfterDrain::Anchor { track_id: id, start_frame: f } => id == track_id && f
                == start_frame,
            AfterDrain::Rest => false,
        },
        turn(d0, sh0, Event::Resumed, room, d1, sh1, m0, m1, action),
    ensures
        d1.written == sh0.played_frames,
        sh1.pos_frames == start_frame,
        marked(
            m0,
            TrackMarker {
                at_global_frame: d1.written,
                track_id,
                track_start_frame: start_frame,
            },
            m1,
        ),
{
}

/// Where a seek landed, as the demuxer tells it: a time stamp and its ticks per
/// second, or, where it could not seek, the seconds that were asked for.
#[derive(Clone, Copy, Debug, PartialEq, Eq)]
pub enum Landing {
    Ticks { ts: u64, per_second: u32 },
    Seconds(u64),
}

/// Where playback goes on after a seek.
pub open spec fn landing_of(deck: Deck, actual_ts: Option<u64>) -> Landing {
    match actual_ts {
        Some(ts) => Landing::Ticks {
            ts,
            per_second: if deck.current->0.src_rate == 0 {
                1
            } else {
                deck.current->0.src_rate
            },
        },
        None => Landing::Seconds(deck.phase->Seeking_secs),
    }
}

impl Deck {
    /// Where playback goes on after a seek: where the demuxer actually landed,
    /// if it says so.
    pub fn landing(&self, actual_ts: Option<u64>) -> (l: Landing)
        requires
            self.wf(),
            self.phase is Seeking,
        ensures
            actual_ts matches Some(ts) ==> l == (Landing::Ticks {
                ts,
                per_second: if self.current->0.src_rate == 0 {
                    1
                } else {
                    self.current->0.src_rate
                },
            }),
            actual_ts is None ==> l == Landing::Seconds(self.phase->Seeking_secs),
            l == landing_of(*self, actual_ts),
    {
        let secs = match self.phase {
            Phase::Seeking { secs } => secs,
            _ => 0,
        };
        let rate = match &self.current {
            Some(p) => p.src_rate,
            None => 0,
        };
        match actual_ts {
            Some(ts) => Landing::Ticks {
                ts,
                per_second: if rate == 0 {
                    1
                } else {
                    rate
                },
            },
            None => Landing::Seconds(secs),
        }
    }
}

/// After a command for the queue, the queue is what was asked for, whatever it was
/// before: a track, another one, or none. Nothing else changes.
pub proof fn law_queue_is_what_was_asked_for(
    d0: Deck,
    sh0: Shared,
    room: Room,
    d1: Deck,
    sh1: Shared,
    m0: Producer<TrackMarker>,
    m1: Producer<TrackMarker>,
    action: Action,
    next: Option<(Source, u64)>,
)
    requires
        turn(d0, sh0, Event::Command(Cmd::SetNext(next)), room, d1, sh1, m0, m1, action),
    ensures
        d1.next_up == next,
        d1.current == d0.current,
        d1.written == d0.written,
        d1.phase == d0.phase,
        sh1 == sh0,
        m1 == m0,
        action is Receive,
{
}

/// Nothing but such a command, and the end of a track, touches the queue. The end of
/// a track empties it.
pub proof fn law_queue_waits_for_the_end_of_the_track(
    d0: Deck,
    sh0: Shared,
    room: Room,
    d1: Deck,
    sh1: Shared,
    m0: Producer<TrackMarker>,
    m1: Producer<TrackMarker>,
    action: Action,
    event: Event,
)
    requires
        d0.expects(event),
        !(event matches Event::Command(Cmd::SetNext(_))),
        turn(d0, sh0, event, room, d1, sh1, m0, m1, action),
    ensures
        event != Event::Decoded(DecodeStep::Finished) ==> d1.next_up == d0.next_up,
        event == Event::Decoded(DecodeStep::Finished) ==> d1.next_up is None,
{
}

/// A track that ends with nothing queued is the end of playback: nothing is opened.
pub proof fn law_playback_ends_with_the_last_track(
    d0: Deck,
    sh0: Shared,
    room: Room,
    d1: Deck,
    sh1: Shared,
    m0: Producer<TrackMarker>,
    m1: Producer<TrackMarker>,
    action: Action,
)
    requires
        d0.next_up is None,
        turn(d0, sh0, Event::Decoded(DecodeStep::Finished), room, d1, sh1, m0, m1, action),
    ensures
        sh1.ended,
        !sh1.playing,
        sh1.last_error == sh0.last_error,
        sh1.flush_version == sh0.flush_version,
        sh1.pos_frames == sh0.pos_frames,
        sh1.current_track == sh0.current_track,
        d1.current is None,
        d1.phase is Ready,
        m1 == m0,
        action == (Action::Receive { blocking: true }),
{
}

/// A track that ends with another one queued leads to that one being opened, under
/// its own id, while what is in the ring plays on.
pub proof fn law_the_queued_track_is_opened_next(
    d0: Deck,
    sh0: Shared,
    room: Room,
    d1: Deck,
    sh1: Shared,
    m0: Producer<TrackMarker>,
    m1: Producer<TrackMarker>,
    action: Action,
    source: Source,
    id: u64,
)
    requires
        d0.next_up == Some((source, id)),
        turn(d0, sh0, Event::Decoded(DecodeStep::Finished), room, d1, sh1, m0, m1, action),
    ensures
        action == Action::Open(source),
        d1.phase == (Phase::OpeningNext { track_id: id }),
        sh1 == sh0,
        d1.written == d0.written,
        m1 == m0,
{
}

/// A seek in a loaded track goes to the demuxer, with the seconds asked for and that
/// track's number, playing or paused and whatever else the shared state holds.
pub proof fn law_seeks_reach_the_demuxer(
    d0: Deck,
    sh0: Shared,
    room: Room,
    d1: Deck,
    sh1: Shared,
    m0: Producer<TrackMarker>,
    m1: Producer<TrackMarker>,
    action: Action,
    secs: u64,
    p: Playing,
)
    requires
        d0.current == Some(p),
        turn(d0, sh0, Event::Command(Cmd::Seek(secs)), room, d1, sh1, m0, m1, action),
    ensures
        action == (Action::Seek { secs, track_id: p.track_id }),
        d1.phase == (Phase::Seeking { secs }),
        d1.current == d0.current,
        d1.next_up == d0.next_up,
        d1.written == d0.written,
        sh1 == sh0,
        m1 == m0,
{
}

/// With no track there is nothing to seek in, and nothing happens.
pub proof fn law_seeks_need_a_track(
    d0: Deck,
    sh0: Shared,
    room: Room,
    d1: Deck,
    sh1: Shared,
    m0: Producer<TrackMarker>,
    m1: Producer<TrackMarker>,
    action: Action,
    secs: u64,
)
    requires
        d0.current is None,
        turn(d0, sh0, Event::Command(Cmd::Seek(secs)), room, d1, sh1, m0, m1, action),
    ensures
        d1 == d0,
        sh1 == sh0,
        m1 == m0,
        action == (Action::Receive { blocking: true }),
{
}

/// After a seek the queued audio is stale and what was staged is gone; playback goes
/// on as it was, in the same track, once the ring is empty, from the frame where
/// the demuxer landed.
pub proof fn law_seeks_make_the_queued_audio_stale(
    d0: Deck,
    sh0: Shared,
    room: Room,
    d1: Deck,
    sh1: Shared,
    m0: Producer<TrackMarker>,
    m1: Producer<TrackMarker>,
    action: Action,
    target: u64,
    p: Playing,
)
    requires
        d0.phase is Seeking,
        d0.current == Some(p),
        turn(d0, sh0, Event::Sought { target }, room, d1, sh1, m0, m1, action),
    ensures
        sh1.flush_version == sh0.flush_version.wrapping_add(1),
        sh1.playing == sh0.playing,
        sh1.ended == sh0.ended,
        sh1.pos_frames == sh0.pos_frames,
        sh1.current_track == sh0.current_track,
        sh1.last_error == sh0.last_error,
        d1.current matches Some(q) && q.id == p.id && q.track_id == p.track_id && q.src_rate
            == p.src_rate && q.stage.chans@.len() == p.stage.chans@.len() && forall|c: int|
            0 <= c < q.stage.chans@.len() ==> (#[trigger] q.stage.chans@[c])@.len() == 0,
        d1.phase == (Phase::Draining {
            then: AfterDrain::Anchor { track_id: p.id, start_frame: target },
        }),
        d1.next_up == d0.next_up,
        d1.written == d0.written,
        m1 == m0,
        action == Action::Check,
{
}

/// Once the ring is empty after a seek, the timeline goes on from the frames played
/// so far: the position is that of the seek, and a marker says so.
pub proof fn law_seeks_anchor_the_timeline(
    d0: Deck,
    sh0: Shared,
    room: Room,
    d1: Deck,
    sh1: Shared,
    m0: Producer<TrackMarker>,
    m1: Producer<TrackMarker>,
    action: Action,
    track_id: u64,
    start_frame: u64,
)
    requires
        d0.phase == (Phase::Draining { then: AfterDrain::Anchor { track_id, start_frame } }),
        room.free >= room.slots,
        turn(d0, sh0, Event::Resumed, room, d1, sh1, m0, m1, action),
    ensures
        sh1.pos_frames == start_frame,
        sh1.playing == sh0.playing,
        sh1.flush_version == sh0.flush_version,
        sh1.current_track == sh0.current_track,
        d1.written == sh0.played_frames,
        d1.current == d0.current,
        d1.phase is Ready,
        d1.next_up == d0.next_up,
        tried_markers(m1) == tried_markers(m0).push(
            TrackMarker {
                at_global_frame: sh0.played_frames,
                track_id,
                track_start_frame: start_frame,
            },
        ),
        noticed_marker_room(m0) > 0 ==> sent_markers(m1) == tried_tail(m0, m1),
        action is Receive,
{
}

/// A load stops playback, makes the queued audio stale, and waits for the ring to be
/// emptied before it opens what was asked for. The queue stays.
pub proof fn law_loads_stop_and_drain_first(
    d0: Deck,
    sh0: Shared,
    room: Room,
    d1: Deck,
    sh1: Shared,
    m0: Producer<TrackMarker>,
    m1: Producer<TrackMarker>,
    action: Action,
    source: Source,
    track_id: u64,
    autoplay: bool,
)
    requires
        turn(d0, sh0, Event::Command(Cmd::Load { source, track_id, autoplay }), room, d1, sh1, m0, m1, action),
    ensures
        !sh1.playing,
        sh1.flush_version == sh0.flush_version.wrapping_add(1),
        sh1.pos_frames == sh0.pos_frames,
        sh1.current_track == sh0.current_track,
        sh1.ended == sh0.ended,
        sh1.last_error == sh0.last_error,
        d1.phase == (Phase::Draining { then: AfterDrain::Open { source, track_id, autoplay } }),
        d1.next_up == d0.next_up,
        d1.written == d0.written,
        d1.current == d0.current,
        m1 == m0,
        action == Action::Check,
{
}

/// Once the ring is empty after a load, the very source that was asked for is opened,
/// and the timeline goes on from the frames played so far, at the start of the
/// track.
pub proof fn law_loads_open_what_was_asked_for(
    d0: Deck,
    sh0: Shared,
    room: Room,
    d1: Deck,
    sh1: Shared,
    m0: Producer<TrackMarker>,
    m1: Producer<TrackMarker>,
    action: Action,
    source: Source,
    track_id: u64,
    autoplay: bool,
)
    requires
        d0.phase == (Phase::Draining { then: AfterDrain::Open { source, track_id, autoplay } }),
        room.free >= room.slots,
        turn(d0, sh0, Event::Resumed, room, d1, sh1, m0, m1, action),
    ensures
        action == Action::Open(source),
        d1.phase == (Phase::Opening { track_id, autoplay }),
        sh1.pos_frames == 0,
        sh1.playing == sh0.playing,
        sh1.flush_version == sh0.flush_version,
        d1.written == sh0.played_frames,
        d1.next_up == d0.next_up,
        tried_markers(m1) == tried_markers(m0).push(
            TrackMarker {
                at_global_frame: sh0.played_frames,
                track_id,
                track_start_frame: 0,
            },
        ),
        noticed_marker_room(m0) > 0 ==> sent_markers(m1) == tried_tail(m0, m1),
{
}

/// A loaded track becomes the current one, under the id it was loaded with, and plays
/// if it was asked to; it has not ended.
pub proof fn law_loaded_tracks_play_if_asked(
    d0: Deck,
    sh0: Shared,
    room: Room,
    d1: Deck,
    sh1: Shared,
    m0: Producer<TrackMarker>,
    m1: Producer<TrackMarker>,
    action: Action,
    track_id: u64,
    autoplay: bool,
    p: Playing,
)
    requires
        d0.phase == (Phase::Opening { track_id, autoplay }),
        turn(d0, sh0, Event::Opened(Ok(p)), room, d1, sh1, m0, m1, action),
    ensures
        d1.current matches Some(q) && q.id == track_id && q.track_id == p.track_id && q.src_rate
            == p.src_rate && q.stage == p.stage,
        sh1.current_track == track_id,
        !sh1.ended,
        sh1.playing == (sh0.playing || autoplay),
        sh1.last_error == sh0.last_error,
        sh1.flush_version == sh0.flush_version,
        d1.phase is Ready,
        d1.next_up == d0.next_up,
        d1.written == d0.written,
        m1 == m0,
        action is Receive,
{
}

/// A loaded source that cannot be opened ends with what the cause said; nothing plays
/// on in its place.
pub proof fn law_loads_that_fail_say_why(
    d0: Deck,
    sh0: Shared,
    room: Room,
    d1: Deck,
    sh1: Shared,
    m0: Producer<TrackMarker>,
    m1: Producer<TrackMarker>,
    action: Action,
    track_id: u64,
    autoplay: bool,
    e: String,
)
    requires
        d0.phase == (Phase::Opening { track_id, autoplay }),
        turn(d0, sh0, Event::Opened(Err(e)), room, d1, sh1, m0, m1, action),
    ensures
        d1.current is None,
        sh1.ended,
        sh1.last_error == Some(e),
        sh1.playing == sh0.playing,
        sh1.current_track == sh0.current_track,
        d1.phase is Ready,
        d1.next_up == d0.next_up,
        m1 == m0,
        action is Receive,
{
}

/// A queued track that was opened begins where the audio written so far ends, and
/// says so by a marker; the shared state stays as it is until the callback gets
/// there.
pub proof fn law_queued_tracks_follow_without_a_gap(
    d0: Deck,
    sh0: Shared,
    room: Room,
    d1: Deck,
    sh1: Shared,
    m0: Producer<TrackMarker>,
    m1: Producer<TrackMarker>,
    action: Action,
    track_id: u64,
    p: Playing,
)
    requires
        d0.phase == (Phase::OpeningNext { track_id }),
        turn(d0, sh0, Event::Opened(Ok(p)), room, d1, sh1, m0, m1, action),
    ensures
        d1.current matches Some(q) && q.id == track_id && q.track_id == p.track_id && q.src_rate
            == p.src_rate && q.stage == p.stage,
        sh1 == sh0,
        d1.phase is Ready,
        d1.next_up == d0.next_up,
        d1.written == d0.written,
        tried_markers(m1) == tried_markers(m0).push(
            TrackMarker { at_global_frame: d0.written, track_id, track_start_frame: 0 },
        ),
        noticed_marker_room(m0) > 0 ==> sent_markers(m1) == tried_tail(m0, m1),
        action is Receive,
{
}

/// A queued track that cannot be opened ends playback with what the cause said.
pub proof fn law_queued_tracks_that_fail_say_why(
    d0: Deck,
    sh0: Shared,
    room: Room,
    d1: Deck,
    sh1: Shared,
    m0: Producer<TrackMarker>,
    m1: Producer<TrackMarker>,
    action: Action,
    track_id: u64,
    e: String,
)
    requires
        d0.phase == (Phase::OpeningNext { track_id }),
        turn(d0, sh0, Event::Opened(Err(e)), room, d1, sh1, m0, m1, action),
    ensures
        d1.current is None,
        sh1.ended,
        !sh1.playing,
        sh1.last_error == Some(e),
        d1.phase is Ready,
        d1.next_up == d0.next_up,
        m1 == m0,
        action == (Action::Receive { blocking: true }),
{
}

/// A decoder that fails ends playback with what it said; one that goes on changes
/// nothing.
pub proof fn law_decoding_goes_on_or_says_why_not(
    d0: Deck,
    sh0: Shared,
    room: Room,
    d1: Deck,
    sh1: Shared,
    m0: Producer<TrackMarker>,
    m1: Producer<TrackMarker>,
    action: Action,
    step: DecodeStep,
)
    requires
        !(step is Finished),
        turn(d0, sh0, Event::Decoded(step), room, d1, sh1, m0, m1, action),
    ensures
        step is Continued ==> sh1 == sh0 && d1.current == d0.current,
        step matches DecodeStep::Failed(e) ==> sh1.last_error == Some(e) && sh1.ended
            && !sh1.playing && d1.current is None,
        sh1.flush_version == sh0.flush_version,
        sh1.pos_frames == sh0.pos_frames,
        sh1.current_track == sh0.current_track,
        d1.phase is Ready,
        d1.next_up == d0.next_up,
        d1.written == d0.written,
        m1 == m0,
        action is Receive,
{
}

/// Play starts a loaded track, and does nothing without one.
pub proof fn law_play_starts_a_loaded_track(
    d0: Deck,
    sh0: Shared,
    room: Room,
    d1: Deck,
    sh1: Shared,
    m0: Producer<TrackMarker>,
    m1: Producer<TrackMarker>,
    action: Action,
)
    requires
        turn(d0, sh0, Event::Command(Cmd::Play), room, d1, sh1, m0, m1, action),
    ensures
        d0.current is Some ==> sh1.playing,
        d0.current is None ==> sh1 == sh0,
        sh1.pos_frames == sh0.pos_frames,
        sh1.flush_version == sh0.flush_version,
        sh1.ended == sh0.ended,
        sh1.current_track == sh0.current_track,
        sh1.last_error == sh0.last_error,
        d1 == d0,
        m1 == m0,
        action is Receive,
{
}

/// Pause stops playback and keeps everything where it is: track, queue, position and
/// queued audio.
pub proof fn law_pause_keeps_everything(
    d0: Deck,
    sh0: Shared,
    room: Room,
    d1: Deck,
    sh1: Shared,
    m0: Producer<TrackMarker>,
    m1: Producer<TrackMarker>,
    action: Action,
)
    requires
        turn(d0, sh0, Event::Command(Cmd::Pause), room, d1, sh1, m0, m1, action),
    ensures
        !sh1.playing,
        sh1.pos_frames == sh0.pos_frames,
        sh1.flush_version == sh0.flush_version,
        sh1.ended == sh0.ended,
        sh1.current_track == sh0.current_track,
        sh1.last_error == sh0.last_error,
        d1 == d0,
        m1 == m0,
        action == (Action::Receive { blocking: true }),
{
}

/// Stop ends playback, forgets the track and makes the queued audio stale; the queue
/// stays.
pub proof fn law_stop_forgets_the_track(
    d0: Deck,
    sh0: Shared,
    room: Room,
    d1: Deck,
    sh1: Shared,
    m0: Producer<TrackMarker>,
    m1: Producer<TrackMarker>,
    action: Action,
)
    requires
        turn(d0, sh0, Event::Command(Cmd::Stop), room, d1, sh1, m0, m1, action),
    ensures
        !sh1.playing,
        sh1.flush_version == sh0.flush_version.wrapping_add(1),
        sh1.ended == sh0.ended,
        sh1.last_error == sh0.last_error,
        d1.current is None,
        d1.next_up == d0.next_up,
        d1.written == d0.written,
        d1.phase == (Phase::Draining { then: AfterDrain::Rest }),
        m1 == m0,
        action == Action::Check,
{
}

/// Once the ring is empty after a stop, the deck is back to the commands, and nothing
/// was marked.
pub proof fn law_stop_ends_with_the_drain(
    d0: Deck,
    sh0: Shared,
    room: Room,
    d1: Deck,
    sh1: Shared,
    m0: Producer<TrackMarker>,
    m1: Producer<TrackMarker>,
    action: Action,
)
    requires
        d0.phase == (Phase::Draining { then: AfterDrain::Rest }),
        room.free >= room.slots,
        turn(d0, sh0, Event::Resumed, room, d1, sh1, m0, m1, action),
    ensures
        d1.phase is Ready,
        d1.current == d0.current,
        d1.next_up == d0.next_up,
        d1.written == d0.written,
        sh1 == sh0,
        m1 == m0,
        action is Receive,
{
}

/// With no command to follow, the next packet is decoded if and only if something
/// plays, a track is loaded, and the ring has room for two chunks of frames.
/// Otherwise nothing changes, and the deck waits for what is missing.
pub proof fn law_decodes_while_there_is_room(
    d0: Deck,
    sh0: Shared,
    room: Room,
    d1: Deck,
    sh1: Shared,
    m0: Producer<TrackMarker>,
    m1: Producer<TrackMarker>,
    action: Action,
)
    requires
        turn(d0, sh0, Event::NoCommand, room, d1, sh1, m0, m1, action),
    ensures
        action == Action::Decode <==> sh0.playing && d0.current is Some && room.free >= 2048
            * d0.out_channels,
        action == Action::Decode ==> d1.phase is Decoding,
        !sh0.playing ==> action == (Action::Receive { blocking: true }),
        sh0.playing && d0.current is None ==> action == Action::Wait(20),
        sh0.playing && d0.current is Some && room.free < 2048 * d0.out_channels ==> action
            == Action::Wait(4),
        action != Action::Decode ==> d1 == d0,
        d1.current == d0.current,
        d1.next_up == d0.next_up,
        d1.written == d0.written,
        sh1 == sh0,
        m1 == m0,
{
    assert(RESAMPLE_CHUNK * d0.out_channels * 2 == 2048 * d0.out_channels) by (nonlinear_arith)
        requires
            RESAMPLE_CHUNK == 1024,
    ;
}

/// Whatever happened, the decoder waits for a command if and only if it has nothing
/// else to do: no track, or nothing playing.
pub proof fn law_waits_for_commands_only_when_idle(
    d0: Deck,
    sh0: Shared,
    room: Room,
    d1: Deck,
    sh1: Shared,
    m0: Producer<TrackMarker>,
    m1: Producer<TrackMarker>,
    action: Action,
    event: Event,
    blocking: bool,
)
    requires
        d0.expects(event),
        action == (Action::Receive { blocking }),
        turn(d0, sh0, event, room, d1, sh1, m0, m1, action),
    ensures
        blocking <==> d1.current is None || !sh1.playing,
{
}

/// Queued audio is declared stale by a load, a stop and a seek, once each, and by
/// nothing else.
pub proof fn law_audio_goes_stale_for_a_reason(
    d0: Deck,
    sh0: Shared,
    room: Room,
    d1: Deck,
    sh1: Shared,
    m0: Producer<TrackMarker>,
    m1: Producer<TrackMarker>,
    action: Action,
    event: Event,
)
    requires
        d0.expects(event),
        turn(d0, sh0, event, room, d1, sh1, m0, m1, action),
    ensures
        sh1.flush_version == if event matches Event::Command(Cmd::Load { .. }) || event
            == Event::Command(Cmd::Stop) || event is Sought {
            sh0.flush_version.wrapping_add(1)
        } else {
            sh0.flush_version
        },
{
}

/// Every marker is offered at the frame where the decoder's timeline stands, one at a
/// time, and stays offered.
pub proof fn law_markers_stand_on_the_timeline(
    d0: Deck,
    sh0: Shared,
    room: Room,
    d1: Deck,
    sh1: Shared,
    m0: Producer<TrackMarker>,
    m1: Producer<TrackMarker>,
    action: Action,
    event: Event,
)
    requires
        d0.expects(event),
        turn(d0, sh0, event, room, d1, sh1, m0, m1, action),
    ensures
        m1 == m0 || (tried_markers(m1).len() == tried_markers(m0).len() + 1 && tried_markers(
            m1,
        ).drop_last() == tried_markers(m0) && tried_markers(m1).last().at_global_frame
            == d1.written),
{
    if m1 != m0 {
        assert(tried_markers(m1).drop_last() =~= tried_markers(m0));
    }
}

/// A wait that was not for the ring changes nothing.
pub proof fn law_waits_change_nothing(
    d0: Deck,
    sh0: Shared,
    room: Room,
    d1: Deck,
    sh1: Shared,
    m0: Producer<TrackMarker>,
    m1: Producer<TrackMarker>,
    action: Action,
)
    requires
        !(d0.phase is Draining),
        turn(d0, sh0, Event::Resumed, room, d1, sh1, m0, m1, action),
    ensures
        d1 == d0,
        sh1 == sh0,
        m1 == m0,
        action is Receive,
{
}

/// What has been sent, with the marker that was tried last behind it.
pub open spec fn tried_tail(
    before: Producer<TrackMarker>,
    after: Producer<TrackMarker>,
) -> Seq<TrackMarker> {
    sent_markers(before).push(tried_markers(after).last())
}

/// A run of the deck: turn `i` takes it from `before[i]` to `after[i]`. Between two
/// turns frames may be staged and written, but the queue and what the deck waits
/// for stay.
pub open spec fn is_deck_run(
    before: Seq<Deck>,
    shs: Seq<Shared>,
    events: Seq<Event>,
    rooms: Seq<Room>,
    after: Seq<Deck>,
    shs1: Seq<Shared>,
    txs: Seq<Producer<TrackMarker>>,
    txs1: Seq<Producer<TrackMarker>>,
    actions: Seq<Action>,
) -> bool {
    &&& forall|i: int|
        0 <= i < actions.len() ==> before[i].expects(events[i]) && turn(
            before[i],
            shs[i],
            events[i],
            rooms[i],
            after[i],
            shs1[i],
            txs[i],
            txs1[i],
            #[trigger] actions[i],
        )
    &&& forall|i: int|
        0 < i < actions.len() ==> (#[trigger] before[i]).next_up == after[i - 1].next_up
            && before[i].phase == after[i - 1].phase
}

/// Over a run, what was asked for last is what follows the track: where turn `i`
/// sets the queue, turn `j` ends a track, and no turn between them does either,
/// the queued track is opened then, or playback ends if none was queued.
pub proof fn law_the_last_request_for_the_queue_counts(
    before: Seq<Deck>,
    shs: Seq<Shared>,
    events: Seq<Event>,
    rooms: Seq<Room>,
    after: Seq<Deck>,
    shs1: Seq<Shared>,
    txs: Seq<Producer<TrackMarker>>,
    txs1: Seq<Producer<TrackMarker>>,
    actions: Seq<Action>,
    i: int,
    j: int,
    next: Option<(Source, u64)>,
)
    requires
        is_deck_run(before, shs, events, rooms, after, shs1, txs, txs1, actions),
        0 <= i < j < actions.len(),
        events[i] == Event::Command(Cmd::SetNext(next)),
        events[j] == Event::Decoded(DecodeStep::Finished),
        forall|k: int|
            i < k < j ==> !((#[trigger] events[k]) matches Event::Command(Cmd::SetNext(_)))
                && events[k] != Event::Decoded(DecodeStep::Finished),
    ensures
        next matches Some((source, id)) ==> actions[j] == Action::Open(source) && after[j].phase
            == (Phase::OpeningNext { track_id: id }),
        next is None ==> !(actions[j] is Open) && shs1[j].ended && !shs1[j].playing
            && after[j].current is None,
{
    lemma_queue_stays(before, shs, events, rooms, after, shs1, txs, txs1, actions, i, j, next);
    assert(turn(
        before[j],
        shs[j],
        events[j],
        rooms[j],
        after[j],
        shs1[j],
        txs[j],
        txs1[j],
        actions[j],
    ));
}

proof fn lemma_queue_stays(
    before: Seq<Deck>,
    shs: Seq<Shared>,
    events: Seq<Event>,
    rooms: Seq<Room>,
    after: Seq<Deck>,
    shs1: Seq<Shared>,
    txs: Seq<Producer<TrackMarker>>,
    txs1: Seq<Producer<TrackMarker>>,
    actions: Seq<Action>,
    i: int,
    j: int,
    next: Option<(Source, u64)>,
)
    requires
        is_deck_run(before, shs, events, rooms, after, shs1, txs, txs1, actions),
        0 <= i < j < actions.len(),
        events[i] == Event::Command(Cmd::SetNext(next)),
        forall|k: int|
            i < k < j ==> !((#[trigger] events[k]) matches Event::Command(Cmd::SetNext(_)))
                && events[k] != Event::Decoded(DecodeStep::Finished),
    ensures
        before[j].next_up == next,
    decreases j - i,
{
    let k = j - 1;
    assert(turn(
        before[k],
        shs[k],
        events[k],
        rooms[k],
        after[k],
        shs1[k],
        txs[k],
        txs1[k],
        actions[k],
    ));
    assert(before[j].next_up == after[k].next_up);
    if i < k {
        lemma_queue_stays(before, shs, events, rooms, after, shs1, txs, txs1, actions, i, k, next);
        assert(events[k] == events[k]);
        law_queue_waits_for_the_end_of_the_track(
            before[k],
            shs[k],
            rooms[k],
            after[k],
            shs1[k],
            txs[k],
            txs1[k],
            actions[k],
            events[k],
        );
    }
}

/// A load, from the command to the track: where the source can be opened, it is
/// the one that was asked for that is opened, under the id that was given, and it
/// plays if and only if it was asked to.
pub proof fn law_a_load_plays_what_was_asked_for(
    d0: Deck,
    sh0: Shared,
    source: Source,
    track_id: u64,
    autoplay: bool,
    rooms: (Room, Room, Room),
    d1: Deck,
    sh1: Shared,
    a1: Action,
    d2: Deck,
    sh2: Shared,
    a2: Action,
    p: Playing,
    d3: Deck,
    sh3: Shared,
    a3: Action,
    m0: Producer<TrackMarker>,
    m1: Producer<TrackMarker>,
    m2: Producer<TrackMarker>,
    m3: Producer<TrackMarker>,
)
    requires
        d0.phase is Ready,
        turn(
            d0,
            sh0,
            Event::Command(Cmd::Load { source, track_id, autoplay }),
            rooms.0,
            d1,
            sh1,
            m0,
            m1,
            a1,
        ),
        rooms.1.free >= rooms.1.slots,
        turn(d1, sh1, Event::Resumed, rooms.1, d2, sh2, m1, m2, a2),
        turn(d2, sh2, Event::Opened(Ok(p)), rooms.2, d3, sh3, m2, m3, a3),
    ensures
        a2 == Action::Open(source),
        sh3.playing == autoplay,
        sh3.current_track == track_id,
        sh3.pos_frames == 0,
        !sh3.ended,
        d3.current matches Some(q) && q.id == track_id && q.track_id == p.track_id,
        d3.written == sh0.played_frames,
        d3.phase is Ready,
        tried_markers(m3) == tried_markers(m0).push(
            TrackMarker {
                at_global_frame: sh0.played_frames,
                track_id,
                track_start_frame: 0,
            },
        ),
{
}

/// What a turn says that it sets does not depend on what was there before, so
/// that it can be stored whatever another thread has written meanwhile: two turns
/// that differ only in what they find there leave the same.
pub proof fn law_what_a_turn_sets_is_its_own(
    d0: Deck,
    sh0: Shared,
    other0: Shared,
    event: Event,
    room: Room,
    d1: Deck,
    sh1: Shared,
    other1: Shared,
    m0: Producer<TrackMarker>,
    m1: Producer<TrackMarker>,
    n1: Producer<TrackMarker>,
    action: Action,
    other_action: Action,
    e1: Deck,
)
    requires
        d0.expects(event),
        turn(d0, sh0, event, room, d1, sh1, m0, m1, action),
        turn(d0, other0, event, room, e1, other1, m0, n1, other_action),
    ensures
        ({
            let w = writes_of(d0, event, room);
            &&& w.playing ==> sh1.playing == other1.playing
            &&& w.pos_frames ==> sh1.pos_frames == other1.pos_frames
            &&& w.current_track ==> sh1.current_track == other1.current_track
            &&& w.ended ==> sh1.ended == other1.ended
            &&& w.last_error ==> sh1.last_error == other1.last_error
            &&& w.flush_version ==> sh1.flush_version == sh0.flush_version.wrapping_add(1)
        }),
{
}

/// Asking for a flush gives the shared state a version that was not seen before,
/// and changes nothing else.
pub proof fn law_flush_requests_are_new(sh: Shared)
    ensures
        flush_asked(sh).flush_version != sh.flush_version,
        flush_asked(sh).flush_version == sh.flush_version.wrapping_add(1),
        flush_asked(sh) == (Shared { flush_version: flush_asked(sh).flush_version, ..sh }),
{
}

/// A seek lands where the demuxer says, in ticks of the track's own rate, or else
/// at the seconds that were asked for. Ticks are never counted by zero.
pub proof fn law_landings_are_where_the_demuxer_says(
    deck: Deck,
    actual_ts: Option<u64>,
    p: Playing,
    secs: u64,
)
    requires
        deck.current == Some(p),
        deck.phase == (Phase::Seeking { secs }),
    ensures
        actual_ts is None ==> landing_of(deck, actual_ts) == Landing::Seconds(secs),
        actual_ts matches Some(ts) ==> landing_of(deck, actual_ts) matches Landing::Ticks {
            ts: t,
            per_second,
        } && t == ts && per_second > 0 && (p.src_rate > 0 ==> per_second == p.src_rate),
{
}

/// A track that was just opened as its stream was planned.
pub open spec fn just_opened(p: Playing, track_id: u32, plan: StreamPlan) -> bool {
    &&& p.track_id == track_id
    &&& p.src_rate == plan.src_rate
    &&& p.stage.wf()
    &&& p.stage.depth() == 0
    &&& p.stage.chans@.len() == plan.src_channels
    &&& p.id == 0
}

/// A deck with nothing loaded, for a device of so many channels.
pub open spec fn is_empty_deck(deck: Deck, out_channels: usize) -> bool {
    &&& deck.current is None
    &&& deck.next_up is None
    &&& deck.written == 0
    &&& deck.out_channels == out_channels
    &&& deck.phase is Ready
}

/// So many frames were pushed into the ring.
pub open spec fn counted(d0: Deck, frames: u64, d1: Deck) -> bool {
    d1 == Deck { written: (d0.written + frames) as u64, ..d0 }
}

/// The UI finds `e` as what went wrong last.
pub open spec fn complained(sh0: Shared, e: Option<String>, sh1: Shared) -> bool {
    sh1 == Shared { last_error: e, ..sh0 }
}

/// A track is opened with an empty stage: one buffer for each channel of the
/// stream, and no sample in any of them.
pub proof fn law_tracks_are_opened_with_an_empty_stage(
    p: Playing,
    track_id: u32,
    plan: StreamPlan,
    c: int,
)
    requires
        just_opened(p, track_id, plan),
    ensures
        p.track_id == track_id,
        p.src_rate == plan.src_rate,
        p.stage.chans@.len() == plan.src_channels,
        0 <= c < plan.src_channels ==> p.stage.chans@[c]@.len() == 0,
        p.id == 0,
{
}

/// A deck with nothing loaded waits for a command: it opens nothing, decodes
/// nothing and seeks nowhere before it has been told to load a track.
pub proof fn law_empty_decks_wait_for_a_load(
    d0: Deck,
    out_channels: usize,
    sh0: Shared,
    event: Event,
    room: Room,
    d1: Deck,
    sh1: Shared,
    m0: Producer<TrackMarker>,
    m1: Producer<TrackMarker>,
    action: Action,
)
    requires
        is_empty_deck(d0, out_channels),
        !sh0.playing,
        d0.expects(event),
        turn(d0, sh0, event, room, d1, sh1, m0, m1, action),
        event matches Event::Command(cmd) ==> !(cmd is Load) && !(cmd is Stop),
    ensures
        action == (Action::Receive { blocking: true }),
        !sh1.playing,
        d1.current is None,
        d1.written == 0,
        d1.out_channels == out_channels,
        d1.next_up is Some ==> (event matches Event::Command(cmd) && cmd == Cmd::SetNext(d1.next_up)),
{
}

/// Counting in two steps is counting at once, and touches nothing but the count.
pub proof fn law_written_frames_add_up(
    d0: Deck,
    a: u64,
    d1: Deck,
    b: u64,
    d2: Deck,
)
    requires
        d0.written + a + b <= u64::MAX,
        counted(d0, a, d1),
        counted(d1, b, d2),
    ensures
        d2.written == d0.written + a + b,
        d1.written == d0.written + a,
        d2.current == d0.current && d2.next_up == d0.next_up && d2.phase == d0.phase
            && d2.out_channels == d0.out_channels,
{
}

/// What went wrong last is what the UI finds, and the player is left as it was.
pub proof fn law_the_last_complaint_counts(
    sh0: Shared,
    a: Option<String>,
    sh1: Shared,
    b: Option<String>,
    sh2: Shared,
)
    requires
        complained(sh0, a, sh1),
        complained(sh1, b, sh2),
    ensures
        sh1.last_error == a,
        sh2.last_error == b,
        sh2.playing == sh0.playing && sh2.ended == sh0.ended && sh2.pos_frames == sh0.pos_frames
            && sh2.current_track == sh0.current_track && sh2.flush_version == sh0.flush_version,
{
}

/// What a turn asks for is what the next one can be told of: whoever carries an
/// action out may report what came of it.
pub proof fn law_what_was_asked_for_can_be_reported(
    d0: Deck,
    sh0: Shared,
    event: Event,
    room: Room,
    d1: Deck,
    sh1: Shared,
    m0: Producer<TrackMarker>,
    m1: Producer<TrackMarker>,
    action: Action,
    cmd: Cmd,
    e: String,
    target: u64,
    step: DecodeStep,
)
    requires
        d0.expects(event),
        turn(d0, sh0, event, room, d1, sh1, m0, m1, action),
    ensures
        action is Receive ==> d1.expects(Event::Command(cmd)) && d1.expects(Event::NoCommand),
        action is Check || action is Wait ==> d1.expects(Event::Resumed),
        action is Open ==> d1.expects(Event::Opened(Err(e))),
        action is Seek ==> d1.expects(Event::Sought { target }),
        action is Decode ==> d1.expects(Event::Decoded(step)),
        !(action is Receive) ==> !d1.expects(Event::Command(cmd)) || action is Wait,
{
}

/// A boundary is marked once: it was offered to the ring, and either stands there
/// now, behind all others, or found no room. Others stay as they were.
pub proof fn law_boundaries_are_marked_once(
    before: Producer<TrackMarker>,
    m: TrackMarker,
    after: Producer<TrackMarker>,
)
    requires
        marked(before, m, after),
    ensures
        tried_markers(after).len() == tried_markers(before).len() + 1,
        tried_markers(after).last() == m,
        sent_markers(after).len() <= sent_markers(before).len() + 1,
        sent_markers(after).len() == sent_markers(before).len() + 1 ==> sent_markers(after).last()
            == m,
        sent_markers(before).is_prefix_of(sent_markers(after)),
        sent_markers(after).is_prefix_of(all_markers(before)),
        noticed_marker_room(before) > 0 ==> sent_markers(after).len() == sent_markers(before).len()
            + 1,
{
}

} // verus!
