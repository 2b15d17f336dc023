//! What the analyser looks at, and when the UI hears of it.

use rtrb::Consumer;
use vstd::prelude::*;

use crate::rings::{
    count_samples, noticed_samples, sample_looks, take_samples, upcoming_samples,
};
use crate::shared::{starts, Shared};

verus! {

/// Samples that one spectrum is computed from.
pub const FFT_SIZE: usize = 1024;

/// Bars of the visualiser.
pub const SPECTRUM_BARS: usize = 64;

/// Nanoseconds, at least, between two reports while nothing plays: half a second.
pub const IDLE_REPORT: u64 = 500_000_000;

/// Whether to report to the UI.
#[derive(Clone, Copy, Debug, PartialEq, Eq)]
pub enum Report {
    Skip,
    Send,
    /// Send, though nothing plays and nothing has changed.
    SendIdle,
}

/// The analyser's memory: the newest samples, the track it last saw, and when it
/// last reported while idle. Times are nanoseconds since it was made.
pub struct Monitor {
    pub window: Vec<u32>,
    pub last_track: u64,
    pub last_idle: u64,
}

/// The newest `n` samples of `s`.
pub open spec fn newest(s: Seq<u32>, n: nat) -> Seq<u32> {
    s.skip(s.len() - n)
}

/// Takes everything that is in the ring.
pub fn take_all(rx: &mut Consumer<u32>) -> (samples: Vec<u32>)
    ensures
        noticed_samples(*old(rx)) <= samples@.len(),
        noticed_samples(*final(rx)) == 0,
        sample_looks(*final(rx)) == sample_looks(*old(rx)).push(samples@.len()),
        samples@.len() <= upcoming_samples(*old(rx)).len(),
        samples@ == upcoming_samples(*old(rx)).take(samples@.len() as int),
        upcoming_samples(*final(rx)) == upcoming_samples(*old(rx)).skip(samples@.len() as int),
        took_all(*old(rx), samples@, *final(rx)),
{
    let ghost ahead = upcoming_samples(*rx);
    let n = count_samples(rx);
    let mut samples: Vec<u32> = Vec::new();
    while samples.len() < n
        invariant
            samples@.len() <= n,
        decreases n - samples@.len(),
    {
        samples.push(0);
    }
    take_samples(rx, samples.as_mut_slice(), n);
    assert(samples@ =~= ahead.take(n as int));
    assert(ahead =~= samples@ + upcoming_samples(*rx));
    samples
}

impl Monitor {
    /// The window always holds as many samples as a spectrum takes.
    pub open spec fn wf(self) -> bool {
        self.window@.len() == FFT_SIZE
    }

    /// A window of silence.
    pub fn new() -> (m: Self)
        ensures
            m.wf(),
            m.window@ == Seq::new(FFT_SIZE as nat, |i: int| 0u32),
            m.last_track == 0,
            m.last_idle == 0,
            is_new(m),
    {
        let mut window: Vec<u32> = Vec::new();
        while window.len() < FFT_SIZE
            invariant
                window@.len() <= FFT_SIZE,
                window@ == Seq::new(window@.len(), |i: int| 0u32),
            decreases FFT_SIZE - window@.len(),
        {
            window.push(0);
        }
        Monitor { window, last_track: 0, last_idle: 0 }
    }

    /// Takes in what the callback produced; only the newest window is kept.
    pub fn absorb(&mut self, joined: &[u32])
        requires
            old(self).wf(),
        ensures
            final(self).wf(),
            final(self).window@ == newest(old(self).window@ + joined@, FFT_SIZE as nat),
            final(self).last_track == old(self).last_track,
            final(self).last_idle == old(self).last_idle,
    {
        let n = joined.len();
        let take = if n <= FFT_SIZE {
            n
        } else {
            FFT_SIZE
        };
        let ghost whole = self.window@ + joined@;
        let mut fresh: Vec<u32> = Vec::new();
        let mut i = take;
        while i < FFT_SIZE
            invariant
                take <= i <= FFT_SIZE,
                self.window@.len() == FFT_SIZE,
                fresh@ == self.window@.subrange(take as int, i as int),
            decreases FFT_SIZE - i,
        {
            fresh.push(self.window[i]);
            assert(self.window@.subrange(take as int, i + 1) =~= self.window@.subrange(
                take as int,
                i as int,
            ).push(self.window@[i as int]));
            i += 1;
        }
        let ghost kept = self.window@.subrange(take as int, FFT_SIZE as int);
        let mut j = n - take;
        while j < n
            invariant
                n - take <= j <= n,
                take <= n,
                n == joined@.len(),
                fresh@ == kept + joined@.subrange(n - take, j as int),
            decreases n - j,
        {
            fresh.push(joined[j]);
            assert(joined@.subrange(n - take, j + 1) =~= joined@.subrange(
                n - take,
                j as int,
            ).push(joined@[j as int]));
            j += 1;
        }
        assert(fresh@ =~= newest(whole, FFT_SIZE as nat));
        self.window = fresh;
    }

    /// Whether to report to the UI at the time `now`. While idle, reports are
    /// rare: just enough to keep the UI in sync.
    pub fn report(&mut self, sh: &Shared, now: u64) -> (r: Report)
        ensures
            reported(*old(self), *sh, now, *final(self), r),
    {
        let changed = sh.current_track != self.last_track;
        self.last_track = sh.current_track;
        if sh.playing || sh.ended || changed {
            Report::Send
        } else if now < self.last_idle || now - self.last_idle < IDLE_REPORT {
            Report::Skip
        } else {
            self.last_idle = now;
            Report::SendIdle
        }
    }
}

/// What is decided on at the time `now`, and what is remembered of it.
pub open spec fn reported(m0: Monitor, sh: Shared, now: u64, m1: Monitor, r: Report) -> bool {
    &&& r == if sh.playing || sh.ended || sh.current_track != m0.last_track {
        Report::Send
    } else if now - m0.last_idle < IDLE_REPORT {
        Report::Skip
    } else {
        Report::SendIdle
    }
    &&& m1 == Monitor {
        last_track: sh.current_track,
        last_idle: if r == Report::SendIdle {
            now
        } else {
            m0.last_idle
        },
        ..m0
    }
}

/// A run of the analyser: decision `i` is made at the time `times[i]` and takes
/// it from `before[i]` to `after[i]`. Between two decisions it may take in
/// samples, but remembers the rest.
pub open spec fn is_run(
    before: Seq<Monitor>,
    states: Seq<Shared>,
    times: Seq<u64>,
    after: Seq<Monitor>,
    reports: Seq<Report>,
) -> bool {
    &&& forall|i: int|
        0 <= i < reports.len() ==> reported(
            before[i],
            states[i],
            times[i],
            after[i],
            #[trigger] reports[i],
        )
    &&& forall|i: int|
        0 < i < reports.len() ==> (#[trigger] before[i]).last_idle == after[i - 1].last_idle
            && before[i].last_track == after[i - 1].last_track
}

/// Over a run, any two reports that are made while nothing plays, has ended or
/// has changed are at least half a second apart.
pub proof fn law_idle_reports_are_rare(
    before: Seq<Monitor>,
    states: Seq<Shared>,
    times: Seq<u64>,
    after: Seq<Monitor>,
    reports: Seq<Report>,
    i: int,
    j: int,
)
    requires
        is_run(before, states, times, after, reports),
        0 <= i < j < reports.len(),
        reports[i] == Report::SendIdle,
        reports[j] == Report::SendIdle,
    ensures
        times[j] - times[i] >= IDLE_REPORT,
{
    lemma_idle_time_rises(before, states, times, after, reports, i, j);
}

/// The time of the last idle report never goes back.
proof fn lemma_idle_time_rises(
    before: Seq<Monitor>,
    states: Seq<Shared>,
    times: Seq<u64>,
    after: Seq<Monitor>,
    reports: Seq<Report>,
    i: int,
    j: int,
)
    requires
        is_run(before, states, times, after, reports),
        0 <= i < j < reports.len(),
    ensures
        after[i].last_idle <= before[j].last_idle,
    decreases j - i,
{
    if i + 1 < j {
        lemma_idle_time_rises(before, states, times, after, reports, i, j - 1);
        assert(reported(
            before[j - 1],
            states[j - 1],
            times[j - 1],
            after[j - 1],
            reports[j - 1],
        ));
    }
}

/// The smaller of two numbers.
pub open spec fn least(a: int, b: int) -> int {
    if a <= b {
        a
    } else {
        b
    }
}

/// The bins of a bar: the first, and the one behind the last.
pub open spec fn bins_of(lo: int, hi: int, n: int) -> (int, int) {
    (
        if n == 0 {
            0
        } else {
            least(lo, n - 1)
        },
        least(
            if hi > lo {
                hi
            } else {
                lo + 1
            },
            n,
        ),
    )
}

/// The bins of the bar that was computed as `lo..hi`, among `n` of them: at
/// least one, and none that does not exist.
pub fn bar_bins(lo: usize, hi: usize, n: usize) -> (bins: (usize, usize))
    requires
        lo < usize::MAX,
    ensures
        bins.0 == if n == 0 {
            0
        } else {
            least(lo as int, n - 1)
        },
        bins.1 == least(
            if hi > lo {
                hi as int
            } else {
                lo + 1
            },
            n as int,
        ),
        n > 0 ==> bins.0 < bins.1,
        bins.0 <= bins.1 <= n,
        bins.0 == bins_of(lo as int, hi as int, n as int).0,
        bins.1 == bins_of(lo as int, hi as int, n as int).1,
{
    let at_least = if hi > lo {
        hi
    } else {
        lo + 1
    };
    let end = if at_least < n {
        at_least
    } else {
        n
    };
    let last = if n == 0 {
        0
    } else {
        n - 1
    };
    (
        if lo < last {
            lo
        } else {
            last
        },
        end,
    )
}

/// Taking in samples in two pieces leaves the same window as taking them in at
/// once.
pub proof fn law_window_keeps_the_newest(window: Seq<u32>, a: Seq<u32>, b: Seq<u32>)
    requires
        window.len() == FFT_SIZE,
    ensures
        newest(newest(window + a, FFT_SIZE as nat) + b, FFT_SIZE as nat) == newest(
            window + (a + b),
            FFT_SIZE as nat,
        ),
{
    assert(newest(newest(window + a, FFT_SIZE as nat) + b, FFT_SIZE as nat) =~= newest(
        window + (a + b),
        FFT_SIZE as nat,
    ));
}

/// Sample by sample, what the window holds once samples have come in: they stand
/// at its end, in their order, and the newest of what it held before them. The
/// oldest are gone.
pub proof fn law_window_holds_the_newest_in_order(window: Seq<u32>, joined: Seq<u32>, i: int)
    requires
        window.len() == 1024,
        0 <= i < 1024,
    ensures
        newest(window + joined, FFT_SIZE as nat).len() == 1024,
        i + joined.len() < 1024 ==> newest(window + joined, FFT_SIZE as nat)[i] == window[i
            + joined.len()],
        i + joined.len() >= 1024 ==> newest(window + joined, FFT_SIZE as nat)[i] == joined[i
            + joined.len() - 1024],
{
}

/// The UI hears at once of everything that matters: while something plays, when a
/// track has ended, and when the track has changed.
pub proof fn law_what_matters_is_reported(m0: Monitor, sh: Shared, now: u64, m1: Monitor, r: Report)
    requires
        reported(m0, sh, now, m1, r),
    ensures
        r == Report::Send <==> sh.playing || sh.ended || sh.current_track != m0.last_track,
        m1.last_track == sh.current_track,
        m1.window == m0.window,
{
}

/// While idle, the UI hears again once half a second has passed since it last
/// did, and not before.
pub proof fn law_idle_players_report_in_time(m0: Monitor, sh: Shared, now: u64, m1: Monitor, r: Report)
    requires
        reported(m0, sh, now, m1, r),
        !sh.playing,
        !sh.ended,
        sh.current_track == m0.last_track,
    ensures
        now >= m0.last_idle + 500_000_000 ==> r == Report::SendIdle && m1.last_idle == now,
        now < m0.last_idle + 500_000_000 ==> r == Report::Skip && m1.last_idle == m0.last_idle,
{
}

/// A change of track is reported once: with nothing else to tell, the next
/// decision is not to report it again.
pub proof fn law_changes_are_reported_once(
    m0: Monitor,
    sh0: Shared,
    now0: u64,
    m1: Monitor,
    r0: Report,
    n1: Monitor,
    sh1: Shared,
    now1: u64,
    m2: Monitor,
    r1: Report,
)
    requires
        reported(m0, sh0, now0, m1, r0),
        n1.last_track == m1.last_track,
        reported(n1, sh1, now1, m2, r1),
    ensures
        r1 == Report::Send ==> sh1.playing || sh1.ended || sh1.current_track
            != sh0.current_track,
        sh1.current_track != sh0.current_track ==> r1 == Report::Send,
{
}

/// A bar shows at least one bin, and none that does not exist; where the bins it
/// was computed as exist, it shows those.
pub proof fn law_bars_show_bins_that_exist(lo: int, hi: int, n: int)
    requires
        0 <= lo,
        0 <= hi,
        0 < n,
    ensures
        0 <= bins_of(lo, hi, n).0 < bins_of(lo, hi, n).1 <= n,
        lo < hi <= n ==> bins_of(lo, hi, n) == (lo, hi),
        lo < n ==> bins_of(lo, hi, n).0 == lo,
        hi <= lo < n ==> bins_of(lo, hi, n).1 == lo + 1,
{
}

/// What was in the ring is taken out of it.
pub open spec fn took_all(rx0: Consumer<u32>, samples: Seq<u32>, rx1: Consumer<u32>) -> bool {
    &&& noticed_samples(rx0) <= samples.len()
    &&& noticed_samples(rx1) == 0
    &&& sample_looks(rx1) == sample_looks(rx0).push(samples.len())
    &&& samples.len() <= upcoming_samples(rx0).len()
    &&& upcoming_samples(rx0) == samples + upcoming_samples(rx1)
}

/// The analyser's memory at start-up.
pub open spec fn is_new(m: Monitor) -> bool {
    &&& m.window@ == Seq::new(FFT_SIZE as nat, |i: int| 0u32)
    &&& m.last_track == 0
    &&& m.last_idle == 0
}

/// What the look at the ring found is taken, all of it and in its order, and
/// nothing else is: taking twice takes what came one after the other.
pub proof fn law_nothing_is_left_behind(
    rx0: Consumer<u32>,
    a: Seq<u32>,
    rx1: Consumer<u32>,
    b: Seq<u32>,
    rx2: Consumer<u32>,
)
    requires
        took_all(rx0, a, rx1),
        took_all(rx1, b, rx2),
    ensures
        a.len() == sample_looks(rx1).last(),
        b.len() == sample_looks(rx2).last(),
        upcoming_samples(rx0) == a + b + upcoming_samples(rx2),
        noticed_samples(rx2) == 0,
{
    assert(a + (b + upcoming_samples(rx2)) =~= a + b + upcoming_samples(rx2));
}

/// The analyser starts on silence, and its first report is of what plays.
pub proof fn law_the_analyser_starts_on_silence(
    m0: Monitor,
    sh: Shared,
    now: u64,
    m1: Monitor,
    r: Report,
    i: int,
)
    requires
        is_new(m0),
        reported(m0, sh, now, m1, r),
    ensures
        m0.window@.len() == 1_024,
        0 <= i < 1_024 ==> m0.window@[i] == 0,
        sh.current_track != 0 ==> r == Report::Send,
        starts(sh) ==> (r == Report::SendIdle <==> now >= 500_000_000),
{
}

} // verus!
