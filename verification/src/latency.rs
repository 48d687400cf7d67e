//! Latency measurement: bursts, round trips, percentiles.
use vstd::prelude::*;
use crate::text::{append_decimal, append_decimal4, decimal, decimal4};

verus! {

/// A round trip longer than this, in nanoseconds, is no detection of the burst.
pub const MAX_PLAUSIBLE_RTT: u64 = 1_000_000_000;

/// How far bursts are apart, in nanoseconds.
pub const BURST_PERIOD: u64 = 500_000_000;

/// The round trip at the 99th percentile must stay below this, in microseconds.
pub const GATE_MICROS: u64 = 80_000;

/// When bursts are emitted and heard. Instants are in nanoseconds.
#[derive(Debug)]
pub struct BurstWatch {
    next: u64,
    emitted: Option<u64>,
}

/// What a [`BurstWatch`] stands for.
#[verifier::ext_equal]
pub struct BurstView {
    /// When the next burst is due.
    pub next: u64,
    /// The burst that has not been heard yet.
    pub emitted: Option<u64>,
}

impl View for BurstWatch {
    type V = BurstView;

    closed spec fn view(&self) -> BurstView {
        BurstView { next: self.next, emitted: self.emitted }
    }
}

/// The instant one burst period later, as far as the clock goes.
pub open spec fn one_period_later(now: u64) -> u64 {
    if now + BURST_PERIOD > u64::MAX {
        u64::MAX
    } else {
        (now + BURST_PERIOD) as u64
    }
}

/// A watch that starts now: the first burst is one period off.
pub open spec fn new_watch(now: u64) -> BurstView {
    BurstView { next: one_period_later(now), emitted: None }
}

/// What a look at the clock does, and whether a burst is due.
pub open spec fn burst_polled(w: BurstView, now: u64) -> (BurstView, bool) {
    if now >= w.next {
        (BurstView { next: one_period_later(now), emitted: Some(now) }, true)
    } else {
        (w, false)
    }
}

/// What something loud does, and the round trip, where it is the burst.
pub open spec fn burst_heard(w: BurstView, now: u64) -> (BurstView, Option<u64>) {
    match w.emitted {
        Some(at) => if now - at < MAX_PLAUSIBLE_RTT {
            (
                BurstView { emitted: None, ..w },
                Some(
                    if now >= at {
                        (now - at) as u64
                    } else {
                        0
                    },
                ),
            )
        } else {
            (w, None)
        },
        None => (w, None),
    }
}

impl BurstWatch {
    pub fn new(now: u64) -> (r: BurstWatch)
        ensures
            r@ == new_watch(now),
    {
        BurstWatch { next: now.saturating_add(BURST_PERIOD), emitted: None }
    }

    /// Whether a burst is to be emitted now. It replaces one that has not been
    /// heard.
    pub fn poll(&mut self, now: u64) -> (r: bool)
        ensures
            (final(self)@, r) == burst_polled(old(self)@, now),
    {
        if now >= self.next {
            self.emitted = Some(now);
            self.next = now.saturating_add(BURST_PERIOD);
            true
        } else {
            false
        }
    }

    /// Something loud was heard: the round trip of the burst, in nanoseconds,
    /// where one is out and the trip is plausible. Each burst is heard once.
    pub fn heard(&mut self, now: u64) -> (r: Option<u64>)
        ensures
            (final(self)@, r) == burst_heard(old(self)@, now),
    {
        match self.emitted {
            Some(at) => {
                let rtt: u64 = now.saturating_sub(at);
                if rtt < MAX_PLAUSIBLE_RTT {
                    self.emitted = None;
                    Some(rtt)
                } else {
                    None
                }
            },
            None => None,
        }
    }
}

/// How often progress is reported, in nanoseconds.
pub const REPORT_PERIOD: u64 = 30_000_000_000;

/// The instant that many seconds later, as far as the clock goes.
pub open spec fn seconds_later(start: u64, secs: u64) -> u64 {
    if start + secs * 1_000_000_000 > u64::MAX {
        u64::MAX
    } else {
        (start + secs * 1_000_000_000) as u64
    }
}

/// When a run ends, and when it reports. Instants are in nanoseconds.
#[derive(Debug)]
pub struct RunClock {
    start: u64,
    deadline: u64,
    reported: u64,
}

/// What a [`RunClock`] stands for.
#[verifier::ext_equal]
pub struct ClockView {
    pub start: u64,
    pub deadline: u64,
    /// When progress was last reported.
    pub reported: u64,
}

impl View for RunClock {
    type V = ClockView;

    closed spec fn view(&self) -> ClockView {
        ClockView { start: self.start, deadline: self.deadline, reported: self.reported }
    }
}

/// A run of so many seconds.
pub open spec fn new_run(start: u64, now: u64, run_secs: u64) -> ClockView {
    ClockView { start, deadline: seconds_later(start, run_secs), reported: now }
}

/// Whether a run is over.
pub open spec fn run_over(c: ClockView, now: u64) -> bool {
    now >= c.deadline
}

/// What a look at the clock does to a run, and the whole seconds since its
/// start, where a report is due.
pub open spec fn clock_report(c: ClockView, now: u64) -> (ClockView, Option<u64>) {
    if now - c.reported >= REPORT_PERIOD {
        (
            ClockView { reported: now, ..c },
            Some(((now - c.start) / 1_000_000_000) as u64),
        )
    } else {
        (c, None)
    }
}

impl RunClock {
    /// A run of `run_secs` seconds that began at `start`; the first report is
    /// one period after `now`.
    pub fn new(start: u64, now: u64, run_secs: u64) -> (r: RunClock)
        ensures
            r@ == new_run(start, now, run_secs),
    {
        let span: u64 = match run_secs.checked_mul(1_000_000_000) {
            Some(n) => n,
            None => u64::MAX,
        };
        RunClock { start, deadline: start.saturating_add(span), reported: now }
    }

    /// Whether the run is over.
    pub fn is_over(&self, now: u64) -> (r: bool)
        ensures
            r == run_over(self@, now),
    {
        now >= self.deadline
    }

    /// The whole seconds since the start, where a report is due.
    pub fn report(&mut self, now: u64) -> (r: Option<u64>)
        requires
            now >= old(self)@.start,
        ensures
            (final(self)@, r) == clock_report(old(self)@, now),
    {
        if now.saturating_sub(self.reported) >= REPORT_PERIOD {
            self.reported = now;
            Some((now - self.start) / 1_000_000_000)
        } else {
            None
        }
    }
}

/// A progress report.
pub fn progress_line(elapsed_secs: u64, detections: usize) -> (r: String)
    ensures
        r@ == "["@ + decimal4(elapsed_secs as nat) + "s] detections so far: "@ + decimal(
            detections as nat,
        ),
{
    let mut out = String::new();
    out.append("[");
    append_decimal4(&mut out, elapsed_secs as u128);
    out.append("s] detections so far: ");
    append_decimal(&mut out, detections as u128);
    out
}

// ---------- Statistics ----------

/// Whether the numbers are in ascending order.
pub open spec fn ascending(s: Seq<u64>) -> bool {
    forall|i: int, j: int| 0 <= i <= j < s.len() ==> s[i] <= s[j]
}

/// Whether `s` holds the numbers of `v` in ascending order.
pub open spec fn sorts(s: Seq<u64>, v: Seq<u64>) -> bool {
    ascending(s) && s.to_multiset() == v.to_multiset()
}

/// `slice::sort_unstable`: afterwards the vector holds the same numbers in
/// ascending order.
#[verifier::external_body]
fn sort(v: &mut Vec<u64>)
    ensures
        sorts(final(v)@, old(v)@),
{
    v.sort_unstable()
}

/// The number below which `p` percent of the ordered numbers lie: the one at
/// that share of the length, or the last; nothing gives 0.
pub open spec fn percentile_of(sorted: Seq<u64>, p: nat) -> u64 {
    if sorted.len() == 0 {
        0
    } else {
        let idx = sorted.len() * p / 100;
        sorted[if idx < sorted.len() {
            idx as int
        } else {
            sorted.len() - 1
        }]
    }
}

pub fn percentile(sorted: &[u64], p: u64) -> (r: u64)
    ensures
        r == percentile_of(sorted@, p as nat),
{
    if sorted.len() == 0 {
        return 0;
    }
    proof {
        assert(sorted@.len() * p <= 0xffff_ffff_ffff_ffff * 0xffff_ffff_ffff_ffff)
            by (nonlinear_arith)
            requires
                0 <= sorted@.len() <= 0xffff_ffff_ffff_ffff,
                0 <= p <= 0xffff_ffff_ffff_ffff,
        ;
    }
    let idx: u128 = sorted.len() as u128 * p as u128 / 100;
    if idx < sorted.len() as u128 {
        sorted[idx as usize]
    } else {
        sorted[sorted.len() - 1]
    }
}

/// Percentiles of a list of microseconds.
#[derive(Debug, Clone, Copy, PartialEq, Eq, Structural)]
pub struct Summary {
    pub min: u64,
    pub p50: u64,
    pub p95: u64,
    pub p99: u64,
    pub max: u64,
    /// Whether the 99th percentile is within `GATE_MICROS`.
    pub pass: bool,
}

/// The summary of an ordered list that is not empty.
pub open spec fn summary_of(s: Seq<u64>) -> Summary {
    Summary {
        min: s[0],
        p50: percentile_of(s, 50),
        p95: percentile_of(s, 95),
        p99: percentile_of(s, 99),
        max: s.last(),
        pass: percentile_of(s, 99) < GATE_MICROS,
    }
}

/// The summary of a list of microseconds; nothing for an empty list.
pub fn summarize(micros: Vec<u64>) -> (r: Option<Summary>)
    ensures
        match r {
            Some(sum) => micros@.len() > 0 && exists|s: Seq<u64>|
                #[trigger] sorts(s, micros@) && sum == summary_of(s),
            None => micros@.len() == 0,
        },
{
    if micros.len() == 0 {
        return None;
    }
    let mut v = micros;
    sort(&mut v);
    proof {
        v@.to_multiset_ensures();
        micros@.to_multiset_ensures();
        assert(v@.len() == micros@.len());
        assert(sorts(v@, micros@));
    }
    let p99: u64 = percentile(v.as_slice(), 99);
    Some(
        Summary {
            min: v[0],
            p50: percentile(v.as_slice(), 50),
            p95: percentile(v.as_slice(), 95),
            p99,
            max: v[v.len() - 1],
            pass: p99 < GATE_MICROS,
        },
    )
}

/// The gaps between consecutive instants, in whole microseconds.
pub open spec fn gaps(ts: Seq<u64>) -> Seq<u64> {
    Seq::new(
        (if ts.len() > 0 {
            ts.len() - 1
        } else {
            0
        }) as nat,
        |i: int|
            if ts[i + 1] >= ts[i] {
                ((ts[i + 1] - ts[i]) / 1000) as u64
            } else {
                0
            },
    )
}

/// The gaps between consecutive instants, in whole microseconds.
pub fn intervals(ts: &[u64]) -> (r: Vec<u64>)
    ensures
        r@ == gaps(ts@),
{
    let mut out: Vec<u64> = Vec::new();
    let mut i: usize = 1;
    while i < ts.len()
        invariant
            1 <= i,
            i <= ts@.len() || ts@.len() == 0 && i == 1,
            out@ == gaps(ts@).take(i - 1),
        decreases ts.len() - i,
    {
        let gap: u64 = ts[i].saturating_sub(ts[i - 1]) / 1000;
        out.push(gap);
        proof {
            assert(gaps(ts@).take(i as int) =~= gaps(ts@).take(i - 1).push(gap));
        }
        i = i + 1;
    }
    assert(gaps(ts@).take(i - 1) =~= gaps(ts@));
    out
}

/// The summary of a loop's intervals; nothing for fewer than two instants.
pub fn interval_summary(ts: &[u64]) -> (r: Option<Summary>)
    ensures
        match r {
            Some(sum) => ts@.len() >= 2 && exists|s: Seq<u64>|
                #[trigger] sorts(s, gaps(ts@)) && sum == summary_of(s),
            None => ts@.len() < 2,
        },
{
    summarize(intervals(ts))
}

/// The percentiles of an ordered list are ordered, and lie between its ends.
pub proof fn law_percentiles_ordered(s: Seq<u64>, p: nat, q: nat)
    requires
        s.len() > 0,
        ascending(s),
        p <= q,
    ensures
        s[0] <= percentile_of(s, p) <= percentile_of(s, q) <= s.last(),
{
    let n = s.len();
    assert(n * p / 100 <= n * q / 100) by {
        assert(n * p <= n * q) by (nonlinear_arith)
            requires
                p <= q,
        ;
    }
    assert(0 <= n * p / 100) by {
        assert(0 <= n * p) by (nonlinear_arith);
    }
}

/// There is only one way to order numbers, so that a list has one summary.
pub proof fn law_one_order(a: Seq<u64>, b: Seq<u64>, v: Seq<u64>)
    requires
        sorts(a, v),
        sorts(b, v),
    ensures
        a == b,
{
    vstd::seq_lib::lemma_sorted_unique(a, b, |x: u64, y: u64| x <= y);
}

/// A burst is timed once: heard less than a second after it went out, it gives
/// the time in between, and nothing the second time. One that is heard later is
/// none, and a new burst takes its place. Bursts are half a second apart.
pub proof fn law_burst_timed_once(w: BurstView, out: u64, heard: u64, again: u64)
    requires
        w.next <= out <= heard <= again,
        out + 500_000_000 <= u64::MAX,
    ensures
        ({
            let (w1, due) = burst_polled(w, out);
            let (w2, trip) = burst_heard(w1, heard);
            let (w3, second) = burst_heard(w2, again);
            &&& due
            &&& heard - out < 1_000_000_000 ==> trip == Some((heard - out) as u64) && second is None
            &&& heard - out >= 1_000_000_000 ==> trip is None && w2 == w1
            &&& again - out < 500_000_000 ==> !burst_polled(w2, again).1 && burst_polled(w2, again).0
                == w2
            &&& again - out >= 500_000_000 ==> burst_polled(w2, again).1 && burst_polled(
                w2,
                again,
            ).0.emitted == Some(again)
        }),
{
}

/// Before it is time for a burst nothing goes out, and without a burst nothing
/// is timed.
pub proof fn law_no_burst_no_trip(w: BurstView, now: u64)
    ensures
        now < w.next ==> burst_polled(w, now) == (w, false),
        w.emitted is None ==> burst_heard(w, now) == (w, None::<u64>),
{
}

/// Progress is reported every half minute, with the whole seconds since the run
/// began: neither sooner nor, once that long has gone by, not at all.
pub proof fn law_reports(c: ClockView, now: u64)
    requires
        c.start <= c.reported <= now,
    ensures
        ({
            let (after, secs) = clock_report(c, now);
            &&& secs is Some <==> now - c.reported >= 30_000_000_000
            &&& secs matches Some(n) ==> {
                &&& n * 1_000_000_000 <= now - c.start < (n + 1) * 1_000_000_000
                &&& after.reported == now
            }
            &&& secs is None ==> after == c
            &&& after.start == c.start && after.deadline == c.deadline
        }),
{
}

/// A percentile is the number at its share of the ordered list: so many percent
/// of the list, rounded down, stand before it; from the full share on it is the
/// last.
pub proof fn law_percentile_rank(s: Seq<u64>, p: nat, k: int)
    requires
        0 <= k < s.len(),
    ensures
        100 * k <= s.len() * p < 100 * (k + 1) ==> percentile_of(s, p) == s[k],
        p >= 100 ==> percentile_of(s, p) == s.last(),
{
    let n = s.len();
    if p >= 100 {
        assert(n * p >= 100 * n) by (nonlinear_arith)
            requires
                p >= 100,
        ;
    }
}

/// What a summary says of a list of times: the shortest and the longest, the
/// 50th, 95th and 99th percentile, and whether the last of these is below 80 ms.
pub proof fn law_summary(s: Seq<u64>)
    requires
        s.len() > 0,
        ascending(s),
    ensures
        ({
            let sum = summary_of(s);
            &&& forall|i: int| 0 <= i < s.len() ==> sum.min <= #[trigger] s[i] <= sum.max
            &&& s.contains(sum.min) && s.contains(sum.max)
            &&& sum.p50 == percentile_of(s, 50)
            &&& sum.p95 == percentile_of(s, 95)
            &&& sum.p99 == percentile_of(s, 99)
            &&& sum.min <= sum.p50 <= sum.p95 <= sum.p99 <= sum.max
            &&& sum.pass <==> sum.p99 < 80_000
        }),
{
    law_percentiles_ordered(s, 50, 95);
    law_percentiles_ordered(s, 95, 99);
    assert(s[0] == summary_of(s).min);
    assert(s[s.len() - 1] == summary_of(s).max);
}

/// The gaps between instants that do not go backwards, in whole microseconds,
/// one fewer than there are instants.
pub proof fn law_gaps(ts: Seq<u64>, i: int)
    requires
        0 <= i < ts.len() - 1,
    ensures
        gaps(ts).len() == ts.len() - 1,
        ts[i] <= ts[i + 1] ==> 1000 * gaps(ts)[i] <= ts[i + 1] - ts[i] < 1000 * gaps(ts)[i] + 1000,
        ts[i] > ts[i + 1] ==> gaps(ts)[i] == 0,
{
}

/// A watch waits half a second before its first burst and times nothing until
/// then; a run is over once its seconds have gone by since its start, and first
/// reports half a minute after it was set up.
pub proof fn law_run_times(start: u64, now: u64, secs: u64, later: u64)
    requires
        start <= now <= later,
        start + secs * 1_000_000_000 <= u64::MAX,
        now + 500_000_000 <= u64::MAX,
    ensures
        burst_polled(new_watch(now), later).1 <==> later - now >= 500_000_000,
        burst_heard(new_watch(now), later).1 is None,
        run_over(new_run(start, now, secs), later) <==> later - start >= secs * 1_000_000_000,
        clock_report(new_run(start, now, secs), later).1 is Some <==> later - now >= 30_000_000_000,
{
}

} // verus!
