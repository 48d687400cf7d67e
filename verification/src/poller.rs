//! Telemetry polling: which inquiry is due when, and what its reply means.
//!
//! Inquiries go out at their own cadences. Instants and periods are in
//! nanoseconds; an instant counts from an arbitrary start of the clock.
//!
//! Default cadences:
//!
//! | Inquiry          | Period |
//! |------------------|--------|
//! | `?03` RSSI       | 500 ms |
//! | `?13` Squelch    | 500 ms |
//! | `?11` General    | 1 s    |
//! | `?12` Mode       | 1 s    |
//! | `?10` Preset     | 2 s    |
//! | `?01` SynthLock  | 5 s    |
use vstd::prelude::*;
use crate::inquiry::{
    GeneralStatus, Inquiry, Mode, PresetSnapshot, PresetView, Rssi, SquelchStatus, SynthLock,
};
use crate::response::{Reply, Response};
use crate::transport::{copied, RadioError};

verus! {

/// A single typed telemetry update from the radio.
#[derive(Debug, Clone)]
pub enum TelemetryUpdate {
    Rssi(Rssi),
    Squelch(SquelchStatus),
    General(GeneralStatus),
    Mode(Mode),
    Preset(PresetSnapshot),
    SynthLock(SynthLock),
    /// A scheduled inquiry failed. Polling goes on.
    Error { inquiry: Inquiry, kind: PollErrorKind },
}

#[derive(Debug, Clone)]
pub enum PollErrorKind {
    /// The radio did not answer in time.
    Timeout,
    /// Radio returned NAK or decoder rejected the data.
    Decode { raw: Vec<u8> },
    /// Transport-level failure (cable pulled, port closed, etc.).
    Transport(String),
    /// Three NAKs in a row. Polling goes on.
    Fault,
}

/// What a [`PollErrorKind`] stands for.
#[verifier::ext_equal]
pub enum PollFailure {
    Timeout,
    Decode(Seq<u8>),
    Transport(Seq<char>),
    Fault,
}

/// What a [`TelemetryUpdate`] stands for.
#[verifier::ext_equal]
pub enum Telemetry {
    Rssi(u8),
    Squelch(SquelchStatus),
    General(GeneralStatus),
    Mode(Mode),
    Preset(PresetView),
    SynthLock(bool),
    Error(Inquiry, PollFailure),
}

impl View for PollErrorKind {
    type V = PollFailure;

    open spec fn view(&self) -> PollFailure {
        match *self {
            PollErrorKind::Timeout => PollFailure::Timeout,
            PollErrorKind::Decode { raw } => PollFailure::Decode(raw@),
            PollErrorKind::Transport(s) => PollFailure::Transport(s@),
            PollErrorKind::Fault => PollFailure::Fault,
        }
    }
}

impl View for TelemetryUpdate {
    type V = Telemetry;

    open spec fn view(&self) -> Telemetry {
        match *self {
            TelemetryUpdate::Rssi(r) => Telemetry::Rssi(r.0),
            TelemetryUpdate::Squelch(s) => Telemetry::Squelch(s),
            TelemetryUpdate::General(g) => Telemetry::General(g),
            TelemetryUpdate::Mode(m) => Telemetry::Mode(m),
            TelemetryUpdate::Preset(p) => Telemetry::Preset(p@),
            TelemetryUpdate::SynthLock(l) => Telemetry::SynthLock(l.0),
            TelemetryUpdate::Error { inquiry, kind } => Telemetry::Error(inquiry, kind@),
        }
    }
}

/// Pause / throttle mode.
#[derive(Debug, Clone, Copy, PartialEq, Eq, Structural)]
pub enum BackoffMode {
    /// Normal cadence — user is actively watching.
    Normal,
    /// Multiply every period by 10 — UI is hidden / backgrounded.
    Idle,
    /// Stop polling entirely. Still accepts control messages.
    Paused,
}

/// A change of the polling schedule.
pub enum Control {
    /// Change, or disable with `None`, the cadence of an inquiry.
    SetCadence(Inquiry, Option<u64>),
    SetBackoff(BackoffMode),
}

// ---------- Inquiries as keys ----------

/// A number of nanoseconds for some of the inquiries.
pub struct InquiryMap {
    slots: [Option<u64>; 100],
}

impl View for InquiryMap {
    type V = Map<Inquiry, u64>;

    closed spec fn view(&self) -> Map<Inquiry, u64> {
        Map::new(
            |k: Inquiry| self.slots@[k.number() as int] is Some,
            |k: Inquiry| self.slots@[k.number() as int]->0,
        )
    }
}

fn all_inquiries() -> (r: [Inquiry; 20])
    ensures
        forall|k: Inquiry| #[trigger] r@.contains(k),
{
    let r: [Inquiry; 20] = [
        Inquiry::SynthLock,
        Inquiry::ScanDetect,
        Inquiry::Rssi,
        Inquiry::CalStatus,
        Inquiry::PowerRails,
        Inquiry::VFwd,
        Inquiry::VRfd,
        Inquiry::SwVersion,
        Inquiry::SquelchLevel,
        Inquiry::PresetSnapshot,
        Inquiry::GeneralStatus,
        Inquiry::Mode,
        Inquiry::SquelchStatus,
        Inquiry::WarpValue,
        Inquiry::PowerTable,
        Inquiry::TuningFilter,
        Inquiry::Tone3090,
        Inquiry::AviationMode,
        Inquiry::RxFilterBw,
        Inquiry::Debug,
    ];
    proof {
        assert forall|k: Inquiry| #[trigger] r@.contains(k) by {
            let i = match k {
                Inquiry::SynthLock => 0int,
                Inquiry::ScanDetect => 1,
                Inquiry::Rssi => 2,
                Inquiry::CalStatus => 3,
                Inquiry::PowerRails => 4,
                Inquiry::VFwd => 5,
                Inquiry::VRfd => 6,
                Inquiry::SwVersion => 7,
                Inquiry::SquelchLevel => 8,
                Inquiry::PresetSnapshot => 9,
                Inquiry::GeneralStatus => 10,
                Inquiry::Mode => 11,
                Inquiry::SquelchStatus => 12,
                Inquiry::WarpValue => 13,
                Inquiry::PowerTable => 14,
                Inquiry::TuningFilter => 15,
                Inquiry::Tone3090 => 16,
                Inquiry::AviationMode => 17,
                Inquiry::RxFilterBw => 18,
                Inquiry::Debug => 19,
            };
            assert(r@[i] == k);
        }
    }
    r
}

proof fn lemma_numbers_distinct(a: Inquiry, b: Inquiry)
    ensures
        a.number() == b.number() <==> a == b,
{
}

impl InquiryMap {
    pub fn new() -> (r: InquiryMap)
        ensures
            r@ == Map::<Inquiry, u64>::empty(),
    {
        let r = InquiryMap { slots: [None; 100] };
        assert(r@ =~= Map::<Inquiry, u64>::empty());
        r
    }

    pub fn insert(&mut self, k: Inquiry, v: u64)
        ensures
            final(self)@ == old(self)@.insert(k, v),
    {
        self.slots[k.code() as usize] = Some(v);
        proof {
            assert forall|j: Inquiry| j.number() == k.number() implies j == k by {
                lemma_numbers_distinct(j, k);
            }
            assert(self@ =~= old(self)@.insert(k, v));
        }
    }

    pub fn remove(&mut self, k: &Inquiry)
        ensures
            final(self)@ == old(self)@.remove(*k),
    {
        self.slots[k.code() as usize] = None;
        proof {
            assert forall|j: Inquiry| j.number() == k.number() implies j == *k by {
                lemma_numbers_distinct(j, *k);
            }
            assert(self@ =~= old(self)@.remove(*k));
        }
    }

    pub fn get(&self, k: &Inquiry) -> (r: Option<u64>)
        ensures
            match r {
                Some(v) => self@.contains_key(*k) && self@[*k] == v,
                None => !self@.contains_key(*k),
            },
    {
        self.slots[k.code() as usize]
    }

    pub fn contains_key(&self, k: &Inquiry) -> (r: bool)
        ensures
            r == self@.contains_key(*k),
    {
        self.get(k).is_some()
    }
}

// ---------- Scheduling ----------

/// What stretches every period in a backoff mode.
pub open spec fn stretch(backoff: BackoffMode) -> int {
    match backoff {
        BackoffMode::Idle => 10,
        _ => 1,
    }
}

/// When an inquiry is due: its period after it was last sent, or from now on
/// where it never was.
pub open spec fn due_at(
    schedules: Map<Inquiry, u64>,
    last_fired: Map<Inquiry, u64>,
    backoff: BackoffMode,
    now: u64,
    k: Inquiry,
) -> int {
    let last = if last_fired.contains_key(k) {
        last_fired[k]
    } else {
        now
    };
    last + schedules[k] * stretch(backoff)
}

/// Whether `inq`, at `due`, is an inquiry that no other is due before.
pub open spec fn earliest(
    schedules: Map<Inquiry, u64>,
    last_fired: Map<Inquiry, u64>,
    backoff: BackoffMode,
    now: u64,
    due: int,
    inq: Inquiry,
) -> bool {
    &&& schedules.contains_key(inq)
    &&& due == due_at(schedules, last_fired, backoff, now, inq)
    &&& forall|k: Inquiry|
        #[trigger] schedules.contains_key(k) ==> due <= due_at(
            schedules,
            last_fired,
            backoff,
            now,
            k,
        )
}

/// The default cadences.
pub open spec fn default_cadences() -> Map<Inquiry, u64> {
    Map::<Inquiry, u64>::empty().insert(Inquiry::Rssi, 500_000_000).insert(
        Inquiry::SquelchStatus,
        500_000_000,
    ).insert(Inquiry::GeneralStatus, 1_000_000_000).insert(Inquiry::Mode, 1_000_000_000).insert(
        Inquiry::PresetSnapshot,
        2_000_000_000,
    ).insert(Inquiry::SynthLock, 5_000_000_000)
}

pub fn default_schedules() -> (r: InquiryMap)
    ensures
        r@ == default_cadences(),
{
    let mut m = InquiryMap::new();
    m.insert(Inquiry::Rssi, 500_000_000);
    m.insert(Inquiry::SquelchStatus, 500_000_000);
    m.insert(Inquiry::GeneralStatus, 1_000_000_000);
    m.insert(Inquiry::Mode, 1_000_000_000);
    m.insert(Inquiry::PresetSnapshot, 2_000_000_000);
    m.insert(Inquiry::SynthLock, 5_000_000_000);
    m
}

/// The inquiry to send next, and when. Among several that are due at the same
/// instant any may come first.
pub fn next_due_inquiry(
    schedules: &InquiryMap,
    last_fired: &InquiryMap,
    backoff: BackoffMode,
    now: u64,
) -> (r: Option<(u128, Inquiry)>)
    ensures
        match r {
            Some((due, inq)) => backoff != BackoffMode::Paused && earliest(
                schedules@,
                last_fired@,
                backoff,
                now,
                due as int,
                inq,
            ),
            None => backoff == BackoffMode::Paused || schedules@ == Map::<Inquiry, u64>::empty(),
        },
{
    let mult: u128 = match backoff {
        BackoffMode::Normal => 1,
        BackoffMode::Idle => 10,
        BackoffMode::Paused => return None,
    };
    let all = all_inquiries();
    let mut best: Option<(u128, Inquiry)> = None;
    let mut i: usize = 0;
    while i < 20
        invariant
            i <= 20,
            all@.len() == 20,
            mult == stretch(backoff),
            match best {
                Some((due, inq)) => {
                    &&& schedules@.contains_key(inq)
                    &&& due == due_at(schedules@, last_fired@, backoff, now, inq)
                    &&& forall|j: int|
                        0 <= j < i && schedules@.contains_key(#[trigger] all@[j]) ==> due
                            <= due_at(schedules@, last_fired@, backoff, now, all@[j])
                },
                None => forall|j: int|
                    0 <= j < i ==> !schedules@.contains_key(#[trigger] all@[j]),
            },
        decreases 20 - i,
    {
        let k = all[i];
        if let Some(period) = schedules.get(&k) {
            let last: u64 = match last_fired.get(&k) {
                Some(t) => t,
                None => now,
            };
            assert(period * mult <= u64::MAX * 10) by (nonlinear_arith)
                requires
                    0 <= period <= u64::MAX,
                    0 <= mult <= 10,
            ;
            let due: u128 = last as u128 + period as u128 * mult;
            let better = match best {
                Some((d, _)) => due < d,
                None => true,
            };
            if better {
                best = Some((due, k));
            }
        }
        i = i + 1;
    }
    proof {
        assert forall|k: Inquiry| #[trigger] schedules@.contains_key(k) implies best is Some && (
        best->0).0 <= due_at(schedules@, last_fired@, backoff, now, k) by {
            assert(all@.contains(k));
            let j = choose|j: int| 0 <= j < all@.len() && all@[j] == k;
            assert(schedules@.contains_key(all@[j]));
        }
        if best is None {
            assert(schedules@ =~= Map::<Inquiry, u64>::empty());
        }
    }
    best
}

/// What a [`PollPlan`] stands for.
#[verifier::ext_equal]
pub struct PollView {
    pub schedules: Map<Inquiry, u64>,
    pub last_fired: Map<Inquiry, u64>,
    pub backoff: BackoffMode,
}

/// The plan after a change at instant `now`. An inquiry that is newly enabled
/// counts as sent now.
pub open spec fn poll_control(s: PollView, c: Control, now: u64) -> PollView {
    match c {
        Control::SetCadence(k, Some(period)) => PollView {
            schedules: s.schedules.insert(k, period),
            last_fired: if s.last_fired.contains_key(k) {
                s.last_fired
            } else {
                s.last_fired.insert(k, now)
            },
            ..s
        },
        Control::SetCadence(k, None) => PollView {
            schedules: s.schedules.remove(k),
            last_fired: s.last_fired.remove(k),
            ..s
        },
        Control::SetBackoff(m) => PollView { backoff: m, ..s },
    }
}

/// Every scheduled inquiry has an instant it counts from, and no other has.
pub open spec fn poll_consistent(s: PollView) -> bool {
    s.schedules.dom() == s.last_fired.dom()
}

/// When an inquiry of the plan is due.
pub open spec fn poll_due(s: PollView, k: Inquiry) -> int {
    s.last_fired[k] + s.schedules[k] * stretch(s.backoff)
}

/// The default plan, started at instant `now`: everything counts as sent then.
pub open spec fn new_plan(now: u64) -> PollView {
    PollView {
        schedules: default_cadences(),
        last_fired: default_cadences().map_values(|p: u64| now),
        backoff: BackoffMode::Normal,
    }
}

/// The plan once an inquiry has gone out at instant `now`.
pub open spec fn poll_fired(s: PollView, inq: Inquiry, now: u64) -> PollView {
    PollView { last_fired: s.last_fired.insert(inq, now), ..s }
}

/// The state of the polling loop.
pub struct PollPlan {
    schedules: InquiryMap,
    last_fired: InquiryMap,
    backoff: BackoffMode,
}

impl View for PollPlan {
    type V = PollView;

    closed spec fn view(&self) -> PollView {
        PollView {
            schedules: self.schedules@,
            last_fired: self.last_fired@,
            backoff: self.backoff,
        }
    }
}

impl PollPlan {
    /// The default plan, started at instant `now`.
    pub fn new(now: u64) -> (r: PollPlan)
        ensures
            r@ == new_plan(now),
            poll_consistent(r@),
    {
        let mut last_fired = InquiryMap::new();
        last_fired.insert(Inquiry::Rssi, now);
        last_fired.insert(Inquiry::SquelchStatus, now);
        last_fired.insert(Inquiry::GeneralStatus, now);
        last_fired.insert(Inquiry::Mode, now);
        last_fired.insert(Inquiry::PresetSnapshot, now);
        last_fired.insert(Inquiry::SynthLock, now);
        assert(last_fired@ =~= default_cadences().map_values(|p: u64| now));
        assert(last_fired@.dom() =~= default_cadences().dom());
        PollPlan { schedules: default_schedules(), last_fired, backoff: BackoffMode::Normal }
    }

    /// What to wait for: the inquiry to send next and when, or only a change
    /// of the plan where nothing is scheduled or polling is paused.
    pub fn next(&self, now: u64) -> (r: Option<(u128, Inquiry)>)
        ensures
            match r {
                Some((due, inq)) => self@.backoff != BackoffMode::Paused && earliest(
                    self@.schedules,
                    self@.last_fired,
                    self@.backoff,
                    now,
                    due as int,
                    inq,
                ),
                None => self@.backoff == BackoffMode::Paused || self@.schedules
                    == Map::<Inquiry, u64>::empty(),
            },
            poll_consistent(self@) && r is Some ==> {
                let (due, inq) = r->0;
                &&& due == self@.last_fired[inq] + self@.schedules[inq] * (if self@.backoff
                    == BackoffMode::Idle {
                    10int
                } else {
                    1int
                })
                &&& forall|k: Inquiry| #[trigger]
                    self@.schedules.contains_key(k) ==> due <= self@.last_fired[k]
                        + self@.schedules[k] * (if self@.backoff == BackoffMode::Idle {
                        10int
                    } else {
                        1int
                    })
            },
    {
        let r = next_due_inquiry(&self.schedules, &self.last_fired, self.backoff, now);
        proof {
            if poll_consistent(self@) && r is Some {
                let (due, inq) = r->0;
                law_due_whenever_asked(self@, now, now, due as int, inq);
            }
        }
        r
    }

    /// An inquiry goes out at instant `now`.
    pub fn fired(&mut self, inq: Inquiry, now: u64)
        ensures
            final(self)@ == poll_fired(old(self)@, inq, now),
    {
        self.last_fired.insert(inq, now);
    }

    /// Apply a change of the plan at instant `now`.
    pub fn apply_control(&mut self, c: Control, now: u64)
        ensures
            final(self)@ == poll_control(old(self)@, c, now),
    {
        match c {
            Control::SetCadence(inq, Some(period)) => {
                self.schedules.insert(inq, period);
                if !self.last_fired.contains_key(&inq) {
                    self.last_fired.insert(inq, now);
                }
            },
            Control::SetCadence(inq, None) => {
                self.schedules.remove(&inq);
                self.last_fired.remove(&inq);
            },
            Control::SetBackoff(m) => {
                self.backoff = m;
            },
        }
        assert(self@ =~= poll_control(old(self)@, c, now));
    }
}

/// No change of the plan breaks it: what is scheduled has an instant to count
/// from, and sending a scheduled inquiry keeps that so.
pub proof fn law_plan_stays_consistent(s: PollView, c: Control, inq: Inquiry, now: u64)
    requires
        poll_consistent(s),
    ensures
        poll_consistent(poll_control(s, c, now)),
        s.schedules.contains_key(inq) ==> poll_consistent(poll_fired(s, inq, now)),
{
    let t = poll_control(s, c, now);
    assert(t.schedules.dom() =~= t.last_fired.dom());
    if s.schedules.contains_key(inq) {
        assert(s.last_fired.insert(inq, now).dom() =~= s.schedules.dom());
    }
}

/// An inquiry keeps its cadence: once sent it is due again exactly one period
/// later, ten periods in idle mode, and sending it does not move the others.
pub proof fn law_cadence(s: PollView, inq: Inquiry, other: Inquiry, now: u64)
    requires
        poll_consistent(s),
        s.schedules.contains_key(inq),
        other != inq,
    ensures
        ({
            let t = poll_fired(s, inq, now);
            &&& s.backoff == BackoffMode::Normal ==> poll_due(t, inq) == now + s.schedules[inq]
            &&& s.backoff == BackoffMode::Idle ==> poll_due(t, inq) == now + 10 * s.schedules[inq]
            &&& poll_due(t, other) == poll_due(s, other)
            &&& t.schedules == s.schedules && t.backoff == s.backoff
        }),
{
}

/// The inquiry to send next, and its instant, follow from what was sent when and
/// not from when one asks: it is due one period after it was last sent, ten in
/// idle mode, and every other scheduled inquiry at that instant or later. What
/// is overdue is therefore due at an instant that has gone by, and it goes out
/// before anything whose time is still to come.
pub proof fn law_due_whenever_asked(s: PollView, now: u64, later: u64, due: int, inq: Inquiry)
    requires
        poll_consistent(s),
        s.backoff != BackoffMode::Paused,
        earliest(s.schedules, s.last_fired, s.backoff, now, due, inq),
    ensures
        ({
            let at = |k: Inquiry|
                if s.backoff == BackoffMode::Idle {
                    s.last_fired[k] + 10 * s.schedules[k]
                } else {
                    s.last_fired[k] + s.schedules[k]
                };
            &&& s.schedules.contains_key(inq)
            &&& due == at(inq)
            &&& forall|k: Inquiry| #[trigger] s.schedules.contains_key(k) ==> due <= at(k)
            &&& earliest(s.schedules, s.last_fired, s.backoff, later, due, inq)
            &&& forall|k: Inquiry| #[trigger]
                s.schedules.contains_key(k) && at(k) <= later ==> due <= later
        }),
{
    assert(s.schedules.contains_key(inq) == s.last_fired.contains_key(inq)) by {
        assert(s.schedules.dom().contains(inq) == s.last_fired.dom().contains(inq));
    }
    assert forall|k: Inquiry| #[trigger] s.schedules.contains_key(k) implies s.last_fired.contains_key(
        k,
    ) by {
        assert(s.schedules.dom().contains(k) == s.last_fired.dom().contains(k));
    }
    assert forall|k: Inquiry| #[trigger] s.schedules.contains_key(k) implies due_at(
        s.schedules,
        s.last_fired,
        s.backoff,
        later,
        k,
    ) == due_at(s.schedules, s.last_fired, s.backoff, now, k) by {}
}

/// No inquiry is starved: one that is due no later than it is asked for is
/// never passed over for one that was sent after it came due.
pub proof fn law_overdue_goes_first(s: PollView, k: Inquiry, now: u64, due: int, inq: Inquiry)
    requires
        poll_consistent(s),
        s.backoff == BackoffMode::Normal,
        s.schedules.contains_key(k),
        s.last_fired[k] + s.schedules[k] <= now,
        earliest(s.schedules, s.last_fired, s.backoff, now, due, inq),
    ensures
        due <= now,
        s.last_fired[inq] <= s.last_fired[k] + s.schedules[k],
        s.schedules[inq] > 0 ==> s.last_fired[inq] < s.last_fired[k] + s.schedules[k],
{
    law_due_whenever_asked(s, now, now, due, inq);
}

/// Idle mode makes every wait ten times as long.
pub proof fn law_idle_is_ten_times_slower(s: PollView, inq: Inquiry, now: u64)
    requires
        poll_consistent(s),
        s.schedules.contains_key(inq),
        s.backoff == BackoffMode::Normal,
    ensures
        ({
            let t = poll_control(s, Control::SetBackoff(BackoffMode::Idle), now);
            poll_due(t, inq) - s.last_fired[inq] == 10 * (poll_due(s, inq) - s.last_fired[inq])
        }),
{
}

/// A disabled inquiry is not sent: it is no candidate at any instant, and no
/// change that leaves its own cadence alone brings it back.
pub proof fn law_disabled_is_not_sent(s: PollView, inq: Inquiry, c: Control, now: u64, due: int)
    requires
        !s.schedules.contains_key(inq),
        match c {
            Control::SetCadence(k, Some(_)) => k != inq,
            _ => true,
        },
    ensures
        !earliest(s.schedules, s.last_fired, s.backoff, now, due, inq),
        !poll_control(s, c, now).schedules.contains_key(inq),
        !poll_control(s, Control::SetCadence(inq, None), now).schedules.contains_key(inq),
{
}

// ---------- Replies ----------

/// The update that a reply to an inquiry gives. A NAK is a decode error; other
/// replies are decoded, where the inquiry has a decoder and it accepts.
pub open spec fn decoded_update(inq: Inquiry, reply: Reply) -> Option<Telemetry> {
    if reply.verdict is Nak {
        Some(Telemetry::Error(inq, PollFailure::Decode(reply.data)))
    } else {
        match inq {
            Inquiry::Rssi => match Rssi::decoded(reply.data) {
                Some(v) => Some(Telemetry::Rssi(v.0)),
                None => None,
            },
            Inquiry::SquelchStatus => match SquelchStatus::decoded(reply.data) {
                Some(v) => Some(Telemetry::Squelch(v)),
                None => None,
            },
            Inquiry::GeneralStatus => match GeneralStatus::decoded(reply.data) {
                Some(v) => Some(Telemetry::General(v)),
                None => None,
            },
            Inquiry::Mode => match Mode::decoded(reply.data) {
                Some(v) => Some(Telemetry::Mode(v)),
                None => None,
            },
            Inquiry::PresetSnapshot => match PresetSnapshot::decoded(reply.data) {
                Some(v) => Some(Telemetry::Preset(v)),
                None => None,
            },
            Inquiry::SynthLock => match SynthLock::decoded(reply.data) {
                Some(v) => Some(Telemetry::SynthLock(v.0)),
                None => None,
            },
            _ => None,
        }
    }
}

/// The update that the outcome of an inquiry gives.
pub open spec fn inquiry_outcome(
    inq: Inquiry,
    result: Result<Response, RadioError>,
) -> Telemetry {
    match result {
        Ok(resp) => match decoded_update(inq, resp@) {
            Some(u) => u,
            None => Telemetry::Error(inq, PollFailure::Decode(resp@.data)),
        },
        Err(RadioError::Timeout(_)) => Telemetry::Error(inq, PollFailure::Timeout),
        Err(RadioError::Fault) => Telemetry::Error(inq, PollFailure::Fault),
        Err(RadioError::Transport(e)) => Telemetry::Error(inq, PollFailure::Transport(e.text())),
        Err(RadioError::Closed) => Telemetry::Error(
            inq,
            PollFailure::Transport("radio handle closed"@),
        ),
    }
}

pub fn decode_telemetry(inq: Inquiry, resp: &Response) -> (r: Option<TelemetryUpdate>)
    ensures
        match r {
            Some(u) => decoded_update(inq, resp@) == Some(u@),
            None => decoded_update(inq, resp@) is None,
        },
{
    if resp.is_nak() {
        return Some(
            TelemetryUpdate::Error {
                inquiry: inq,
                kind: PollErrorKind::Decode { raw: copied(resp.data()) },
            },
        );
    }
    let data = resp.data();
    match inq {
        Inquiry::Rssi => match Rssi::from_bytes(data) {
            Some(v) => Some(TelemetryUpdate::Rssi(v)),
            None => None,
        },
        Inquiry::SquelchStatus => match SquelchStatus::from_bytes(data) {
            Some(v) => Some(TelemetryUpdate::Squelch(v)),
            None => None,
        },
        Inquiry::GeneralStatus => match GeneralStatus::from_bytes(data) {
            Some(v) => Some(TelemetryUpdate::General(v)),
            None => None,
        },
        Inquiry::Mode => match Mode::from_bytes(data) {
            Some(v) => Some(TelemetryUpdate::Mode(v)),
            None => None,
        },
        Inquiry::PresetSnapshot => match PresetSnapshot::from_bytes(data) {
            Some(v) => Some(TelemetryUpdate::Preset(v)),
            None => None,
        },
        Inquiry::SynthLock => match SynthLock::from_bytes(data) {
            Some(v) => Some(TelemetryUpdate::SynthLock(v)),
            None => None,
        },
        _ => None,
    }
}

/// Turn the outcome of an inquiry into an update for the subscribers.
pub fn inquiry_update(inq: Inquiry, result: Result<Response, RadioError>) -> (r: TelemetryUpdate)
    ensures
        r@ == inquiry_outcome(inq, result),
{
    let kind = match result {
        Ok(resp) => {
            match decode_telemetry(inq, &resp) {
                Some(u) => return u,
                None => PollErrorKind::Decode { raw: copied(resp.data()) },
            }
        },
        Err(RadioError::Timeout(_)) => PollErrorKind::Timeout,
        Err(RadioError::Fault) => PollErrorKind::Fault,
        Err(RadioError::Transport(e)) => PollErrorKind::Transport(e.message()),
        Err(RadioError::Closed) => PollErrorKind::Transport("radio handle closed".to_string()),
    };
    TelemetryUpdate::Error { inquiry: inq, kind }
}

/// A reply is told as what it was asked for: the answer to an inquiry gives a
/// value of that inquiry's own kind or an error that names the inquiry; a NAK
/// is always such an error, with the bytes that came.
pub proof fn law_update_fits_inquiry(inq: Inquiry, resp: Response)
    ensures
        ({
            let u = inquiry_outcome(inq, Ok(resp));
            let bad = Telemetry::Error(inq, PollFailure::Decode(resp@.data));
            &&& resp@.verdict is Nak ==> u == bad
            &&& !(resp@.verdict is Nak) ==> match inq {
                Inquiry::Rssi => u == match Rssi::decoded(resp@.data) {
                    Some(v) => Telemetry::Rssi(v.0),
                    None => bad,
                },
                Inquiry::SquelchStatus => u == match SquelchStatus::decoded(resp@.data) {
                    Some(v) => Telemetry::Squelch(v),
                    None => bad,
                },
                Inquiry::GeneralStatus => u == match GeneralStatus::decoded(resp@.data) {
                    Some(v) => Telemetry::General(v),
                    None => bad,
                },
                Inquiry::Mode => u == match Mode::decoded(resp@.data) {
                    Some(v) => Telemetry::Mode(v),
                    None => bad,
                },
                Inquiry::PresetSnapshot => u == match PresetSnapshot::decoded(resp@.data) {
                    Some(v) => Telemetry::Preset(v),
                    None => bad,
                },
                Inquiry::SynthLock => u == match SynthLock::decoded(resp@.data) {
                    Some(v) => Telemetry::SynthLock(v.0),
                    None => bad,
                },
                _ => u == bad,
            }
        }),
{
}

/// A failed inquiry is told as its failure, and names the inquiry.
pub proof fn law_failure_fits_inquiry(inq: Inquiry, e: RadioError)
    ensures
        ({
            let u = inquiry_outcome(inq, Err(e));
            &&& e is Timeout ==> u == Telemetry::Error(inq, PollFailure::Timeout)
            &&& e is Fault ==> u == Telemetry::Error(inq, PollFailure::Fault)
            &&& e is Closed ==> u == Telemetry::Error(
                inq,
                PollFailure::Transport("radio handle closed"@),
            )
            &&& e matches RadioError::Transport(t) ==> u == Telemetry::Error(
                inq,
                PollFailure::Transport(t.text()),
            )
        }),
{
}

/// What a change of cadence does: the inquiry has the new period from then on,
/// counted from when it was last sent, or from now where it was not scheduled;
/// no other inquiry is touched. Backoff changes no cadence.
pub proof fn law_cadence_change(s: PollView, k: Inquiry, other: Inquiry, period: u64, now: u64)
    requires
        poll_consistent(s),
        s.backoff == BackoffMode::Normal,
        other != k,
    ensures
        ({
            let t = poll_control(s, Control::SetCadence(k, Some(period)), now);
            let off = poll_control(s, Control::SetCadence(k, None), now);
            &&& t.schedules.contains_key(k)
            &&& s.schedules.contains_key(k) ==> poll_due(t, k) == s.last_fired[k] + period
            &&& !s.schedules.contains_key(k) ==> poll_due(t, k) == now + period
            &&& !off.schedules.contains_key(k)
            &&& s.schedules.contains_key(other) ==> t.schedules.contains_key(other) && poll_due(
                t,
                other,
            ) == poll_due(s, other) && off.schedules.contains_key(other) && poll_due(off, other)
                == poll_due(s, other)
            &&& forall|m: BackoffMode|
                (#[trigger] poll_control(s, Control::SetBackoff(m), now)).schedules == s.schedules
                    && poll_control(s, Control::SetBackoff(m), now).last_fired == s.last_fired
                    && poll_control(s, Control::SetBackoff(m), now).backoff == m
        }),
{
    assert(s.schedules.dom().contains(k) == s.last_fired.dom().contains(k));
    assert(s.schedules.dom().contains(other) == s.last_fired.dom().contains(other));
}

/// The default cadences: signal strength and squelch twice a second, general
/// status and mode once, the preset every two seconds, the synthesizer lock
/// every five, and nothing else.
pub proof fn law_default_cadences(k: Inquiry)
    ensures
        ({
            let d = default_cadences();
            &&& d.contains_key(Inquiry::Rssi) && 2 * d[Inquiry::Rssi] == 1_000_000_000
            &&& d.contains_key(Inquiry::SquelchStatus) && 2 * d[Inquiry::SquelchStatus]
                == 1_000_000_000
            &&& d.contains_key(Inquiry::GeneralStatus) && d[Inquiry::GeneralStatus]
                == 1_000_000_000
            &&& d.contains_key(Inquiry::Mode) && d[Inquiry::Mode] == 1_000_000_000
            &&& d.contains_key(Inquiry::PresetSnapshot) && d[Inquiry::PresetSnapshot]
                == 2 * 1_000_000_000
            &&& d.contains_key(Inquiry::SynthLock) && d[Inquiry::SynthLock] == 5 * 1_000_000_000
            &&& d.contains_key(k) ==> k is Rssi || k is SquelchStatus || k is GeneralStatus || k
                is Mode || k is PresetSnapshot || k is SynthLock
        }),
{
}

/// A new plan sends nothing at once: every inquiry first comes due one period
/// after the start, so that the first to go out are the ones asked most often.
pub proof fn law_new_plan(now: u64, k: Inquiry, due: int, inq: Inquiry)
    requires
        earliest(
            new_plan(now).schedules,
            new_plan(now).last_fired,
            new_plan(now).backoff,
            now,
            due,
            inq,
        ),
    ensures
        default_cadences().contains_key(k) ==> poll_due(new_plan(now), k) == now
            + default_cadences()[k],
        due == now + 500_000_000,
        inq is Rssi || inq is SquelchStatus,
        new_plan(now).backoff == BackoffMode::Normal,
{
    let s = new_plan(now);
    assert(s.schedules.contains_key(Inquiry::Rssi));
    assert(due <= due_at(s.schedules, s.last_fired, s.backoff, now, Inquiry::Rssi));
    law_default_cadences(inq);
}

} // verus!
