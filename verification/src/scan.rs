//! Library scanner: walks a channel group, tunes each one, watches the squelch
//! for activity, dwells on hits, and moves on when the frequency goes quiet.
//! Pure RX — never keys the transmitter.
//!
//! The scanner is driven from outside: [`Scanner::tick`] runs at a fixed beat,
//! and where it answers with a command to send, [`Scanner::sent`] takes what
//! came of it. While a command is out, everything else waits. Instants are in
//! nanoseconds.
use vstd::prelude::*;
use crate::channels::Channel;
use crate::command::{ModMode, OpCommand};
use crate::commands::{band_for_pair, pair_band};
use crate::freq::{band_for, band_of, law_coverage, tuning_error, Band, Freq, FreqView, Step};
use crate::inquiry::SquelchStatus;
use crate::poller::TelemetryUpdate;
use crate::response::Response;
use crate::text::{opt_view, str_eq};
use crate::transport::RadioError;

verus! {

/// What the client asks the scanner to do.
#[derive(Debug, Clone)]
pub struct ScanConfig {
    /// None = scan all groups; Some("Aviation") = scan that group only.
    pub group: Option<String>,
    /// How long to stay on an active channel after squelch closes.
    pub dwell_ms: u64,
    /// How long to wait after tuning before reading squelch (let the radio settle).
    pub settle_ms: u64,
    /// If true, stop the scan entirely on the first hit (instead of just dwelling).
    pub stop_on_hit: bool,
}

/// The dwell time where the client names none: time to hear the end of a
/// transmission.
pub fn default_dwell() -> (r: u64)
    ensures
        r == 3000,
{
    3000
}

/// The settle time where the client names none.
pub fn default_settle() -> (r: u64)
    ensures
        r == 200,
{
    200
}

/// What a [`ScanConfig`] stands for.
#[verifier::ext_equal]
pub struct ConfigView {
    pub group: Option<Seq<char>>,
    pub dwell_ms: u64,
    pub settle_ms: u64,
    pub stop_on_hit: bool,
}

impl View for ScanConfig {
    type V = ConfigView;

    open spec fn view(&self) -> ConfigView {
        ConfigView {
            group: opt_view(self.group),
            dwell_ms: self.dwell_ms,
            settle_ms: self.settle_ms,
            stop_on_hit: self.stop_on_hit,
        }
    }
}

/// What every client is told.
#[derive(Debug, Clone, PartialEq, Eq)]
pub enum ScanEvent {
    Started { total: usize, group: Option<String> },
    Tuned { channel_id: i64, name: String, rx_hz: u32, tx_hz: u32, idx: usize, total: usize },
    Hit { channel_id: i64, name: String, rx_hz: u32 },
    Stopped { reason: String },
}

/// What a [`ScanEvent`] stands for.
#[verifier::ext_equal]
pub enum EventView {
    Started { total: nat, group: Option<Seq<char>> },
    Tuned { channel_id: i64, name: Seq<char>, rx_hz: u32, tx_hz: u32, idx: nat, total: nat },
    Hit { channel_id: i64, name: Seq<char>, rx_hz: u32 },
    Stopped { reason: Seq<char> },
}

impl View for ScanEvent {
    type V = EventView;

    open spec fn view(&self) -> EventView {
        match *self {
            ScanEvent::Started { total, group } => EventView::Started {
                total: total as nat,
                group: opt_view(group),
            },
            ScanEvent::Tuned { channel_id, name, rx_hz, tx_hz, idx, total } => EventView::Tuned {
                channel_id,
                name: name@,
                rx_hz,
                tx_hz,
                idx: idx as nat,
                total: total as nat,
            },
            ScanEvent::Hit { channel_id, name, rx_hz } => EventView::Hit {
                channel_id,
                name: name@,
                rx_hz,
            },
            ScanEvent::Stopped { reason } => EventView::Stopped { reason: reason@ },
        }
    }
}

/// The views of a list of events.
pub open spec fn event_views(v: Seq<ScanEvent>) -> Seq<EventView> {
    v.map_values(|e: ScanEvent| e@)
}

/// What the scanner is doing, for a client that connects while it runs.
#[derive(Debug, Clone)]
pub struct ScanSnapshot {
    pub total: usize,
    pub group: Option<String>,
    /// Always a `Tuned` event where it is one.
    pub last_tuned: Option<ScanEvent>,
}

/// What a [`ScanSnapshot`] stands for.
#[verifier::ext_equal]
pub struct SnapshotView {
    pub total: nat,
    pub group: Option<Seq<char>>,
    pub last_tuned: Option<EventView>,
}

impl View for ScanSnapshot {
    type V = SnapshotView;

    open spec fn view(&self) -> SnapshotView {
        SnapshotView {
            total: self.total as nat,
            group: opt_view(self.group),
            last_tuned: match self.last_tuned {
                Some(e) => Some(e@),
                None => None,
            },
        }
    }
}

#[derive(Debug, Clone, Copy, PartialEq, Eq, Structural)]
pub enum ScanPhase {
    NeedsTune,
    Settling,
    Dwelling,
}

/// The command of a tuning that is out.
#[derive(Debug, Clone, Copy, PartialEq, Eq, Structural)]
pub enum TunePart {
    Rx,
    Tx,
    Mode,
}

/// What the caller is to do.
#[derive(Debug)]
pub enum ScanAction {
    Rest,
    /// Send the command, and report what came of it.
    Send(OpCommand),
    /// Tell everyone.
    Emit(Vec<ScanEvent>),
}

/// What a [`ScanAction`] stands for.
#[verifier::ext_equal]
pub enum ScanOutput {
    Rest,
    SendRx(FreqView),
    SendTx(FreqView),
    SendMode(ModMode),
    SendOther(OpCommand),
    Emit(Seq<EventView>),
}

impl View for ScanAction {
    type V = ScanOutput;

    open spec fn view(&self) -> ScanOutput {
        match *self {
            ScanAction::Rest => ScanOutput::Rest,
            ScanAction::Send(OpCommand::SetRx(f)) => ScanOutput::SendRx(f@),
            ScanAction::Send(OpCommand::SetTx(f)) => ScanOutput::SendTx(f@),
            ScanAction::Send(OpCommand::ModTxRx(m)) => ScanOutput::SendMode(m),
            ScanAction::Send(c) => ScanOutput::SendOther(c),
            ScanAction::Emit(v) => ScanOutput::Emit(event_views(v@)),
        }
    }
}

// ---------- The machine ----------

/// A scan that runs.
#[verifier::ext_equal]
pub struct RunView {
    pub config: ConfigView,
    pub channels: Seq<Channel>,
    pub idx: nat,
    pub phase: ScanPhase,
    pub since: u64,
}

/// What a [`Scanner`] stands for.
#[verifier::ext_equal]
pub struct ScanView {
    pub run: Option<RunView>,
    pub squelch_open: bool,
    pub snapshot: Option<SnapshotView>,
    /// The command that is out, and the instant of the beat that led to it.
    pub out: Option<(TunePart, u64)>,
}

/// Whether a channel can be tuned at all: one of its frequencies is in a band.
pub open spec fn scannable(c: Channel) -> bool {
    band_of(c.rx_hz) is Some || band_of(c.tx_hz) is Some
}

/// The next channel, from its start.
pub open spec fn advanced(r: RunView, now: u64) -> RunView {
    RunView {
        idx: (r.idx + 1) % r.channels.len(),
        phase: ScanPhase::NeedsTune,
        since: now,
        ..r
    }
}

/// Whether so many milliseconds have gone by.
pub open spec fn waited(since: u64, now: u64, ms: u64) -> bool {
    (if now >= since {
        now - since
    } else {
        0
    }) >= ms * 1_000_000
}

/// The receive frequency that a channel is scanned on.
pub open spec fn scan_rx(c: Channel) -> Option<FreqView> {
    match pair_band(c.rx_hz, c.tx_hz) {
        Some(band) => if tuning_error(c.rx_hz, band, Step::Khz5) is None {
            Some(FreqView { hz: c.rx_hz, band, step: Step::Khz5 })
        } else {
            None
        },
        None => None,
    }
}

/// The transmit frequency that goes with it, so that a quick operator does not
/// transmit on the one before: the channel's own, or the receive frequency
/// where that is in no band.
pub open spec fn scan_tx(c: Channel) -> Option<FreqView> {
    let hz = if band_of(c.tx_hz) is Some {
        c.tx_hz
    } else {
        c.rx_hz
    };
    match pair_band(c.rx_hz, c.tx_hz) {
        Some(band) => if tuning_error(hz, band, Step::Khz5) is None {
            Some(FreqView { hz, band, step: Step::Khz5 })
        } else {
            None
        },
        None => None,
    }
}

/// The modulation that a channel is scanned with, where it has one.
pub open spec fn scan_mode(c: Channel) -> Option<ModMode> {
    match c.mode {
        Some(m) => urc_mode(m@),
        None => None,
    }
}

/// A modulation by its stored name.
pub open spec fn urc_mode(mode: Seq<char>) -> Option<ModMode> {
    if mode == "am"@ {
        Some(ModMode::Am)
    } else if mode == "fm"@ {
        Some(ModMode::Fm)
    } else {
        None
    }
}

/// What the clients are told of the channel that was tuned.
pub open spec fn tuned_event(r: RunView) -> EventView {
    let c = r.channels[r.idx as int];
    EventView::Tuned {
        channel_id: c.id,
        name: c.name@,
        rx_hz: c.rx_hz,
        tx_hz: c.tx_hz,
        idx: r.idx,
        total: r.channels.len(),
    }
}

/// What the clients are told of activity on the channel.
pub open spec fn hit_event(r: RunView) -> EventView {
    let c = r.channels[r.idx as int];
    EventView::Hit { channel_id: c.id, name: c.name@, rx_hz: c.rx_hz }
}

/// What one beat does to a scanner that has no command out.
pub open spec fn scan_tick(s: ScanView, now: u64) -> (ScanView, ScanOutput) {
    match s.run {
        None => (s, ScanOutput::Rest),
        Some(r) => match r.phase {
            ScanPhase::NeedsTune => match scan_rx(r.channels[r.idx as int]) {
                Some(f) => (
                    ScanView { out: Some((TunePart::Rx, now)), ..s },
                    ScanOutput::SendRx(f),
                ),
                None => (ScanView { run: Some(advanced(r, now)), ..s }, ScanOutput::Rest),
            },
            ScanPhase::Settling => if !waited(r.since, now, r.config.settle_ms) {
                (s, ScanOutput::Rest)
            } else if !s.squelch_open {
                (ScanView { run: Some(advanced(r, now)), ..s }, ScanOutput::Rest)
            } else if r.config.stop_on_hit {
                (
                    ScanView { run: None, snapshot: None, ..s },
                    ScanOutput::Emit(
                        seq![
                            hit_event(r),
                            EventView::Stopped {
                                reason: "first_hit:"@ + r.channels[r.idx as int].name@,
                            },
                        ],
                    ),
                )
            } else {
                (
                    ScanView {
                        run: Some(RunView { phase: ScanPhase::Dwelling, since: now, ..r }),
                        ..s
                    },
                    ScanOutput::Emit(seq![hit_event(r)]),
                )
            },
            ScanPhase::Dwelling => if s.squelch_open {
                (ScanView { run: Some(RunView { since: now, ..r }), ..s }, ScanOutput::Rest)
            } else if waited(r.since, now, r.config.dwell_ms) {
                (ScanView { run: Some(advanced(r, now)), ..s }, ScanOutput::Rest)
            } else {
                (s, ScanOutput::Rest)
            },
        },
    }
}

/// The scanner once the channel is tuned, at instant `now`: the wait for the
/// radio to settle starts.
pub open spec fn scan_tuned(s: ScanView, r: RunView, now: u64) -> (ScanView, ScanOutput) {
    (
        ScanView {
            run: Some(RunView { phase: ScanPhase::Settling, since: now, ..r }),
            snapshot: match s.snapshot {
                Some(snap) => Some(SnapshotView { last_tuned: Some(tuned_event(r)), ..snap }),
                None => None,
            },
            out: None,
            ..s
        },
        ScanOutput::Emit(seq![tuned_event(r)]),
    )
}

/// What the outcome of a command, at instant `now`, does to a scanner that
/// waits for it. A channel that cannot be tuned is passed over.
pub open spec fn scan_sent(s: ScanView, accepted: bool, now: u64) -> (ScanView, ScanOutput) {
    match (s.run, s.out) {
        (Some(r), Some((part, beat))) => {
            let c = r.channels[r.idx as int];
            let passed_over = (
                ScanView { run: Some(advanced(r, beat)), out: None, ..s },
                ScanOutput::Rest,
            );
            if !accepted {
                passed_over
            } else {
                match part {
                    TunePart::Rx => match scan_tx(c) {
                        Some(f) => (
                            ScanView { out: Some((TunePart::Tx, beat)), ..s },
                            ScanOutput::SendTx(f),
                        ),
                        None => passed_over,
                    },
                    TunePart::Tx => match scan_mode(c) {
                        Some(m) => (
                            ScanView { out: Some((TunePart::Mode, beat)), ..s },
                            ScanOutput::SendMode(m),
                        ),
                        None => scan_tuned(s, r, now),
                    },
                    TunePart::Mode => scan_tuned(s, r, now),
                }
            }
        },
        _ => (ScanView { out: None, ..s }, ScanOutput::Rest),
    }
}

struct ScanRun {
    config: ScanConfig,
    channels: Vec<Channel>,
    idx: usize,
    phase: ScanPhase,
    since: u64,
}

impl ScanRun {
    #[verifier::type_invariant]
    closed spec fn on_a_channel(self) -> bool {
        self.idx < self.channels@.len()
    }

    closed spec fn model(self) -> RunView {
        RunView {
            config: self.config@,
            channels: self.channels@,
            idx: self.idx as nat,
            phase: self.phase,
            since: self.since,
        }
    }

    fn advance(self, now: u64) -> (r: ScanRun)
        ensures
            r.model() == advanced(self.model(), now),
    {
        proof {
            use_type_invariant(&self);
        }
        let last: usize = self.channels.len() - 1;
        let idx: usize = if self.idx == last {
            0
        } else {
            self.idx + 1
        };
        proof {
            if self.idx + 1 < self.channels@.len() {
                vstd::arithmetic::div_mod::lemma_small_mod(
                    (self.idx + 1) as nat,
                    self.channels@.len(),
                );
            } else {
                vstd::arithmetic::div_mod::lemma_mod_self_0(self.channels@.len() as int);
            }
        }
        ScanRun {
            config: self.config,
            channels: self.channels,
            idx,
            phase: ScanPhase::NeedsTune,
            since: now,
        }
    }

    fn enter(self, phase: ScanPhase, now: u64) -> (r: ScanRun)
        ensures
            r.model() == (RunView { phase, since: now, ..self.model() }),
    {
        proof {
            use_type_invariant(&self);
        }
        ScanRun {
            config: self.config,
            channels: self.channels,
            idx: self.idx,
            phase,
            since: now,
        }
    }

    fn channel(&self) -> (r: &Channel)
        ensures
            *r == self.model().channels[self.model().idx as int],
            self.model().idx < self.model().channels.len(),
    {
        proof {
            use_type_invariant(self);
        }
        &self.channels[self.idx]
    }

    fn tuned(&self) -> (r: ScanEvent)
        ensures
            r@ == tuned_event(self.model()),
    {
        let c = self.channel();
        ScanEvent::Tuned {
            channel_id: c.id,
            name: c.name.clone(),
            rx_hz: c.rx_hz,
            tx_hz: c.tx_hz,
            idx: self.idx,
            total: self.channels.len(),
        }
    }

    fn hit(&self) -> (r: ScanEvent)
        ensures
            r@ == hit_event(self.model()),
    {
        let c = self.channel();
        ScanEvent::Hit { channel_id: c.id, name: c.name.clone(), rx_hz: c.rx_hz }
    }
}

/// The state of the scanner.
pub struct Scanner {
    run: Option<ScanRun>,
    squelch_open: bool,
    snapshot: Option<ScanSnapshot>,
    out: Option<(TunePart, u64)>,
}

impl View for Scanner {
    type V = ScanView;

    closed spec fn view(&self) -> ScanView {
        ScanView {
            run: match self.run {
                Some(r) => Some(r.model()),
                None => None,
            },
            squelch_open: self.squelch_open,
            snapshot: match self.snapshot {
                Some(s) => Some(s@),
                None => None,
            },
            out: self.out,
        }
    }
}

/// The answer to a start request, and what everyone is told.
#[derive(Debug)]
pub struct StartOutcome {
    pub reply: Result<usize, String>,
    pub event: ScanEvent,
}

/// What the library gave, by view.
pub open spec fn loaded_view(
    loaded: Result<Vec<Channel>, String>,
) -> Result<Seq<Channel>, Seq<char>> {
    match loaded {
        Ok(all) => Ok(all@),
        Err(e) => Err(e@),
    }
}

/// What a start request does, and what everyone is told.
pub open spec fn scan_start(
    s: ScanView,
    config: ConfigView,
    loaded: Result<Seq<Channel>, Seq<char>>,
    now: u64,
) -> (ScanView, EventView) {
    match loaded {
        Ok(all) => {
            let channels = all.filter(|c: Channel| scannable(c));
            (
                scan_started(s, config, all, now),
                if channels.len() > 0 {
                    EventView::Started { total: channels.len(), group: config.group }
                } else {
                    EventView::Stopped { reason: "empty_list"@ }
                },
            )
        },
        Err(e) => (s, EventView::Stopped { reason: "db: "@ + e }),
    }
}

/// Whether this is the answer to a start request.
pub open spec fn start_answered(
    loaded: Result<Seq<Channel>, Seq<char>>,
    reply: Result<usize, String>,
) -> bool {
    match loaded {
        Ok(all) => {
            let channels = all.filter(|c: Channel| scannable(c));
            if channels.len() > 0 {
                reply is Ok && reply->Ok_0 == channels.len()
            } else {
                reply is Err && reply->Err_0@ == "no tunable channels in that group"@
            }
        },
        Err(e) => reply is Err && reply->Err_0@ == "db: "@ + e,
    }
}

/// What a stop request does, and what everyone is told, if anything.
pub open spec fn scan_stop(s: ScanView) -> (ScanView, Option<EventView>) {
    match s.run {
        Some(_) => (scan_shutdown(s), Some(EventView::Stopped { reason: "user_stop"@ })),
        None => (s, None),
    }
}

/// The scanner after a request to go on to the next channel.
pub open spec fn scan_skip(s: ScanView, now: u64) -> ScanView {
    ScanView {
        run: match s.run {
            Some(r) => Some(advanced(r, now)),
            None => None,
        },
        ..s
    }
}

/// The scanner once whatever runs has been ended.
pub open spec fn scan_shutdown(s: ScanView) -> ScanView {
    ScanView { run: None, snapshot: None, ..s }
}

/// The scanner after news from the radio: it takes note of the squelch.
pub open spec fn scan_telemetry(s: ScanView, update: TelemetryUpdate) -> ScanView {
    ScanView {
        squelch_open: match update {
            TelemetryUpdate::Squelch(q) => q is Broken,
            _ => s.squelch_open,
        },
        ..s
    }
}

/// What a client that connects now is told.
pub open spec fn scan_catch_up(s: ScanView) -> Seq<EventView> {
    match s.snapshot {
        Some(snap) => {
            let started = EventView::Started { total: snap.total, group: snap.group };
            match snap.last_tuned {
                Some(e) => seq![started, e],
                None => seq![started],
            }
        },
        None => seq![],
    }
}

/// A scanner that has done nothing yet.
pub open spec fn new_scanner() -> ScanView {
    ScanView { run: None, squelch_open: false, snapshot: None, out: None }
}

/// The scanner after a start request, given the channels that the library has.
pub open spec fn scan_started(
    s: ScanView,
    config: ConfigView,
    all: Seq<Channel>,
    now: u64,
) -> ScanView {
    let channels = all.filter(|c: Channel| scannable(c));
    if channels.len() == 0 {
        s
    } else {
        ScanView {
            run: Some(
                RunView { config, channels, idx: 0, phase: ScanPhase::NeedsTune, since: now },
            ),
            snapshot: Some(
                SnapshotView { total: channels.len(), group: config.group, last_tuned: None },
            ),
            ..s
        }
    }
}

fn waited_ms(since: u64, now: u64, ms: u64) -> (r: bool)
    ensures
        r == waited(since, now, ms),
{
    let gone: u128 = if now >= since {
        (now - since) as u128
    } else {
        0
    };
    gone >= ms as u128 * 1_000_000
}

/// The channels that can be tuned at all, in order.
pub fn tunable_channels(all: Vec<Channel>) -> (r: Vec<Channel>)
    ensures
        r@ == all@.filter(|c: Channel| scannable(c)),
{
    let ghost keep = |c: Channel| scannable(c);
    let ghost whole = all@;
    let mut out: Vec<Channel> = Vec::new();
    proof {
        reveal(Seq::filter);
        assert(whole.take(0).filter(keep) =~= seq![]);
    }
    for c in it: all
        invariant
            it.seq() == whole,
            keep == |c: Channel| scannable(c),
            out@ == whole.take(it.index()).filter(keep),
    {
        proof {
            reveal(Seq::filter);
            let k = it.index();
            assert(whole.take(k + 1) =~= whole.take(k).push(c));
            assert(whole.take(k + 1).drop_last() =~= whole.take(k));
        }
        if band_for(c.rx_hz).is_some() || band_for(c.tx_hz).is_some() {
            out.push(c);
        }
    }
    proof {
        assert(whole.take(whole.len() as int) =~= whole);
    }
    out
}

/// A modulation by its stored name.
pub fn mode_to_urc(mode: &str) -> (r: Option<ModMode>)
    ensures
        r == urc_mode(mode@),
{
    if str_eq(mode, "am") {
        Some(ModMode::Am)
    } else if str_eq(mode, "fm") {
        Some(ModMode::Fm)
    } else {
        None
    }
}

fn rx_of(c: &Channel) -> (r: Option<Freq>)
    ensures
        match r {
            Some(f) => scan_rx(*c) == Some(f@),
            None => scan_rx(*c) is None,
        },
{
    match band_for_pair(c.rx_hz, c.tx_hz) {
        Some(band) => match Freq::new(c.rx_hz, band, Step::Khz5) {
            Ok(f) => Some(f),
            Err(_) => None,
        },
        None => None,
    }
}

fn tx_of(c: &Channel) -> (r: Option<Freq>)
    ensures
        match r {
            Some(f) => scan_tx(*c) == Some(f@),
            None => scan_tx(*c) is None,
        },
{
    let hz: u32 = if band_for(c.tx_hz).is_some() {
        c.tx_hz
    } else {
        c.rx_hz
    };
    match band_for_pair(c.rx_hz, c.tx_hz) {
        Some(band) => match Freq::new(hz, band, Step::Khz5) {
            Ok(f) => Some(f),
            Err(_) => None,
        },
        None => None,
    }
}

fn copy_group(group: &Option<String>) -> (r: Option<String>)
    ensures
        opt_view(r) == opt_view(*group),
{
    match group {
        Some(g) => Some(g.clone()),
        None => None,
    }
}

impl Scanner {
    pub fn new() -> (r: Scanner)
        ensures
            r@ == new_scanner(),
    {
        Scanner { run: None, squelch_open: false, snapshot: None, out: None }
    }

    /// Whether the scanner waits for the outcome of a command.
    pub fn is_waiting(&self) -> (r: bool)
        ensures
            r == self@.out is Some,
    {
        self.out.is_some()
    }

    /// What a client that connects now is told: that a scan runs, and the
    /// channel it is on.
    pub fn catch_up(&self) -> (r: Vec<ScanEvent>)
        ensures
            event_views(r@) == scan_catch_up(self@),
    {
        let mut out: Vec<ScanEvent> = Vec::new();
        if let Some(snap) = &self.snapshot {
            out.push(
                ScanEvent::Started { total: snap.total, group: copy_group(&snap.group) },
            );
            if let Some(e) = &snap.last_tuned {
                out.push(copy_event(e));
            }
        }
        assert(event_views(out@) =~= scan_catch_up(self@));
        out
    }

    /// Start a scan over the channels that the library gave, or take note that
    /// it gave none.
    pub fn start(
        &mut self,
        config: ScanConfig,
        loaded: Result<Vec<Channel>, String>,
        now: u64,
    ) -> (r: StartOutcome)
        requires
            old(self)@.out is None,
        ensures
            (final(self)@, r.event@) == scan_start(
                old(self)@,
                config@,
                loaded_view(loaded),
                now,
            ),
            start_answered(loaded_view(loaded), r.reply),
    {
        match loaded {
            Ok(all) => {
                let channels = tunable_channels(all);
                if channels.len() == 0 {
                    return StartOutcome {
                        reply: Err("no tunable channels in that group".to_string()),
                        event: ScanEvent::Stopped { reason: "empty_list".to_string() },
                    };
                }
                let total: usize = channels.len();
                let event = ScanEvent::Started { total, group: copy_group(&config.group) };
                self.snapshot = Some(
                    ScanSnapshot { total, group: copy_group(&config.group), last_tuned: None },
                );
                self.run = Some(
                    ScanRun {
                        config,
                        channels,
                        idx: 0,
                        phase: ScanPhase::NeedsTune,
                        since: now,
                    },
                );
                StartOutcome { reply: Ok(total), event }
            },
            Err(e) => {
                let mut text = String::new();
                text.append("db: ");
                text.append(e.as_str());
                assert(text@ =~= "db: "@ + e@);
                let reason = text.clone();
                StartOutcome { reply: Err(text), event: ScanEvent::Stopped { reason } }
            },
        }
    }

    /// Stop the scan, where one runs.
    pub fn stop(&mut self) -> (r: Option<ScanEvent>)
        requires
            old(self)@.out is None,
        ensures
            (
                final(self)@,
                match r {
                    Some(e) => Some(e@),
                    None => None,
                },
            ) == scan_stop(old(self)@),
    {
        if self.run.is_none() {
            return None;
        }
        self.run = None;
        self.snapshot = None;
        Some(ScanEvent::Stopped { reason: "user_stop".to_string() })
    }

    /// Go on to the next channel, where a scan runs.
    pub fn skip(&mut self, now: u64)
        requires
            old(self)@.out is None,
        ensures
            final(self)@ == scan_skip(old(self)@, now),
    {
        if let Some(r) = self.run.take() {
            self.run = Some(r.advance(now));
        }
    }

    /// End whatever runs.
    pub fn shutdown(&mut self)
        requires
            old(self)@.out is None,
        ensures
            final(self)@ == scan_shutdown(old(self)@),
    {
        self.run = None;
        self.snapshot = None;
    }

    /// Take note of the squelch.
    pub fn telemetry(&mut self, update: &TelemetryUpdate)
        ensures
            final(self)@ == scan_telemetry(old(self)@, *update),
    {
        if let TelemetryUpdate::Squelch(s) = update {
            self.squelch_open = match s {
                SquelchStatus::Broken => true,
                SquelchStatus::Closed => false,
            };
        }
    }

    /// One beat.
    pub fn tick(&mut self, now: u64) -> (r: ScanAction)
        requires
            old(self)@.out is None,
        ensures
            (final(self)@, r@) == scan_tick(old(self)@, now),
    {
        let run = match self.run.take() {
            Some(r) => r,
            None => return ScanAction::Rest,
        };
        match run.phase {
            ScanPhase::NeedsTune => {
                match rx_of(run.channel()) {
                    Some(f) => {
                        self.run = Some(run);
                        self.out = Some((TunePart::Rx, now));
                        ScanAction::Send(OpCommand::SetRx(f))
                    },
                    None => {
                        self.run = Some(run.advance(now));
                        ScanAction::Rest
                    },
                }
            },
            ScanPhase::Settling => {
                if !waited_ms(run.since, now, run.config.settle_ms) {
                    self.run = Some(run);
                    return ScanAction::Rest;
                }
                if !self.squelch_open {
                    self.run = Some(run.advance(now));
                    return ScanAction::Rest;
                }
                let mut events: Vec<ScanEvent> = Vec::new();
                events.push(run.hit());
                if run.config.stop_on_hit {
                    let mut reason = String::new();
                    reason.append("first_hit:");
                    reason.append(run.channel().name.as_str());
                    assert(reason@ =~= "first_hit:"@ + run.model().channels[run.model().idx as int].name@);
                    events.push(ScanEvent::Stopped { reason });
                    assert(event_views(events@) =~= seq![
                        hit_event(run.model()),
                        EventView::Stopped { reason: reason@ },
                    ]);
                    self.snapshot = None;
                    return ScanAction::Emit(events);
                }
                assert(event_views(events@) =~= seq![hit_event(run.model())]);
                self.run = Some(run.enter(ScanPhase::Dwelling, now));
                ScanAction::Emit(events)
            },
            ScanPhase::Dwelling => {
                if self.squelch_open {
                    self.run = Some(run.enter(ScanPhase::Dwelling, now));
                } else if waited_ms(run.since, now, run.config.dwell_ms) {
                    self.run = Some(run.advance(now));
                } else {
                    self.run = Some(run);
                }
                ScanAction::Rest
            },
        }
    }

    fn arrive(&mut self, run: ScanRun, now: u64) -> (r: ScanAction)
        requires
            old(self)@.out is None,
        ensures
            (final(self)@, r@) == scan_tuned(old(self)@, run.model(), now),
    {
        let event = run.tuned();
        if let Some(snap) = self.snapshot.take() {
            self.snapshot = Some(
                ScanSnapshot {
                    total: snap.total,
                    group: snap.group,
                    last_tuned: Some(run.tuned()),
                },
            );
        }
        let mut events: Vec<ScanEvent> = Vec::new();
        events.push(event);
        assert(event_views(events@) =~= seq![tuned_event(run.model())]);
        self.run = Some(run.enter(ScanPhase::Settling, now));
        ScanAction::Emit(events)
    }

    /// Take what came of the command that was out, at instant `now`.
    pub fn sent(&mut self, result: Result<Response, RadioError>, now: u64) -> (r: ScanAction)
        requires
            old(self)@.out is Some,
        ensures
            (final(self)@, r@) == scan_sent(old(self)@, result is Ok, now),
    {
        let (part, beat) = match self.out.take() {
            Some(o) => o,
            None => return ScanAction::Rest,
        };
        let run = match self.run.take() {
            Some(r) => r,
            None => return ScanAction::Rest,
        };
        if result.is_err() {
            self.run = Some(run.advance(beat));
            return ScanAction::Rest;
        }
        match part {
            TunePart::Rx => match tx_of(run.channel()) {
                Some(f) => {
                    self.run = Some(run);
                    self.out = Some((TunePart::Tx, beat));
                    ScanAction::Send(OpCommand::SetTx(f))
                },
                None => {
                    self.run = Some(run.advance(beat));
                    ScanAction::Rest
                },
            },
            TunePart::Tx => {
                let mode: Option<ModMode> = match &run.channel().mode {
                    Some(m) => mode_to_urc(m.as_str()),
                    None => None,
                };
                match mode {
                    Some(m) => {
                        self.run = Some(run);
                        self.out = Some((TunePart::Mode, beat));
                        ScanAction::Send(OpCommand::ModTxRx(m))
                    },
                    None => self.arrive(run, now),
                }
            },
            TunePart::Mode => self.arrive(run, now),
        }
    }
}

fn copy_event(e: &ScanEvent) -> (r: ScanEvent)
    ensures
        r@ == e@,
{
    match e {
        ScanEvent::Started { total, group } => ScanEvent::Started {
            total: *total,
            group: copy_group(group),
        },
        ScanEvent::Tuned { channel_id, name, rx_hz, tx_hz, idx, total } => ScanEvent::Tuned {
            channel_id: *channel_id,
            name: name.clone(),
            rx_hz: *rx_hz,
            tx_hz: *tx_hz,
            idx: *idx,
            total: *total,
        },
        ScanEvent::Hit { channel_id, name, rx_hz } => ScanEvent::Hit {
            channel_id: *channel_id,
            name: name.clone(),
            rx_hz: *rx_hz,
        },
        ScanEvent::Stopped { reason } => ScanEvent::Stopped { reason: reason.clone() },
    }
}

// ---------- A client's session ----------

/// What a client says.
#[derive(Debug)]
pub enum ScanClientMsg {
    Start(ScanConfig),
    Stop,
    Skip,
}

/// Something that happens in a session.
#[derive(Debug)]
pub enum ScanIncoming {
    /// The scanner has told everyone something.
    Event(ScanEvent),
    /// Some of what the scanner told was missed.
    EventsLagged,
    /// The scanner will tell nothing more.
    EventsClosed,
    Client(ScanClientMsg),
    /// The client sent a text that is no message; why it is none.
    BadJson(String),
    /// The client sent something else.
    Other,
    /// The connection has ended or failed.
    Disconnected,
}

/// An answer to a client alone.
#[derive(Debug, Clone, PartialEq, Eq)]
pub enum ScanReply {
    StartAck { total: usize },
    StartErr { message: String },
    Error { message: String },
}

/// What the caller is to do.
#[derive(Debug)]
pub enum ScanSessionAction {
    Nothing,
    /// Tell the client. The session ends where that fails.
    Tell(ScanEvent),
    /// Answer the client, if that is possible.
    Answer(ScanReply),
    /// Ask the scanner, and answer with [`start_reply`].
    Start(ScanConfig),
    Stop,
    Skip,
    /// End the session.
    Leave,
}

/// Whether an action is what a session does on something that happens.
pub open spec fn scan_session_does(x: ScanIncoming, r: ScanSessionAction) -> bool {
    match x {
        ScanIncoming::Event(e) => r == ScanSessionAction::Tell(e),
        ScanIncoming::EventsLagged => r is Nothing,
        ScanIncoming::EventsClosed => r is Leave,
        ScanIncoming::Client(ScanClientMsg::Start(c)) => r == ScanSessionAction::Start(c),
        ScanIncoming::Client(ScanClientMsg::Stop) => r is Stop,
        ScanIncoming::Client(ScanClientMsg::Skip) => r is Skip,
        ScanIncoming::BadJson(e) => match r {
            ScanSessionAction::Answer(ScanReply::Error { message }) => message@ == "bad json: "@
                + e@,
            _ => false,
        },
        ScanIncoming::Other => r is Nothing,
        ScanIncoming::Disconnected => r is Leave,
    }
}

/// What a session does on something that happens.
pub fn scan_session(x: ScanIncoming) -> (r: ScanSessionAction)
    ensures
        scan_session_does(x, r),
{
    match x {
        ScanIncoming::Event(e) => ScanSessionAction::Tell(e),
        ScanIncoming::EventsLagged => ScanSessionAction::Nothing,
        ScanIncoming::EventsClosed => ScanSessionAction::Leave,
        ScanIncoming::Client(ScanClientMsg::Start(c)) => ScanSessionAction::Start(c),
        ScanIncoming::Client(ScanClientMsg::Stop) => ScanSessionAction::Stop,
        ScanIncoming::Client(ScanClientMsg::Skip) => ScanSessionAction::Skip,
        ScanIncoming::BadJson(e) => {
            let mut message = String::new();
            message.append("bad json: ");
            message.append(e.as_str());
            assert(message@ =~= "bad json: "@ + e@);
            ScanSessionAction::Answer(ScanReply::Error { message })
        },
        ScanIncoming::Other => ScanSessionAction::Nothing,
        ScanIncoming::Disconnected => ScanSessionAction::Leave,
    }
}

/// The answer to a start request.
pub fn start_reply(result: Result<usize, String>) -> (r: ScanReply)
    ensures
        match result {
            Ok(n) => r == (ScanReply::StartAck { total: n }),
            Err(e) => r == (ScanReply::StartErr { message: e }),
        },
{
    match result {
        Ok(total) => ScanReply::StartAck { total },
        Err(message) => ScanReply::StartErr { message },
    }
}

// ---------- Laws ----------

/// A sound scanner: a running scan is on one of its channels, all of which can
/// be tuned; a command is out only while the channel is being tuned; and there
/// is a snapshot exactly while a scan runs, which says how many channels it
/// has, of which group, and, if anything, what was tuned last.
pub open spec fn scan_sound(s: ScanView) -> bool {
    &&& s.run is Some <==> s.snapshot is Some
    &&& s.out is Some ==> s.run is Some && s.run->0.phase is NeedsTune
    &&& match (s.run, s.snapshot) {
        (Some(r), Some(snap)) => {
            &&& r.idx < r.channels.len()
            &&& forall|i: int| 0 <= i < r.channels.len() ==> scannable(#[trigger] r.channels[i])
            &&& snap.total == r.channels.len()
            &&& snap.group == r.config.group
            &&& snap.last_tuned is Some ==> snap.last_tuned->0 is Tuned
        },
        _ => true,
    }
}

/// Something that is done to a scanner.
#[verifier::ext_equal]
pub enum ScanStimulus {
    Start(ConfigView, Result<Seq<Channel>, Seq<char>>, u64),
    Stop,
    Skip(u64),
    Shutdown,
    Telemetry(TelemetryUpdate),
    Tick(u64),
    /// The outcome of the command that is out: whether it was accepted, and when.
    Sent(bool, u64),
}

/// The events of an output.
pub open spec fn emitted(out: ScanOutput) -> Seq<EventView> {
    match out {
        ScanOutput::Emit(events) => events,
        _ => seq![],
    }
}

/// The scanner after a stimulus, and the events that everyone is told. While a
/// command is out, everything but its outcome and news from the radio waits;
/// while none is, there is no outcome.
pub open spec fn scan_step(s: ScanView, x: ScanStimulus) -> (ScanView, Seq<EventView>) {
    match x {
        ScanStimulus::Telemetry(update) => (scan_telemetry(s, update), seq![]),
        ScanStimulus::Sent(accepted, now) => if s.out is Some {
            let (t, out) = scan_sent(s, accepted, now);
            (t, emitted(out))
        } else {
            (s, seq![])
        },
        _ => if s.out is Some {
            (s, seq![])
        } else {
            match x {
                ScanStimulus::Start(config, loaded, now) => {
                    let (t, event) = scan_start(s, config, loaded, now);
                    (t, seq![event])
                },
                ScanStimulus::Stop => match scan_stop(s) {
                    (t, Some(event)) => (t, seq![event]),
                    (t, None) => (t, seq![]),
                },
                ScanStimulus::Skip(now) => (scan_skip(s, now), seq![]),
                ScanStimulus::Shutdown => (scan_shutdown(s), seq![]),
                ScanStimulus::Tick(now) => {
                    let (t, out) = scan_tick(s, now);
                    (t, emitted(out))
                },
                _ => (s, seq![]),
            }
        },
    }
}

/// The scanner after a history, from the start.
pub open spec fn scan_run(xs: Seq<ScanStimulus>) -> ScanView
    decreases xs.len(),
{
    if xs.len() == 0 {
        new_scanner()
    } else {
        scan_step(scan_run(xs.drop_last()), xs.last()).0
    }
}

/// Everything that everyone is told in a history, in order.
pub open spec fn scan_told(xs: Seq<ScanStimulus>) -> Seq<EventView>
    decreases xs.len(),
{
    if xs.len() == 0 {
        seq![]
    } else {
        scan_told(xs.drop_last()) + scan_step(scan_run(xs.drop_last()), xs.last()).1
    }
}

/// The last `Started` event.
pub open spec fn newest_started(told: Seq<EventView>) -> Option<EventView>
    decreases told.len(),
{
    if told.len() == 0 {
        None
    } else if told.last() is Started {
        Some(told.last())
    } else {
        newest_started(told.drop_last())
    }
}

/// The last `Tuned` event since the last `Started` event, if there is one.
pub open spec fn newest_tuned(told: Seq<EventView>) -> Option<EventView>
    decreases told.len(),
{
    if told.len() == 0 || told.last() is Started {
        None
    } else if told.last() is Tuned {
        Some(told.last())
    } else {
        newest_tuned(told.drop_last())
    }
}

/// A fresh scanner is sound, and everything that is done to a scanner keeps it
/// sound.
pub proof fn law_scanner_stays_sound(s: ScanView, x: ScanStimulus)
    ensures
        scan_sound(new_scanner()),
        scan_sound(s) ==> scan_sound(scan_step(s, x).0),
{
    if let ScanStimulus::Start(config, Ok(all), now) = x {
        let channels = all.filter(|c: Channel| scannable(c));
        assert forall|i: int| 0 <= i < channels.len() implies scannable(#[trigger] channels[i]) by {
            all.lemma_filter_pred(|c: Channel| scannable(c), i);
        }
    }
}

/// The snapshot is up to date, whatever has happened. While a scan runs, the
/// snapshot is that of the newest start, and what it says was tuned last is the
/// newest `Tuned` event since then, or nothing where nothing has been tuned
/// since. So a client that connects is told the newest start and that event,
/// and nothing while no scan runs.
pub proof fn law_snapshot_is_current(xs: Seq<ScanStimulus>)
    ensures
        ({
            let s = scan_run(xs);
            let told = scan_told(xs);
            &&& scan_sound(s)
            &&& s.snapshot is Some <==> s.run is Some
            &&& s.snapshot is Some ==> {
                &&& s.snapshot->0.last_tuned == newest_tuned(told)
                &&& newest_started(told) == Some(
                    EventView::Started { total: s.snapshot->0.total, group: s.snapshot->0.group },
                )
            }
            &&& scan_catch_up(s) == if s.run is None {
                Seq::empty()
            } else {
                match newest_tuned(told) {
                    Some(tuned) => seq![newest_started(told)->0, tuned],
                    None => seq![newest_started(told)->0],
                }
            }
        }),
    decreases xs.len(),
{
    if xs.len() > 0 {
        let front = xs.drop_last();
        law_snapshot_is_current(front);
        let s = scan_run(front);
        law_scanner_stays_sound(s, xs.last());
        let before = scan_told(front);
        let new = scan_step(s, xs.last()).1;
        assert(scan_told(xs) == before + new);
        if new.len() == 0 {
            assert(before + new =~= before);
        } else if new.len() == 1 {
            assert(before + new =~= before.push(new[0]));
            assert(before.push(new[0]).drop_last() =~= before);
        }
    }
}

/// The scanner only receives: the commands it sends set the receive frequency,
/// the transmit frequency or the modulation, and both frequencies can be tuned.
pub proof fn law_scanner_only_receives(s: ScanView, now: u64, accepted: bool)
    ensures
        ({
            let (_, a) = scan_tick(s, now);
            let (_, b) = scan_sent(s, accepted, now);
            &&& !(a is SendOther) && !(b is SendOther)
            &&& a is SendRx ==> a->SendRx_0.tunable()
            &&& b is SendRx ==> b->SendRx_0.tunable()
            &&& a is SendTx ==> a->SendTx_0.tunable()
            &&& b is SendTx ==> b->SendTx_0.tunable()
        }),
{
}

/// A channel whose receive frequency is in no band is passed over, and nothing
/// is sent.
pub proof fn law_out_of_band_passed_over(s: ScanView, now: u64)
    requires
        s.run is Some,
        s.run->0.phase is NeedsTune,
        band_of(s.run->0.channels[s.run->0.idx as int].rx_hz) is None,
    ensures
        scan_tick(s, now) == (
            ScanView { run: Some(advanced(s.run->0, now)), ..s },
            ScanOutput::Rest,
        ),
{
}

/// The scan after so many moves to the next channel.
pub open spec fn moved(r: RunView, times: nat, now: u64) -> RunView
    decreases times,
{
    if times == 0 {
        r
    } else {
        advanced(moved(r, (times - 1) as nat, now), now)
    }
}

/// The scan walks round its channels: after so many moves it is that many
/// channels further on, counted round; after as many as it has channels it is
/// back.
pub proof fn law_walks_round(r: RunView, times: nat, now: u64)
    requires
        r.idx < r.channels.len(),
    ensures
        moved(r, times, now).channels == r.channels,
        moved(r, times, now).idx == (r.idx + times) % r.channels.len(),
        moved(r, r.channels.len(), now).idx == r.idx,
    decreases times,
{
    let n = r.channels.len() as int;
    lemma_moved(r, times, now);
    lemma_moved(r, r.channels.len(), now);
    vstd::arithmetic::div_mod::lemma_mod_add_multiples_vanish(r.idx as int, n);
    vstd::arithmetic::div_mod::lemma_small_mod(r.idx, r.channels.len());
}

/// From any channel, the scan comes to every channel.
pub proof fn law_comes_to_every_channel(r: RunView, target: nat, now: u64)
    requires
        r.idx < r.channels.len(),
        target < r.channels.len(),
    ensures
        moved(r, (target + r.channels.len() - r.idx) as nat, now).idx == target,
{
    let n = r.channels.len() as int;
    lemma_moved(r, (target + n - r.idx) as nat, now);
    vstd::arithmetic::div_mod::lemma_mod_add_multiples_vanish(target as int, n);
    vstd::arithmetic::div_mod::lemma_small_mod(target, r.channels.len());
}

proof fn lemma_moved(r: RunView, times: nat, now: u64)
    requires
        r.idx < r.channels.len(),
    ensures
        moved(r, times, now).channels == r.channels,
        moved(r, times, now).idx == (r.idx + times) % r.channels.len(),
    decreases times,
{
    let n = r.channels.len() as int;
    if times == 0 {
        vstd::arithmetic::div_mod::lemma_small_mod(r.idx, r.channels.len());
    } else {
        lemma_moved(r, (times - 1) as nat, now);
        vstd::arithmetic::div_mod::lemma_add_mod_noop(r.idx + times - 1, 1, n);
        vstd::arithmetic::div_mod::lemma_add_mod_noop(
            moved(r, (times - 1) as nat, now).idx as int,
            1,
            n,
        );
        vstd::arithmetic::div_mod::lemma_mod_twice(r.idx + times - 1, n);
    }
}

/// The radio is given time to settle: when the answer to the last command of a
/// tuning has come, beats change nothing until the settling time has gone by
/// since that answer. Only then is the squelch looked at.
pub proof fn law_settles_after_tuning(s: ScanView, answered: u64, beat: u64)
    requires
        scan_sound(s),
        s.out is Some,
        scan_sent(s, true, answered).1 is Emit,
    ensures
        ({
            let (after, out) = scan_sent(s, true, answered);
            &&& out == ScanOutput::Emit(seq![tuned_event(s.run->0)])
            &&& after.out is None
            &&& after.run == Some(
                RunView { phase: ScanPhase::Settling, since: answered, ..s.run->0 },
            )
            &&& !waited(answered, beat, s.run->0.config.settle_ms) ==> scan_tick(after, beat) == (
                after,
                ScanOutput::Rest,
            )
        }),
{
}

/// On an active channel the scan stays: while the squelch is open the wait
/// starts anew with every beat, and it goes on only once the squelch has been
/// closed for the whole dwell time.
pub proof fn law_dwells_on_activity(s: ScanView, now: u64)
    requires
        s.run is Some,
        s.run->0.phase is Dwelling,
    ensures
        ({
            let r = s.run->0;
            let after = scan_tick(s, now).0.run->0;
            &&& s.squelch_open ==> after == (RunView { since: now, ..r })
            &&& !s.squelch_open && !waited(r.since, now, r.config.dwell_ms) ==> after == r
            &&& !s.squelch_open && waited(r.since, now, r.config.dwell_ms) ==> after == advanced(
                r,
                now,
            )
            &&& scan_tick(s, now).1 is Rest
        }),
{
}

/// Activity is reported, and where the client asked for it, ends the scan.
pub proof fn law_hit_reported(s: ScanView, now: u64)
    requires
        s.run is Some,
        s.run->0.phase is Settling,
        waited(s.run->0.since, now, s.run->0.config.settle_ms),
        s.squelch_open,
    ensures
        ({
            let r = s.run->0;
            let (after, out) = scan_tick(s, now);
            &&& out is Emit && out->Emit_0[0] == hit_event(r)
            &&& after.run is None <==> r.config.stop_on_hit
            &&& !r.config.stop_on_hit ==> after.run->0.phase is Dwelling
        }),
{
}

/// The channel that a running scan is on.
pub open spec fn current(s: ScanView) -> Channel {
    s.run->0.channels[s.run->0.idx as int]
}

/// Whether a scanner has moved on to the channel behind the one it was on, round
/// the end, with everything else of the scan as it was.
pub open spec fn moved_on(before: ScanView, after: ScanView) -> bool {
    &&& after.run is Some
    &&& after.run->0.channels == before.run->0.channels
    &&& after.run->0.config == before.run->0.config
    &&& after.run->0.phase is NeedsTune
    &&& after.run->0.idx == (if before.run->0.idx + 1 == before.run->0.channels.len() {
        0
    } else {
        before.run->0.idx + 1
    })
    &&& after.out is None
    &&& after.snapshot == before.snapshot
    &&& after.squelch_open == before.squelch_open
}

proof fn lemma_moves_on(s: ScanView, now: u64)
    requires
        s.run is Some,
        s.run->0.idx < s.run->0.channels.len(),
    ensures
        moved_on(s, (ScanView { run: Some(advanced(s.run->0, now)), out: None, ..s })),
{
    let r = s.run->0;
    if r.idx + 1 == r.channels.len() {
        vstd::arithmetic::div_mod::lemma_mod_self_0(r.channels.len() as int);
    } else {
        vstd::arithmetic::div_mod::lemma_small_mod((r.idx + 1) as nat, r.channels.len());
    }
}

/// A tuning begins with the channel's own receive frequency: where that lies
/// above 90 MHz in a band and is a whole number of 5 kHz, the receive command
/// carries exactly it; otherwise the scan moves on and nothing is sent.
pub proof fn law_scans_on_own_receive_frequency(s: ScanView, now: u64)
    requires
        scan_sound(s),
        s.run is Some,
        s.run->0.phase is NeedsTune,
        s.out is None,
    ensures
        ({
            let hz = current(s).rx_hz;
            let base = 115_000_000 <= hz <= 173_995_000 || 225_000_000 <= hz <= 399_995_000;
            let high = 400_000_000 <= hz <= 420_000_000;
            let (after, out) = scan_tick(s, now);
            &&& (base || high) && hz % 5_000 == 0 ==> {
                &&& out is SendRx
                &&& out->SendRx_0.hz == hz
                &&& after.run == s.run
                &&& after.snapshot == s.snapshot
                &&& after.out is Some
            }
            &&& !((base || high) && hz % 5_000 == 0) ==> out is Rest && moved_on(s, after)
        }),
{
    lemma_moves_on(s, now);
    assert(scannable(s.run->0.channels[s.run->0.idx as int]));
}

/// The transmitter is set to the channel's own transmit frequency. Once the
/// receive command is accepted, on a channel whose two frequencies lie in one
/// band above 90 MHz and are whole numbers of 5 kHz, the transmit command
/// carries exactly the channel's transmit frequency. Only where that frequency
/// is in no band does the transmit command carry the receive frequency. In
/// every other case the scan moves on to the next channel.
pub proof fn law_scans_with_own_transmit_frequency(s: ScanView, beat: u64, now: u64, band: Band)
    requires
        scan_sound(s),
        s.out == Some((TunePart::Rx, beat)),
        band.covers(current(s).rx_hz),
        band != Band::Lvhf,
    ensures
        ({
            let rx = current(s).rx_hz;
            let tx = current(s).tx_hz;
            let nowhere = forall|b: Band| !#[trigger] b.covers(tx);
            let (after, out) = scan_sent(s, true, now);
            &&& band.covers(tx) && tx % 5_000 == 0 ==> {
                &&& out is SendTx
                &&& out->SendTx_0.hz == tx
                &&& after.run == s.run
                &&& after.out is Some
            }
            &&& nowhere && rx % 5_000 == 0 ==> {
                &&& out is SendTx
                &&& out->SendTx_0.hz == rx
                &&& after.run == s.run
                &&& after.out is Some
            }
            &&& !(band.covers(tx) && tx % 5_000 == 0) && !(nowhere && rx % 5_000 == 0) ==> out
                is Rest && moved_on(s, after)
        }),
{
    let tx = current(s).tx_hz;
    law_coverage(current(s).rx_hz);
    law_coverage(tx);
    lemma_moves_on(s, beat);
    if band_of(tx) is None {
        assert forall|b: Band| !#[trigger] b.covers(tx) by {}
    } else {
        assert((band_of(tx)->0).covers(tx));
    }
}

/// The last command of a tuning, and what everyone is told then. Once the
/// transmit command is accepted, a channel stored as `am` or `fm` has its
/// modulation set; with another or none it is tuned at once. When it is tuned,
/// everyone is told the channel's own number, name and frequencies, its place
/// and how many there are, and the scan waits for the radio to settle.
pub proof fn law_tuned_as_stored(s: ScanView, part: TunePart, beat: u64, now: u64)
    requires
        scan_sound(s),
        s.out == Some((part, beat)),
        part is Tx || part is Mode,
    ensures
        ({
            let c = current(s);
            let (after, out) = scan_sent(s, true, now);
            let stored = |mode: Seq<char>| part is Tx && c.mode is Some && c.mode->0@ == mode;
            &&& stored("am"@) ==> out == ScanOutput::SendMode(ModMode::Am) && after.run == s.run
            &&& stored("fm"@) ==> out == ScanOutput::SendMode(ModMode::Fm) && after.run == s.run
            &&& !stored("am"@) && !stored("fm"@) ==> {
                &&& out == ScanOutput::Emit(
                    seq![
                        EventView::Tuned {
                            channel_id: c.id,
                            name: c.name@,
                            rx_hz: c.rx_hz,
                            tx_hz: c.tx_hz,
                            idx: s.run->0.idx,
                            total: s.run->0.channels.len(),
                        },
                    ],
                )
                &&& after.out is None
                &&& after.run->0.phase is Settling
                &&& after.run->0.since == now
                &&& after.run->0.idx == s.run->0.idx
                &&& after.run->0.channels == s.run->0.channels
                &&& after.run->0.config == s.run->0.config
            }
        }),
{
    reveal_strlit("am");
    reveal_strlit("fm");
    assert("am"@[0] == 'a' && "fm"@[0] == 'f');
}

/// A channel that the radio does not take is passed over: whichever command
/// fails, the scan moves on to the next channel and nobody is told anything.
pub proof fn law_failed_tuning_passed_over(s: ScanView, now: u64)
    requires
        scan_sound(s),
        s.out is Some,
    ensures
        scan_sent(s, false, now).1 is Rest,
        moved_on(s, scan_sent(s, false, now).0),
{
    if let Some((part, beat)) = s.out {
        lemma_moves_on(s, beat);
    }
}

/// What a settled channel does. Less than the settling time after it was tuned,
/// nothing happens. From then on, a quiet channel is left for the next one; on
/// an active one everyone is told the channel's number, name and receive
/// frequency, and the scan either stays or, where the client asked for that,
/// ends and says so.
pub proof fn law_settled_channel(s: ScanView, now: u64)
    requires
        scan_sound(s),
        s.run is Some,
        s.run->0.phase is Settling,
        s.out is None,
        s.run->0.since <= now,
    ensures
        ({
            let c = current(s);
            let settled = now - s.run->0.since >= 1_000_000 * s.run->0.config.settle_ms;
            let hit = EventView::Hit { channel_id: c.id, name: c.name@, rx_hz: c.rx_hz };
            let (after, out) = scan_tick(s, now);
            &&& !settled ==> after == s && out is Rest
            &&& settled && !s.squelch_open ==> out is Rest && moved_on(s, after)
            &&& settled && s.squelch_open && !s.run->0.config.stop_on_hit ==> {
                &&& out == ScanOutput::Emit(seq![hit])
                &&& after.run->0.phase is Dwelling
                &&& after.run->0.since == now
                &&& after.run->0.idx == s.run->0.idx
                &&& after.run->0.channels == s.run->0.channels
                &&& after.snapshot == s.snapshot
            }
            &&& settled && s.squelch_open && s.run->0.config.stop_on_hit ==> {
                &&& out == ScanOutput::Emit(
                    seq![hit, EventView::Stopped { reason: "first_hit:"@ + c.name@ }],
                )
                &&& after.run is None
                &&& after.snapshot is None
            }
        }),
{
    lemma_moves_on(s, now);
}

/// What an active channel does: as long as the squelch is open the scan stays,
/// and it goes on to the next channel once the dwell time has gone by since a
/// beat last found it open.
pub proof fn law_dwelling_channel(s: ScanView, now: u64)
    requires
        scan_sound(s),
        s.run is Some,
        s.run->0.phase is Dwelling,
        s.out is None,
        s.run->0.since <= now,
    ensures
        ({
            let over = now - s.run->0.since >= 1_000_000 * s.run->0.config.dwell_ms;
            let (after, out) = scan_tick(s, now);
            &&& out is Rest
            &&& s.squelch_open ==> after.run->0.phase is Dwelling && after.run->0.idx
                == s.run->0.idx && after.run->0.since == now
            &&& !s.squelch_open && !over ==> after == s
            &&& !s.squelch_open && over ==> moved_on(s, after)
        }),
{
    lemma_moves_on(s, now);
}

/// What the radio says of the squelch is what the scan goes by.
pub proof fn law_squelch_noted(s: ScanView, update: TelemetryUpdate)
    ensures
        ({
            let after = scan_telemetry(s, update);
            &&& update == TelemetryUpdate::Squelch(SquelchStatus::Broken) ==> after.squelch_open
            &&& update == TelemetryUpdate::Squelch(SquelchStatus::Closed) ==> !after.squelch_open
            &&& !(update is Squelch) ==> after == s
            &&& after.run == s.run && after.snapshot == s.snapshot && after.out == s.out
        }),
{
}

/// What a start does: it begins at the first of the library's channels that has
/// a frequency in a band, keeps the others that have one, in their order, and
/// leaves out the rest. Where none has one, a scan that runs goes on.
pub proof fn law_scan_starts(s: ScanView, config: ConfigView, all: Seq<Channel>, now: u64)
    ensures
        ({
            let (after, event) = scan_start(s, config, Ok(all), now);
            let covered = |hz: u32|
                30_000_000 <= hz <= 90_000_000 || 115_000_000 <= hz <= 173_995_000 || 225_000_000
                    <= hz <= 399_995_000 || 400_000_000 <= hz <= 420_000_000;
            let wanted = |c: Channel| covered(c.rx_hz) || covered(c.tx_hz);
            let kept = all.filter(wanted);
            &&& kept.len() > 0 ==> {
                &&& after.run is Some
                &&& after.run->0.channels == kept
                &&& after.run->0.idx == 0
                &&& after.run->0.phase is NeedsTune
                &&& after.run->0.config == config
                &&& after.snapshot is Some
                &&& after.snapshot->0.last_tuned is None
                &&& event == EventView::Started { total: kept.len(), group: config.group }
            }
            &&& kept.len() == 0 ==> after == s && event == EventView::Stopped {
                reason: "empty_list"@,
            }
        }),
{
    let covered = |hz: u32|
        30_000_000 <= hz <= 90_000_000 || 115_000_000 <= hz <= 173_995_000 || 225_000_000 <= hz
            <= 399_995_000 || 400_000_000 <= hz <= 420_000_000;
    let wanted = |c: Channel| covered(c.rx_hz) || covered(c.tx_hz);
    let used = |c: Channel| scannable(c);
    assert forall|c: Channel| #[trigger] wanted(c) == used(c) by {
        law_coverage(c.rx_hz);
        law_coverage(c.tx_hz);
    }
    assert(wanted =~= used);
}

/// A stop ends the scan and says so, a shutdown ends it without a word, and a
/// skip moves on to the next channel, whatever the scan was doing.
pub proof fn law_scan_requests(s: ScanView, now: u64)
    requires
        scan_sound(s),
        s.out is None,
    ensures
        s.run is Some ==> {
            &&& scan_stop(s).0.run is None
            &&& scan_stop(s).0.snapshot is None
            &&& scan_stop(s).1 == Some(EventView::Stopped { reason: "user_stop"@ })
            &&& moved_on(s, scan_skip(s, now))
        },
        s.run is None ==> scan_stop(s) == (s, None::<EventView>) && scan_skip(s, now) == s,
        scan_shutdown(s).run is None && scan_shutdown(s).snapshot is None,
{
    if s.run is Some {
        lemma_moves_on(s, now);
        assert(scan_skip(s, now) == (ScanView {
            run: Some(advanced(s.run->0, now)),
            out: None,
            ..s
        }));
    }
}

/// A session passes on what it hears: every event to its client, every request
/// of its client to the scanner, a start with the client's own settings. It ends
/// only with the connection or the scanner, and reaches the scanner only when
/// its client asks.
pub proof fn law_scan_session_passes_on(x: ScanIncoming, r: ScanSessionAction)
    requires
        scan_session_does(x, r),
    ensures
        r is Start <==> x matches ScanIncoming::Client(ScanClientMsg::Start(_)),
        r is Stop <==> x == ScanIncoming::Client(ScanClientMsg::Stop),
        r is Skip <==> x == ScanIncoming::Client(ScanClientMsg::Skip),
        r is Tell <==> x is Event,
        r is Leave <==> x is EventsClosed || x is Disconnected,
        x matches ScanIncoming::Event(e) ==> r == ScanSessionAction::Tell(e),
        x matches ScanIncoming::Client(ScanClientMsg::Start(c)) ==> r == ScanSessionAction::Start(
            c,
        ),
        x matches ScanIncoming::BadJson(e) ==> (r matches ScanSessionAction::Answer(
            ScanReply::Error { message },
        ) && message@ == "bad json: "@ + e@),
{
}

/// A start request is answered with the number of channels that everyone is told
/// of, and refused exactly when no scan began: for want of channels, or because
/// the library failed, and then what runs goes on.
pub proof fn law_start_answered(
    s: ScanView,
    config: ConfigView,
    loaded: Result<Seq<Channel>, Seq<char>>,
    now: u64,
    reply: Result<usize, String>,
)
    requires
        start_answered(loaded, reply),
    ensures
        ({
            let (after, event) = scan_start(s, config, loaded, now);
            &&& reply is Ok <==> event is Started
            &&& reply matches Ok(n) ==> event == EventView::Started {
                total: n as nat,
                group: config.group,
            } && after.run is Some && after.run->0.channels.len() == n
            &&& reply is Err ==> after == s && event is Stopped
            &&& loaded is Ok && reply is Err ==> reply->Err_0@ == "no tunable channels in that group"@
            &&& loaded matches Err(e) ==> reply->Err_0@ == "db: "@ + e && event
                == EventView::Stopped { reason: "db: "@ + e }
        }),
{
}

/// A new scanner scans nothing, has heard nothing and owes no answer.
pub proof fn law_new_scanner()
    ensures
        new_scanner().run is None,
        !new_scanner().squelch_open,
        new_scanner().snapshot is None,
        new_scanner().out is None,
{
}

} // verus!
