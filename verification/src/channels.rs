//! The channel library: its records, and tuning the radio to one of them.
use vstd::prelude::*;
use crate::command::{law_tuning_digits, ModMode, OpCommand};
use crate::commands::{band_for_pair, pair_band, parse_mod, tune_next, tune_part, TuneNext};
use crate::freq::{band_of, digits_value, tuning_error, Freq, FreqView, Step};
use crate::http::{
    refuse, refuse_because, Refusal, RefusalView, BAD_REQUEST, INTERNAL_SERVER_ERROR, NOT_FOUND,
    SERVICE_UNAVAILABLE,
};
use crate::single::{law_steps_by_pattern, nominal_step, step_of, Single};
use crate::response::Response;
use crate::text::{
    append_decimal, debug_string, debug_text, decimal, duration_string, duration_text, lowercase,
    opt_view,
};
use crate::transport::RadioError;

verus! {

/// A channel of the library.
#[derive(Debug, Clone)]
pub struct Channel {
    pub id: i64,
    pub group_name: String,
    pub name: String,
    pub rx_hz: u32,
    pub tx_hz: u32,
    pub mode: Option<String>,
    pub step_khz: Option<Single>,
    pub notes: Option<String>,
    pub ctcss_hz: Option<Single>,
}

/// A group of channels and its size.
#[derive(Debug, Clone)]
pub struct GroupSummary {
    pub name: String,
    pub channel_count: i64,
}

/// A channel that is not in the library yet.
pub struct NewChannel<'a> {
    pub group_name: &'a str,
    pub name: &'a str,
    pub rx_hz: u32,
    pub tx_hz: u32,
    pub mode: Option<&'a str>,
    pub step_khz: Option<Single>,
    pub notes: Option<&'a str>,
}

/// A channel that is not in the library yet, with texts of its own.
#[derive(Debug, Clone)]
pub struct OwnedNewChannel {
    pub group_name: String,
    pub name: String,
    pub rx_hz: u32,
    pub tx_hz: u32,
    pub mode: Option<String>,
    pub step_khz: Option<Single>,
    pub notes: Option<String>,
    pub ctcss_hz: Option<Single>,
}

/// What an [`OwnedNewChannel`] stands for.
#[verifier::ext_equal]
pub struct NewChannelView {
    pub group_name: Seq<char>,
    pub name: Seq<char>,
    pub rx_hz: u32,
    pub tx_hz: u32,
    pub mode: Option<Seq<char>>,
    pub step_khz: Option<Single>,
    pub notes: Option<Seq<char>>,
    pub ctcss_hz: Option<Single>,
}

impl View for OwnedNewChannel {
    type V = NewChannelView;

    open spec fn view(&self) -> NewChannelView {
        NewChannelView {
            group_name: self.group_name@,
            name: self.name@,
            rx_hz: self.rx_hz,
            tx_hz: self.tx_hz,
            mode: opt_view(self.mode),
            step_khz: self.step_khz,
            notes: opt_view(self.notes),
            ctcss_hz: self.ctcss_hz,
        }
    }
}

/// An optional text, by view.
pub open spec fn opt_str_view(s: Option<&str>) -> Option<Seq<char>> {
    match s {
        Some(t) => Some(t@),
        None => None,
    }
}

fn own(s: Option<&str>) -> (r: Option<String>)
    ensures
        opt_view(r) == opt_str_view(s),
{
    match s {
        Some(t) => Some(t.to_string()),
        None => None,
    }
}

/// A channel with texts of its own.
pub open spec fn owned_view(n: NewChannel<'_>) -> NewChannelView {
    NewChannelView {
        group_name: n.group_name@,
        name: n.name@,
        rx_hz: n.rx_hz,
        tx_hz: n.tx_hz,
        mode: opt_str_view(n.mode),
        step_khz: n.step_khz,
        notes: opt_str_view(n.notes),
        ctcss_hz: None,
    }
}

impl OwnedNewChannel {
    /// The same channel with texts of its own. It has no tone.
    pub fn from_new(n: &NewChannel<'_>) -> (r: OwnedNewChannel)
        ensures
            r@ == owned_view(*n),
    {
        OwnedNewChannel {
            group_name: n.group_name.to_string(),
            name: n.name.to_string(),
            rx_hz: n.rx_hz,
            tx_hz: n.tx_hz,
            mode: own(n.mode),
            step_khz: n.step_khz,
            notes: own(n.notes),
            ctcss_hz: None,
        }
    }
}

// ---------- Library requests ----------

/// A failure of the database.
pub fn db_refusal(e: &str) -> (r: Refusal)
    ensures
        r@ == (RefusalView { status: INTERNAL_SERVER_ERROR, message: "db: "@ + e@ }),
{
    refuse_because(INTERNAL_SERVER_ERROR, "db: ", e)
}

/// Whether a group passes as one to import into.
pub open spec fn group_checked(group: Seq<char>, r: Result<(), Refusal>) -> bool {
    match r {
        Ok(_) => group.len() > 0,
        Err(refusal) => group.len() == 0 && refusal@ == (RefusalView {
            status: BAD_REQUEST,
            message: "group query param required"@,
        }),
    }
}

/// An import needs a group to import into.
pub fn check_group(group: &str) -> (r: Result<(), Refusal>)
    ensures
        group_checked(group@, r),
{
    if group.is_empty() {
        Err(refuse(BAD_REQUEST, "group query param required"))
    } else {
        Ok(())
    }
}

/// A CSV text that could not be read.
pub fn csv_refusal(e: &str) -> (r: Refusal)
    ensures
        r@ == (RefusalView { status: BAD_REQUEST, message: "csv: "@ + e@ }),
{
    refuse_because(BAD_REQUEST, "csv: ", e)
}

/// Whether this is what an answer of the database to a lookup means.
pub open spec fn lookup_answered(
    found: Result<Option<Channel>, String>,
    r: Result<Channel, Refusal>,
) -> bool {
    match found {
        Ok(Some(c)) => r == Ok::<Channel, Refusal>(c),
        Ok(None) => r is Err && r->Err_0@ == (RefusalView {
            status: NOT_FOUND,
            message: "no such channel"@,
        }),
        Err(e) => r is Err && r->Err_0@ == (RefusalView {
            status: INTERNAL_SERVER_ERROR,
            message: "db: "@ + e@,
        }),
    }
}

/// What the answer of the database to a lookup means: there may be no such
/// channel.
pub fn looked_up(found: Result<Option<Channel>, String>) -> (r: Result<Channel, Refusal>)
    ensures
        lookup_answered(found, r),
{
    match found {
        Ok(Some(c)) => Ok(c),
        Ok(None) => Err(refuse(NOT_FOUND, "no such channel")),
        Err(e) => Err(db_refusal(e.as_str())),
    }
}

/// Whether this is what an answer of the database to a deletion means.
pub open spec fn deletion_answered(done: Result<bool, String>, r: Result<(), Refusal>) -> bool {
    match done {
        Ok(true) => r is Ok,
        Ok(false) => r is Err && r->Err_0@ == (RefusalView {
            status: NOT_FOUND,
            message: "no such channel"@,
        }),
        Err(e) => r is Err && r->Err_0@ == (RefusalView {
            status: INTERNAL_SERVER_ERROR,
            message: "db: "@ + e@,
        }),
    }
}

/// What the answer of the database to a deletion means: there may have been no
/// such channel.
pub fn deleted(done: Result<bool, String>) -> (r: Result<(), Refusal>)
    ensures
        deletion_answered(done, r),
{
    match done {
        Ok(true) => Ok(()),
        Ok(false) => Err(refuse(NOT_FOUND, "no such channel")),
        Err(e) => Err(db_refusal(e.as_str())),
    }
}

// ---------- Tuning ----------

/// How a command of a tuning went.
#[derive(Debug, Clone, Copy, PartialEq, Eq)]
pub struct CommandStatus {
    pub ok: bool,
    pub response_kind: &'static str,
}

/// What a [`CommandStatus`] stands for.
#[verifier::ext_equal]
pub struct StatusView {
    pub ok: bool,
    pub kind: Seq<char>,
}

impl View for CommandStatus {
    type V = StatusView;

    open spec fn view(&self) -> StatusView {
        StatusView { ok: self.ok, kind: self.response_kind@ }
    }
}

/// How a command went, and why it failed, if it did.
#[derive(Debug)]
pub struct SendResult {
    pub status: CommandStatus,
    pub err: Option<String>,
}

/// How a command went. A NAK is a soft failure: it is no error.
pub open spec fn sent_status(result: Result<Response, RadioError>) -> StatusView {
    match result {
        Ok(resp) => if resp@.verdict is Nak {
            StatusView { ok: false, kind: "nak"@ }
        } else {
            StatusView { ok: true, kind: "ack"@ }
        },
        Err(RadioError::Timeout(_)) => StatusView { ok: false, kind: "timeout"@ },
        Err(_) => StatusView { ok: false, kind: "error"@ },
    }
}

/// Why a command failed.
pub open spec fn sent_error(result: Result<Response, RadioError>) -> Option<Seq<char>> {
    match result {
        Ok(_) => None,
        Err(RadioError::Timeout(d)) => Some("timeout after "@ + duration_text(d)),
        Err(e) => Some(e.text()),
    }
}

pub fn send_and_tag(result: Result<Response, RadioError>) -> (r: SendResult)
    ensures
        r.status@ == sent_status(result),
        opt_view(r.err) == sent_error(result),
{
    match result {
        Ok(resp) => {
            if resp.is_nak() {
                SendResult {
                    status: CommandStatus { ok: false, response_kind: "nak" },
                    err: None,
                }
            } else {
                SendResult {
                    status: CommandStatus { ok: true, response_kind: "ack" },
                    err: None,
                }
            }
        },
        Err(RadioError::Timeout(d)) => {
            let mut text = String::new();
            text.append("timeout after ");
            text.append(duration_string(d).as_str());
            assert(text@ =~= "timeout after "@ + duration_text(d));
            SendResult {
                status: CommandStatus { ok: false, response_kind: "timeout" },
                err: Some(text),
            }
        },
        Err(e) => SendResult {
            status: CommandStatus { ok: false, response_kind: "error" },
            err: Some(e.message()),
        },
    }
}

impl SendResult {
    pub fn as_err(&self) -> (r: Result<(), String>)
        ensures
            match (self.err, r) {
                (Some(e), Err(f)) => f@ == e@,
                (None, Ok(_)) => true,
                _ => false,
            },
    {
        match &self.err {
            Some(e) => Err(e.clone()),
            None => Ok(()),
        }
    }
}

/// The radio tuned to a channel.
#[derive(Debug)]
pub struct TunedChannel {
    pub channel: Channel,
    pub rx: CommandStatus,
    pub tx: CommandStatus,
    pub mode: Option<CommandStatus>,
}

/// The step in which a channel is tuned: its own where it is one of the
/// radio's, else the finest common one.
pub open spec fn channel_step(ch: Channel) -> Step {
    match ch.step_khz {
        Some(k) => match step_of(k) {
            Some(s) => s,
            None => Step::Khz5,
        },
        None => Step::Khz5,
    }
}

/// Why a channel cannot be tuned, if it cannot.
pub open spec fn channel_refusal(ch: Channel) -> Option<Seq<char>> {
    match pair_band(ch.rx_hz, ch.tx_hz) {
        None => Some(
            "channel "@ + ch.name@ + " freqs ("@ + decimal(ch.rx_hz as nat) + " / "@ + decimal(
                ch.tx_hz as nat,
            ) + ") not in any URC-200 band"@,
        ),
        Some(band) => match tuning_error(ch.rx_hz, band, channel_step(ch)) {
            Some(e) => Some("rx: "@ + e.text()),
            None => match tuning_error(ch.tx_hz, band, channel_step(ch)) {
                Some(e) => Some("tx: "@ + e.text()),
                None => None,
            },
        },
    }
}

/// What the tuning to a channel wants done next.
#[derive(Debug, PartialEq, Eq, Structural, Clone, Copy)]
pub enum ChannelAction {
    Send(OpCommand),
    /// Arm the tone of the channel, or clear the tone where it has none.
    SetTone(Option<Single>),
    Done,
}

/// Where the tuning to a channel stands.
#[verifier::ext_equal]
pub enum ChannelNext {
    Do(ChannelAction),
    /// The tuning is over, and this is why.
    Refused(RefusalView),
}

/// A tuning to a channel in progress.
pub struct ChannelTune {
    channel: Channel,
    rx: Freq,
    tx: Freq,
    answers: Vec<CommandStatus>,
    failed: Option<Refusal>,
    tone_set: bool,
}

/// What a [`ChannelTune`] stands for.
#[verifier::ext_equal]
pub struct ChannelTuneView {
    pub channel: Channel,
    pub rx: Freq,
    pub tx: Freq,
    pub answers: Seq<StatusView>,
    /// How the request is refused, once an exchange has failed.
    pub failed: Option<RefusalView>,
    /// Whether the order to set the tone has been given.
    pub tone_set: bool,
}

impl ChannelTuneView {
    /// What the radio is to be sent next.
    pub open spec fn command(self) -> TuneNext {
        match self.failed {
            Some(refusal) => TuneNext::Failed(refusal),
            None => tune_next(self.rx, self.tx, opt_view(self.channel.mode), self.answers.len()),
        }
    }

    /// What is to be done next: the commands, then the tone.
    pub open spec fn next(self) -> ChannelNext {
        match self.command() {
            TuneNext::Send(c) => ChannelNext::Do(ChannelAction::Send(c)),
            TuneNext::UnknownMode => ChannelNext::Refused(
                RefusalView {
                    status: BAD_REQUEST,
                    message: "unknown mode "@ + debug_text(self.channel.mode->0@),
                },
            ),
            TuneNext::Failed(refusal) => ChannelNext::Refused(refusal),
            TuneNext::Finished => if self.tone_set {
                ChannelNext::Do(ChannelAction::Done)
            } else {
                ChannelNext::Do(ChannelAction::SetTone(self.channel.ctcss_hz))
            },
        }
    }

    /// The tuning once it has said what is to be done next.
    pub open spec fn asked(self) -> ChannelTuneView {
        ChannelTuneView { tone_set: self.tone_set || self.command() is Finished, ..self }
    }

    /// The tuning once the outcome of the command that is out has come.
    pub open spec fn recorded(self, result: Result<Response, RadioError>) -> ChannelTuneView {
        if self.command() is Send {
            match sent_error(result) {
                None => ChannelTuneView { answers: self.answers.push(sent_status(result)), ..self },
                Some(e) => ChannelTuneView {
                    failed: Some(
                        RefusalView {
                            status: SERVICE_UNAVAILABLE,
                            message: tune_part(self.answers.len()) + e,
                        },
                    ),
                    ..self
                },
            }
        } else {
            self
        }
    }
}

/// Whether an answer is that to a tuning to a channel that is done.
pub open spec fn channel_answered(t: ChannelTuneView, r: TunedChannel) -> bool {
    &&& r.channel == t.channel
    &&& r.rx@ == t.answers[0]
    &&& r.tx@ == t.answers[1]
    &&& match r.mode {
        Some(m) => t.channel.mode is Some && m@ == t.answers[2],
        None => t.channel.mode is None,
    }
}

/// Whether a tuning is that of a channel, at its start.
pub open spec fn channel_started(channel: Channel, job: ChannelTuneView) -> bool {
    &&& job.channel == channel
    &&& job.rx@ == (FreqView {
        hz: channel.rx_hz,
        band: pair_band(channel.rx_hz, channel.tx_hz)->0,
        step: channel_step(channel),
    })
    &&& job.tx@ == (FreqView { hz: channel.tx_hz, ..job.rx@ })
    &&& job.answers == Seq::<StatusView>::empty()
    &&& job.failed is None
    &&& !job.tone_set
}

impl View for ChannelTune {
    type V = ChannelTuneView;

    closed spec fn view(&self) -> ChannelTuneView {
        ChannelTuneView {
            channel: self.channel,
            rx: self.rx,
            tx: self.tx,
            answers: self.answers@.map_values(|a: CommandStatus| a@),
            failed: match self.failed {
                Some(refusal) => Some(refusal@),
                None => None,
            },
            tone_set: self.tone_set,
        }
    }
}

impl ChannelTune {
    /// Check whether the radio can be tuned to a channel.
    pub fn start(channel: Channel) -> (r: Result<ChannelTune, Refusal>)
        ensures
            match r {
                Ok(job) => channel_refusal(channel) is None && channel_started(channel, job@),
                Err(refusal) => channel_refusal(channel) == Some(refusal@.message)
                    && refusal@.status == BAD_REQUEST,
            },
    {
        let band = match band_for_pair(channel.rx_hz, channel.tx_hz) {
            Some(b) => b,
            None => {
                let mut message = String::new();
                message.append("channel ");
                message.append(channel.name.as_str());
                message.append(" freqs (");
                append_decimal(&mut message, channel.rx_hz as u128);
                message.append(" / ");
                append_decimal(&mut message, channel.tx_hz as u128);
                message.append(") not in any URC-200 band");
                assert(message@ =~= "channel "@ + channel.name@ + " freqs ("@ + decimal(
                    channel.rx_hz as nat,
                ) + " / "@ + decimal(channel.tx_hz as nat) + ") not in any URC-200 band"@);
                return Err(Refusal { status: BAD_REQUEST, message });
            },
        };
        let step = match channel.step_khz {
            Some(k) => match nominal_step(k) {
                Some(s) => s,
                None => Step::Khz5,
            },
            None => Step::Khz5,
        };
        let rx = match Freq::new(channel.rx_hz, band, step) {
            Ok(f) => f,
            Err(e) => return Err(refuse_because(BAD_REQUEST, "rx: ", e.message().as_str())),
        };
        let tx = match Freq::new(channel.tx_hz, band, step) {
            Ok(f) => f,
            Err(e) => return Err(refuse_because(BAD_REQUEST, "tx: ", e.message().as_str())),
        };
        let job = ChannelTune {
            channel,
            rx,
            tx,
            answers: Vec::new(),
            failed: None,
            tone_set: false,
        };
        assert(job@.answers =~= Seq::<StatusView>::empty());
        Ok(job)
    }

    /// What to do next. The tone is asked for once, when all commands are
    /// answered. An unknown modulation is found out only when its turn comes.
    /// Once an exchange has failed there is only the refusal.
    pub fn next(&mut self) -> (r: Result<ChannelAction, Refusal>)
        ensures
            final(self)@ == old(self)@.asked(),
            match old(self)@.next() {
                ChannelNext::Do(action) => r == Ok::<ChannelAction, Refusal>(action),
                ChannelNext::Refused(refusal) => r is Err && r->Err_0@ == refusal,
            },
    {
        match &self.failed {
            Some(refusal) => return Err(refuse(refusal.status, refusal.message.as_str())),
            None => {},
        }
        if self.answers.len() == 0 {
            return Ok(ChannelAction::Send(OpCommand::SetRx(self.rx)));
        }
        if self.answers.len() == 1 {
            return Ok(ChannelAction::Send(OpCommand::SetTx(self.tx)));
        }
        match &self.channel.mode {
            Some(m) => match parse_mod(m.as_str()) {
                Some(mm) => {
                    if self.answers.len() == 2 {
                        return Ok(ChannelAction::Send(OpCommand::ModTxRx(mm)));
                    }
                },
                None => return Err(
                    refuse_because(BAD_REQUEST, "unknown mode ", debug_string(m.as_str()).as_str()),
                ),
            },
            None => {},
        }
        if self.tone_set {
            Ok(ChannelAction::Done)
        } else {
            self.tone_set = true;
            Ok(ChannelAction::SetTone(self.channel.ctcss_hz))
        }
    }

    /// Take what came of the command that was sent. A failed exchange ends the
    /// tuning; a NAK does not.
    pub fn record(&mut self, result: Result<Response, RadioError>) -> (r: Result<(), Refusal>)
        requires
            old(self)@.command() is Send,
        ensures
            final(self)@ == old(self)@.recorded(result),
            match (final(self)@.failed, r) {
                (Some(refusal), Err(told)) => told@ == refusal,
                (None, Ok(_)) => true,
                _ => false,
            },
    {
        let sent = send_and_tag(result);
        match sent.as_err() {
            Ok(_) => {
                self.answers.push(sent.status);
                assert(self@.answers =~= old(self)@.answers.push(sent.status@));
                Ok(())
            },
            Err(e) => {
                let lead = if self.answers.len() == 0 {
                    "rx: "
                } else if self.answers.len() == 1 {
                    "tx: "
                } else {
                    "mode: "
                };
                self.failed = Some(refuse_because(SERVICE_UNAVAILABLE, lead, e.as_str()));
                Err(refuse_because(SERVICE_UNAVAILABLE, lead, e.as_str()))
            },
        }
    }

    /// The tuned channel, once all commands are answered and the tone is set.
    pub fn finish(self) -> (r: TunedChannel)
        requires
            self@.next() == ChannelNext::Do(ChannelAction::Done),
        ensures
            channel_answered(self@, r),
    {
        let mode: Option<CommandStatus> = if self.channel.mode.is_some() {
            Some(self.answers[2])
        } else {
            None
        };
        let rx = self.answers[0];
        let tx = self.answers[1];
        TunedChannel { channel: self.channel, rx, tx, mode }
    }
}

/// A channel that the radio's bands do not cover on both sides cannot be tuned.
pub proof fn law_uncovered_channel_refused(ch: Channel)
    requires
        band_of(ch.rx_hz) is None || band_of(ch.tx_hz) is None,
    ensures
        channel_refusal(ch) is Some,
{
}

/// Something that happens to the tuning to a channel: it is asked what to do
/// next, or the outcome of a command comes.
#[verifier::ext_equal]
pub enum ChannelEvent {
    Ask,
    Outcome(Result<Response, RadioError>),
}

/// A tuning after an event.
pub open spec fn channel_after(t: ChannelTuneView, x: ChannelEvent) -> ChannelTuneView {
    match x {
        ChannelEvent::Ask => t.asked(),
        ChannelEvent::Outcome(result) => t.recorded(result),
    }
}

/// A tuning after a run of events.
pub open spec fn channel_run(t: ChannelTuneView, xs: Seq<ChannelEvent>) -> ChannelTuneView
    decreases xs.len(),
{
    if xs.len() == 0 {
        t
    } else {
        channel_run(channel_after(t, xs[0]), xs.skip(1))
    }
}

/// The tones that a tuning orders in a run of events, in turn.
pub open spec fn tones_ordered(t: ChannelTuneView, xs: Seq<ChannelEvent>) -> Seq<Option<Single>>
    decreases xs.len(),
{
    if xs.len() == 0 {
        seq![]
    } else {
        let later = tones_ordered(channel_after(t, xs[0]), xs.skip(1));
        match (xs[0], t.next()) {
            (ChannelEvent::Ask, ChannelNext::Do(ChannelAction::SetTone(tone))) => seq![tone]
                + later,
            _ => later,
        }
    }
}

/// Whatever happens, the tone is ordered at most once, and it is that of the
/// channel. A tuning that is done has ordered it and has had an answer to every
/// command; one that is refused, for a failed exchange or an unknown
/// modulation, has not touched the tone.
pub proof fn law_tone_once(t: ChannelTuneView, xs: Seq<ChannelEvent>)
    requires
        t.answers.len() == 0,
        t.failed is None,
        !t.tone_set,
    ensures
        ({
            let end = channel_run(t, xs);
            let tones = tones_ordered(t, xs);
            &&& tones == Seq::<Option<Single>>::empty() || tones == seq![t.channel.ctcss_hz]
            &&& end.next() == ChannelNext::Do(ChannelAction::Done) ==> {
                &&& tones == seq![t.channel.ctcss_hz]
                &&& end.answers.len() == if t.channel.mode is Some {
                    3nat
                } else {
                    2nat
                }
            }
            &&& end.next() is Refused ==> tones == Seq::<Option<Single>>::empty()
        }),
{
    lemma_tone_once(t, xs);
}

/// When every command has an answer, the tone comes next and ends the tuning.
/// A NAK is an answer as good as any other here.
pub proof fn law_tone_then_done(t: ChannelTuneView, resp: Response)
    ensures
        t.command() is Finished && !t.tone_set ==> {
            &&& t.next() == ChannelNext::Do(ChannelAction::SetTone(t.channel.ctcss_hz))
            &&& t.asked().next() == ChannelNext::Do(ChannelAction::Done)
        },
        t.command() is Send ==> t.recorded(Ok(resp)).answers.len() == t.answers.len() + 1,
{
}

/// What a tuning keeps: the tone is ordered only when no command is left, and
/// no command goes out without need.
spec fn orderly(t: ChannelTuneView) -> bool {
    &&& t.tone_set ==> t.command() is Finished
    &&& t.answers.len() <= if t.channel.mode is Some {
        3nat
    } else {
        2nat
    }
}

proof fn lemma_tone_once(t: ChannelTuneView, xs: Seq<ChannelEvent>)
    requires
        orderly(t),
    ensures
        ({
            let end = channel_run(t, xs);
            &&& orderly(end)
            &&& end.channel == t.channel
            &&& t.tone_set ==> end.tone_set
            &&& tones_ordered(t, xs) == if end.tone_set && !t.tone_set {
                seq![t.channel.ctcss_hz]
            } else {
                Seq::empty()
            }
        }),
    decreases xs.len(),
{
    if xs.len() > 0 {
        lemma_tone_once(channel_after(t, xs[0]), xs.skip(1));
        let later = tones_ordered(channel_after(t, xs[0]), xs.skip(1));
        assert(seq![t.channel.ctcss_hz] + Seq::<Option<Single>>::empty()
            =~= seq![t.channel.ctcss_hz]);
    }
}

/// A failed exchange ends the tuning to a channel: whatever happens after it,
/// neither a command nor a tone is ordered any more, and every question is
/// answered with the refusal that names the part that failed.
pub proof fn law_failure_ends_channel_tuning(
    t: ChannelTuneView,
    result: Result<Response, RadioError>,
    xs: Seq<ChannelEvent>,
)
    requires
        t.command() is Send,
        sent_error(result) is Some,
    ensures
        ({
            let failed = t.recorded(result);
            &&& channel_run(failed, xs) == failed
            &&& tones_ordered(failed, xs) == Seq::<Option<Single>>::empty()
            &&& failed.next() == ChannelNext::Refused(
                RefusalView {
                    status: SERVICE_UNAVAILABLE,
                    message: tune_part(t.answers.len()) + sent_error(result)->0,
                },
            )
        }),
    decreases xs.len(),
{
    if xs.len() > 0 {
        law_failure_ends_channel_tuning(t, result, xs.skip(1));
    }
}

/// Which channels can be tuned: those whose two frequencies lie in the same band
/// and on the grid of the channel's step, which is 25, 12.5 or 5 kHz, and 5 kHz
/// where the channel has another or none; from 30 to 90 MHz the step must be at
/// least 12.5 kHz.
pub proof fn law_channel_accepted(ch: Channel)
    ensures
        ({
            let width = match ch.step_khz {
                None => 5_000u32,
                Some(k) => if step_of(k) == Some(Step::Khz25) {
                    25_000u32
                } else if step_of(k) == Some(Step::Khz12_5) {
                    12_500u32
                } else {
                    5_000u32
                },
            };
            let base = |hz: u32|
                115_000_000 <= hz <= 173_995_000 || 225_000_000 <= hz <= 399_995_000;
            let low = |hz: u32| 30_000_000 <= hz <= 90_000_000;
            let high = |hz: u32| 400_000_000 <= hz <= 420_000_000;
            channel_refusal(ch) is None <==> ch.rx_hz % width == 0 && ch.tx_hz % width == 0 && (base(
                ch.rx_hz,
            ) && base(ch.tx_hz) || high(ch.rx_hz) && high(ch.tx_hz) || low(ch.rx_hz) && low(
                ch.tx_hz,
            ) && width >= 12_500)
        }),
{
    if let Some(k) = ch.step_khz {
        law_steps_by_pattern(k);
    }
}

/// A channel is tuned as it is stored: its receive frequency, then its transmit
/// frequency, each as kHz in six digits, then its modulation, if it has one, and
/// at last its tone, or none. Whatever the radio answers, short of a failure,
/// the course is the same.
pub proof fn law_channel_tuned_as_stored(
    ch: Channel,
    job: ChannelTuneView,
    a: Response,
    b: Response,
    c: Response,
)
    requires
        channel_refusal(ch) is None,
        channel_started(ch, job),
    ensures
        ({
            let second = job.recorded(Ok(a));
            let third = second.recorded(Ok(b));
            let last = third.recorded(Ok(c));
            let finished = |t: ChannelTuneView|
                {
                    &&& t.next() == ChannelNext::Do(ChannelAction::SetTone(ch.ctcss_hz))
                    &&& t.asked().next() == ChannelNext::Do(ChannelAction::Done)
                };
            &&& job.next() matches ChannelNext::Do(ChannelAction::Send(OpCommand::SetRx(f)))
                && f@.hz == ch.rx_hz && digits_value(f.wire()) == ch.rx_hz / 1000
            &&& second.next() matches ChannelNext::Do(ChannelAction::Send(OpCommand::SetTx(g)))
                && g@.hz == ch.tx_hz && digits_value(g.wire()) == ch.tx_hz / 1000
            &&& match ch.mode {
                None => finished(third),
                Some(m) => {
                    &&& lowercase(m@) == "am"@ ==> third.next() == ChannelNext::Do(
                        ChannelAction::Send(OpCommand::ModTxRx(ModMode::Am)),
                    ) && finished(last)
                    &&& lowercase(m@) == "fm"@ ==> third.next() == ChannelNext::Do(
                        ChannelAction::Send(OpCommand::ModTxRx(ModMode::Fm)),
                    ) && finished(last)
                    &&& lowercase(m@) != "am"@ && lowercase(m@) != "fm"@ ==> third.next()
                        == ChannelNext::Refused(
                        RefusalView {
                            status: 400,
                            message: "unknown mode "@ + debug_text(m@),
                        },
                    )
                },
            }
        }),
{
    reveal_strlit("am");
    reveal_strlit("fm");
    assert("am"@[0] == 'a' && "fm"@[0] == 'f');
    law_tuning_digits(job.rx);
    law_tuning_digits(job.tx);
    assert(OpCommand::SetRx(job.rx).wire().skip(1) =~= job.rx.wire());
    assert(OpCommand::SetTx(job.tx).wire().skip(1) =~= job.tx.wire());
}

/// How a command of a tuning is reported: fine and `ack` on an ACK or an HT, not
/// fine and `nak` on a NAK, and neither is an error; a reply that did not come
/// in time and every other failure is one.
pub proof fn law_command_reported(result: Result<Response, RadioError>)
    ensures
        result matches Ok(resp) ==> {
            &&& sent_error(result) is None
            &&& sent_status(result).ok == !(resp@.verdict is Nak)
            &&& sent_status(result).kind == (if resp@.verdict is Nak {
                "nak"@
            } else {
                "ack"@
            })
        },
        result matches Err(e) ==> {
            &&& sent_error(result) is Some
            &&& !sent_status(result).ok
            &&& e matches RadioError::Timeout(d) ==> sent_status(result).kind == "timeout"@
                && sent_error(result) == Some("timeout after "@ + duration_text(d))
            &&& !(e is Timeout) ==> sent_status(result).kind == "error"@ && sent_error(result)
                == Some(e.text())
        },
{
}

/// The answer to a tuning holds the channel itself and the radio's replies, each
/// in its own place.
pub proof fn law_channel_parts(
    ch: Channel,
    job: ChannelTuneView,
    a: Response,
    b: Response,
    c: Response,
    r: TunedChannel,
)
    requires
        channel_refusal(ch) is None,
        channel_started(ch, job),
    ensures
        ({
            let two = job.recorded(Ok(a)).recorded(Ok(b));
            let three = two.recorded(Ok(c));
            &&& two.command() is Finished && channel_answered(two, r) ==> {
                &&& r.channel == ch
                &&& r.rx.ok == !(a@.verdict is Nak)
                &&& r.tx.ok == !(b@.verdict is Nak)
                &&& r.mode is None
            }
            &&& two.command() is Send && channel_answered(three, r) ==> {
                &&& r.channel == ch
                &&& r.rx.ok == !(a@.verdict is Nak)
                &&& r.tx.ok == !(b@.verdict is Nak)
                &&& r.mode is Some && r.mode->0.ok == !(c@.verdict is Nak)
            }
        }),
{
    let two = job.recorded(Ok(a)).recorded(Ok(b));
    let three = two.recorded(Ok(c));
    assert(two.answers =~= seq![sent_status(Ok(a)), sent_status(Ok(b))]);
    assert(r.rx@.ok == r.rx.ok && r.tx@.ok == r.tx.ok);
    if two.command() is Send {
        assert(three.answers =~= seq![
            sent_status(Ok(a)),
            sent_status(Ok(b)),
            sent_status(Ok(c)),
        ]);
        if let Some(m) = r.mode {
            assert(m@.ok == m.ok);
        }
    }
}

/// What requests to the library are answered: what is there is found and can be
/// deleted, what is not is 404, a failure of the database is 500 and says how,
/// and an import without a group is 400.
pub proof fn law_library_answers(
    found: Result<Option<Channel>, String>,
    c: Result<Channel, Refusal>,
    done: Result<bool, String>,
    d: Result<(), Refusal>,
    group: Seq<char>,
    g: Result<(), Refusal>,
)
    requires
        lookup_answered(found, c),
        deletion_answered(done, d),
        group_checked(group, g),
    ensures
        c is Ok <==> found is Ok && found->Ok_0 is Some,
        c matches Ok(ch) ==> found == Ok::<Option<Channel>, String>(Some(ch)),
        found matches Ok(None) ==> c->Err_0.status == 404,
        found matches Err(e) ==> c->Err_0.status == 500 && c->Err_0.message@ == "db: "@ + e@,
        d is Ok <==> done == Ok::<bool, String>(true),
        done matches Ok(false) ==> d->Err_0.status == 404,
        done matches Err(e) ==> d->Err_0.status == 500 && d->Err_0.message@ == "db: "@ + e@,
        g is Err <==> group.len() == 0,
        g matches Err(refusal) ==> refusal.status == 400 && refusal.message@
            == "group query param required"@,
        found matches Ok(None) ==> c->Err_0.message@ == "no such channel"@,
        done matches Ok(false) ==> d->Err_0.message@ == "no such channel"@,
{
}

/// A channel keeps everything it is made of, and has no tone.
pub proof fn law_owned_channel(n: NewChannel<'_>)
    ensures
        owned_view(n).group_name == n.group_name@ && owned_view(n).name == n.name@,
        owned_view(n).rx_hz == n.rx_hz && owned_view(n).tx_hz == n.tx_hz,
        owned_view(n).step_khz == n.step_khz && owned_view(n).ctcss_hz is None,
        n.mode matches Some(m) ==> owned_view(n).mode == Some(m@),
        n.mode is None ==> owned_view(n).mode is None,
        n.notes matches Some(m) ==> owned_view(n).notes == Some(m@),
        n.notes is None ==> owned_view(n).notes is None,
{
}

} // verus!
