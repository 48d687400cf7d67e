//! Radio control requests that do not transmit.
//!
//! The status of an answer is 200 on ACK, 409 on NAK, 503 where the exchange
//! with the radio failed, and 400 on bad input. No request keys the
//! transmitter, starts the beacon, resets the channels or runs the
//! calibration.
use vstd::prelude::*;
use crate::command::{
    law_squelch_digits, law_tuning_digits, LampLevel, ModMode, OpCommand, PowerLevel, PresetId,
    TextMode,
};
use crate::freq::{band_for, band_of, digits_value, tuning_error, Band, Freq, FreqView, Step};
use crate::http::{
    refuse, refuse_because, Refusal, RefusalView, BAD_REQUEST, CONFLICT, OK, SERVICE_UNAVAILABLE,
};
use crate::response::{Reply, Response, Verdict};
use crate::text::{
    append_decimal, debug_string, debug_text, decimal, duration_string, duration_text,
    lossy_string, lowercase, str_eq, to_lower, utf8_lossy,
};
use crate::transport::RadioError;

verus! {

// ---------- Replies ----------

/// The answer to a command.
#[derive(Debug, Clone, PartialEq, Eq)]
pub struct CommandReply {
    pub ok: bool,
    pub response_kind: &'static str,
    pub data: Option<String>,
}

/// What a [`CommandReply`] stands for.
#[verifier::ext_equal]
pub struct ReplyView {
    pub ok: bool,
    pub kind: Seq<char>,
    pub data: Option<Seq<char>>,
}

impl View for CommandReply {
    type V = ReplyView;

    open spec fn view(&self) -> ReplyView {
        ReplyView {
            ok: self.ok,
            kind: self.response_kind@,
            data: match self.data {
                Some(d) => Some(d@),
                None => None,
            },
        }
    }
}

/// The answer that a radio's reply gives. Its data is read as text.
pub open spec fn reply_of(r: Reply) -> ReplyView {
    ReplyView {
        ok: !(r.verdict is Nak),
        kind: match r.verdict {
            Verdict::Ack => "ack"@,
            Verdict::Nak => "nak"@,
            Verdict::Ht => "ht"@,
        },
        data: if r.data.len() == 0 {
            None
        } else {
            Some(utf8_lossy(r.data))
        },
    }
}

/// The status that a radio's reply gives.
pub open spec fn status_of(r: Reply) -> u16 {
    if r.verdict is Nak {
        CONFLICT
    } else {
        OK
    }
}

impl CommandReply {
    pub fn from_response(r: Response) -> (out: (u16, CommandReply))
        ensures
            out.0 == status_of(r@),
            out.1@ == reply_of(r@),
    {
        let data: Option<String> = if r.data().len() == 0 {
            None
        } else {
            Some(lossy_string(r.data()))
        };
        if r.is_nak() {
            (CONFLICT, CommandReply { ok: false, response_kind: "nak", data })
        } else if r.is_ht() {
            (OK, CommandReply { ok: true, response_kind: "ht", data })
        } else {
            (OK, CommandReply { ok: true, response_kind: "ack", data })
        }
    }
}

/// How a failed exchange is put.
pub open spec fn failure_text(e: RadioError) -> Seq<char> {
    match e {
        RadioError::Timeout(d) => "radio timeout after "@ + duration_text(d),
        RadioError::Fault => "radio protocol fault (3 NAKs)"@,
        RadioError::Transport(t) => "transport: "@ + t.text(),
        RadioError::Closed => "radio handle closed"@,
    }
}

/// Whether an answer is that to a command with such an outcome.
pub open spec fn dispatched(
    result: Result<Response, RadioError>,
    r: Result<(u16, CommandReply), Refusal>,
) -> bool {
    match (result, r) {
        (Ok(resp), Ok((status, reply))) => status == status_of(resp@) && reply@ == reply_of(resp@),
        (Err(e), Err(refusal)) => refusal@ == (RefusalView {
            status: SERVICE_UNAVAILABLE,
            message: failure_text(e),
        }),
        _ => false,
    }
}

/// Turn the outcome of a command into its answer.
pub fn dispatch(result: Result<Response, RadioError>) -> (r: Result<(u16, CommandReply), Refusal>)
    ensures
        dispatched(result, r),
{
    match result {
        Ok(resp) => Ok(CommandReply::from_response(resp)),
        Err(RadioError::Timeout(d)) => Err(
            refuse_because(
                SERVICE_UNAVAILABLE,
                "radio timeout after ",
                duration_string(d).as_str(),
            ),
        ),
        Err(RadioError::Fault) => Err(
            refuse(SERVICE_UNAVAILABLE, "radio protocol fault (3 NAKs)"),
        ),
        Err(RadioError::Transport(e)) => Err(
            refuse_because(SERVICE_UNAVAILABLE, "transport: ", e.message().as_str()),
        ),
        Err(RadioError::Closed) => Err(refuse(SERVICE_UNAVAILABLE, "radio handle closed")),
    }
}

// ---------- Words ----------

/// Whether `s` is the word `word`, in capitals or not.
pub open spec fn is_word(s: Seq<char>, word: Seq<char>) -> bool {
    lowercase(s) == word
}

/// A modulation by its name.
pub open spec fn mod_named(s: Seq<char>) -> Option<ModMode> {
    if is_word(s, "am"@) {
        Some(ModMode::Am)
    } else if is_word(s, "fm"@) {
        Some(ModMode::Fm)
    } else {
        None
    }
}

/// A switch position by its name.
pub open spec fn switch_named(s: Seq<char>) -> Option<bool> {
    if is_word(s, "on"@) || is_word(s, "1"@) || is_word(s, "true"@) {
        Some(true)
    } else if is_word(s, "off"@) || is_word(s, "0"@) || is_word(s, "false"@) {
        Some(false)
    } else {
        None
    }
}

/// A lamp level by its name.
pub open spec fn lamp_named(s: Seq<char>) -> Option<LampLevel> {
    if is_word(s, "off"@) {
        Some(LampLevel::Off)
    } else if is_word(s, "lo"@) || is_word(s, "low"@) || is_word(s, "1"@) {
        Some(LampLevel::Lo)
    } else if is_word(s, "med"@) || is_word(s, "medium"@) || is_word(s, "2"@) {
        Some(LampLevel::Med)
    } else if is_word(s, "hi"@) || is_word(s, "high"@) || is_word(s, "3"@) {
        Some(LampLevel::Hi)
    } else {
        None
    }
}

/// A text mode by its name.
pub open spec fn text_named(s: Seq<char>) -> Option<TextMode> {
    if is_word(s, "pt"@) || is_word(s, "voice"@) || is_word(s, "plain"@) {
        Some(TextMode::Pt)
    } else if is_word(s, "ct"@) || is_word(s, "data"@) || is_word(s, "cipher"@) {
        Some(TextMode::Ct)
    } else {
        None
    }
}

/// A power level by its name.
pub open spec fn power_named(s: Seq<char>) -> Option<PowerLevel> {
    if is_word(s, "lo"@) || is_word(s, "low"@) || is_word(s, "0"@) {
        Some(PowerLevel::Lo)
    } else if is_word(s, "med"@) || is_word(s, "medium"@) || is_word(s, "1"@) {
        Some(PowerLevel::Med)
    } else if is_word(s, "hi"@) || is_word(s, "high"@) || is_word(s, "2"@) {
        Some(PowerLevel::Hi)
    } else {
        None
    }
}

/// A tuning step by its name.
pub open spec fn step_named(s: Seq<char>) -> Option<Step> {
    if s == "25k"@ {
        Some(Step::Khz25)
    } else if s == "12.5k"@ || s == "12_5k"@ {
        Some(Step::Khz12_5)
    } else if s == "5k"@ {
        Some(Step::Khz5)
    } else {
        None
    }
}

pub fn parse_mod(s: &str) -> (r: Option<ModMode>)
    ensures
        r == mod_named(s@),
{
    let w = to_lower(s);
    if str_eq(w.as_str(), "am") {
        Some(ModMode::Am)
    } else if str_eq(w.as_str(), "fm") {
        Some(ModMode::Fm)
    } else {
        None
    }
}

pub fn parse_on_off(s: &str) -> (r: Option<bool>)
    ensures
        r == switch_named(s@),
{
    let w = to_lower(s);
    let w = w.as_str();
    if str_eq(w, "on") || str_eq(w, "1") || str_eq(w, "true") {
        Some(true)
    } else if str_eq(w, "off") || str_eq(w, "0") || str_eq(w, "false") {
        Some(false)
    } else {
        None
    }
}

fn parse_lamp(s: &str) -> (r: Option<LampLevel>)
    ensures
        r == lamp_named(s@),
{
    let w = to_lower(s);
    let w = w.as_str();
    if str_eq(w, "off") {
        Some(LampLevel::Off)
    } else if str_eq(w, "lo") || str_eq(w, "low") || str_eq(w, "1") {
        Some(LampLevel::Lo)
    } else if str_eq(w, "med") || str_eq(w, "medium") || str_eq(w, "2") {
        Some(LampLevel::Med)
    } else if str_eq(w, "hi") || str_eq(w, "high") || str_eq(w, "3") {
        Some(LampLevel::Hi)
    } else {
        None
    }
}

fn parse_text(s: &str) -> (r: Option<TextMode>)
    ensures
        r == text_named(s@),
{
    let w = to_lower(s);
    let w = w.as_str();
    if str_eq(w, "pt") || str_eq(w, "voice") || str_eq(w, "plain") {
        Some(TextMode::Pt)
    } else if str_eq(w, "ct") || str_eq(w, "data") || str_eq(w, "cipher") {
        Some(TextMode::Ct)
    } else {
        None
    }
}

fn parse_power(s: &str) -> (r: Option<PowerLevel>)
    ensures
        r == power_named(s@),
{
    let w = to_lower(s);
    let w = w.as_str();
    if str_eq(w, "lo") || str_eq(w, "low") || str_eq(w, "0") {
        Some(PowerLevel::Lo)
    } else if str_eq(w, "med") || str_eq(w, "medium") || str_eq(w, "1") {
        Some(PowerLevel::Med)
    } else if str_eq(w, "hi") || str_eq(w, "high") || str_eq(w, "2") {
        Some(PowerLevel::Hi)
    } else {
        None
    }
}

// ---------- Single commands ----------

/// A request for a single command.
#[derive(Debug)]
pub enum Route {
    Preset(u8),
    Lamp(String),
    Speaker(String),
    Squelch(u16),
    Mod(String),
    ModTxOnly(String),
    Text(String),
    Power(String),
    Scan(String),
    ScanListMember(String),
    Store,
}

/// What a request asks of the radio: the command, if it makes sense.
pub open spec fn route_asks(route: Route, c: OpCommand) -> bool {
    match route {
        Route::Preset(n) => n <= 9 && c is Preset && c->Preset_0.number() == n,
        Route::Lamp(s) => match lamp_named(s@) {
            Some(l) => c == OpCommand::Lamp(l),
            None => false,
        },
        Route::Speaker(s) => match switch_named(s@) {
            Some(on) => c == OpCommand::Speaker(on),
            None => false,
        },
        Route::Squelch(v) => v <= 255 && c == OpCommand::Squelch(v as u8),
        Route::Mod(s) => match mod_named(s@) {
            Some(m) => c == OpCommand::ModTxRx(m),
            None => false,
        },
        Route::ModTxOnly(s) => match mod_named(s@) {
            Some(m) => c == OpCommand::ModTxOnly(m),
            None => false,
        },
        Route::Text(s) => match text_named(s@) {
            Some(m) => c == OpCommand::Text(m),
            None => false,
        },
        Route::Power(s) => match power_named(s@) {
            Some(p) => c == OpCommand::Power(p),
            None => false,
        },
        Route::Scan(s) => match switch_named(s@) {
            Some(on) => c == OpCommand::Scan(on),
            None => false,
        },
        Route::ScanListMember(s) => match switch_named(s@) {
            Some(on) => c == OpCommand::ScanListMember(on),
            None => false,
        },
        Route::Store => c == OpCommand::StorePreset,
    }
}

/// Whether a request makes sense.
pub open spec fn route_makes_sense(route: Route) -> bool {
    match route {
        Route::Preset(n) => n <= 9,
        Route::Lamp(s) => lamp_named(s@) is Some,
        Route::Speaker(s) => switch_named(s@) is Some,
        Route::Squelch(v) => v <= 255,
        Route::Mod(s) => mod_named(s@) is Some,
        Route::ModTxOnly(s) => mod_named(s@) is Some,
        Route::Text(s) => text_named(s@) is Some,
        Route::Power(s) => power_named(s@) is Some,
        Route::Scan(s) => switch_named(s@) is Some,
        Route::ScanListMember(s) => switch_named(s@) is Some,
        Route::Store => true,
    }
}

/// What a request that makes no sense is told.
pub open spec fn route_hint(route: Route) -> Seq<char> {
    match route {
        Route::Preset(_) => "preset must be 0..=9"@,
        Route::Lamp(_) => "lamp must be off/lo/med/hi"@,
        Route::Speaker(_) => "speaker must be on/off"@,
        Route::Squelch(_) => "squelch must be 0..=255"@,
        Route::Mod(_) => "mod must be am/fm"@,
        Route::ModTxOnly(_) => "mod_tx_only must be am/fm"@,
        Route::Text(_) => "text must be pt/ct"@,
        Route::Power(_) => "power must be lo/med/hi"@,
        Route::Scan(_) => "scan must be on/off"@,
        Route::ScanListMember(_) => "scan_list_member must be on/off"@,
        Route::Store => ""@,
    }
}

/// Whether a request leads to a command that it asks for, or to its refusal.
pub open spec fn route_answered(route: Route, r: Result<OpCommand, Refusal>) -> bool {
    match r {
        Ok(c) => route_asks(route, c),
        Err(refusal) => !route_makes_sense(route) && refusal@ == (RefusalView {
            status: BAD_REQUEST,
            message: route_hint(route),
        }),
    }
}

/// The command that a request asks for.
pub fn route_command(route: Route) -> (r: Result<OpCommand, Refusal>)
    ensures
        route_answered(route, r),
{
    match route {
        Route::Preset(n) => match PresetId::new(n) {
            Some(p) => Ok(OpCommand::Preset(p)),
            None => Err(refuse(BAD_REQUEST, "preset must be 0..=9")),
        },
        Route::Lamp(s) => match parse_lamp(s.as_str()) {
            Some(l) => Ok(OpCommand::Lamp(l)),
            None => Err(refuse(BAD_REQUEST, "lamp must be off/lo/med/hi")),
        },
        Route::Speaker(s) => match parse_on_off(s.as_str()) {
            Some(on) => Ok(OpCommand::Speaker(on)),
            None => Err(refuse(BAD_REQUEST, "speaker must be on/off")),
        },
        Route::Squelch(v) => if v > 255 {
            Err(refuse(BAD_REQUEST, "squelch must be 0..=255"))
        } else {
            Ok(OpCommand::Squelch(v as u8))
        },
        Route::Mod(s) => match parse_mod(s.as_str()) {
            Some(m) => Ok(OpCommand::ModTxRx(m)),
            None => Err(refuse(BAD_REQUEST, "mod must be am/fm")),
        },
        Route::ModTxOnly(s) => match parse_mod(s.as_str()) {
            Some(m) => Ok(OpCommand::ModTxOnly(m)),
            None => Err(refuse(BAD_REQUEST, "mod_tx_only must be am/fm")),
        },
        Route::Text(s) => match parse_text(s.as_str()) {
            Some(m) => Ok(OpCommand::Text(m)),
            None => Err(refuse(BAD_REQUEST, "text must be pt/ct")),
        },
        Route::Power(s) => match parse_power(s.as_str()) {
            Some(p) => Ok(OpCommand::Power(p)),
            None => Err(refuse(BAD_REQUEST, "power must be lo/med/hi")),
        },
        Route::Scan(s) => match parse_on_off(s.as_str()) {
            Some(on) => Ok(OpCommand::Scan(on)),
            None => Err(refuse(BAD_REQUEST, "scan must be on/off")),
        },
        Route::ScanListMember(s) => match parse_on_off(s.as_str()) {
            Some(on) => Ok(OpCommand::ScanListMember(on)),
            None => Err(refuse(BAD_REQUEST, "scan_list_member must be on/off")),
        },
        Route::Store => Ok(OpCommand::StorePreset),
    }
}

// ---------- Tuning ----------

/// Where the tuning of a pair of frequencies stands after a number of answered
/// commands: the receiver first, then the transmitter, then the modulation,
/// where one is asked for.
#[verifier::ext_equal]
pub enum TuneNext {
    Send(OpCommand),
    /// The modulation asked for is none.
    UnknownMode,
    /// An exchange failed: the tuning is over.
    Failed(RefusalView),
    Finished,
}

pub open spec fn tune_next(rx: Freq, tx: Freq, mode: Option<Seq<char>>, answered: nat) -> TuneNext {
    if answered == 0 {
        TuneNext::Send(OpCommand::SetRx(rx))
    } else if answered == 1 {
        TuneNext::Send(OpCommand::SetTx(tx))
    } else {
        match mode {
            Some(m) => match mod_named(m) {
                Some(mm) => if answered == 2 {
                    TuneNext::Send(OpCommand::ModTxRx(mm))
                } else {
                    TuneNext::Finished
                },
                None => TuneNext::UnknownMode,
            },
            None => TuneNext::Finished,
        }
    }
}

/// How the part of a tuning that comes next is called.
pub open spec fn tune_part(answered: nat) -> Seq<char> {
    if answered == 0 {
        "rx: "@
    } else if answered == 1 {
        "tx: "@
    } else {
        "mode: "@
    }
}

/// The band in which a pair of frequencies is tuned: that of the receive
/// frequency, else that of the transmit frequency.
pub open spec fn pair_band(rx_hz: u32, tx_hz: u32) -> Option<Band> {
    match band_of(rx_hz) {
        Some(b) => Some(b),
        None => band_of(tx_hz),
    }
}

pub fn band_for_pair(rx_hz: u32, tx_hz: u32) -> (r: Option<Band>)
    ensures
        r == pair_band(rx_hz, tx_hz),
{
    match band_for(rx_hz) {
        Some(b) => Some(b),
        None => band_for(tx_hz),
    }
}

/// A request to tune the radio.
#[derive(Debug)]
pub struct TuneRequest {
    pub rx_hz: u32,
    pub tx_hz: u32,
    /// One of: "am", "fm". Sets the modulation of both directions. Omit to
    /// leave modulation untouched.
    pub mode: Option<String>,
    /// One of: "25k", "12.5k", "5k". Defaults to "5k" (finest common grid).
    pub step: Option<String>,
}

/// The answer to a request to tune the radio.
#[derive(Debug, Clone, PartialEq, Eq)]
pub struct TuneReply {
    pub rx: CommandReply,
    pub tx: CommandReply,
    pub mode: Option<CommandReply>,
}

/// The step that a request asks for.
pub open spec fn request_step(req: TuneRequest) -> Option<Step> {
    match req.step {
        Some(s) => step_named(s@),
        None => Some(Step::Khz5),
    }
}

/// Why a request to tune is refused at once, if it is.
pub open spec fn tune_refusal(req: TuneRequest) -> Option<Seq<char>> {
    match request_step(req) {
        None => Some("unknown step "@ + debug_text(req.step->0@) + "; use 25k/12.5k/5k"@),
        Some(step) => match pair_band(req.rx_hz, req.tx_hz) {
            None => Some(
                "rx_hz "@ + decimal(req.rx_hz as nat) + " / tx_hz "@ + decimal(req.tx_hz as nat)
                    + " not in any supported band"@,
            ),
            Some(band) => match tuning_error(req.rx_hz, band, step) {
                Some(e) => Some("rx_hz invalid: "@ + e.text()),
                None => match tuning_error(req.tx_hz, band, step) {
                    Some(e) => Some("tx_hz invalid: "@ + e.text()),
                    None => None,
                },
            },
        },
    }
}

/// A tuning in progress.
pub struct TuneJob {
    rx: Freq,
    tx: Freq,
    mode: Option<String>,
    answers: Vec<CommandReply>,
    failed: Option<Refusal>,
}

/// What a [`TuneJob`] stands for.
#[verifier::ext_equal]
pub struct TuneView {
    pub rx: Freq,
    pub tx: Freq,
    pub mode: Option<Seq<char>>,
    pub answers: Seq<ReplyView>,
    /// How the request is refused, once an exchange has failed.
    pub failed: Option<RefusalView>,
}

impl TuneView {
    pub open spec fn next(self) -> TuneNext {
        match self.failed {
            Some(refusal) => TuneNext::Failed(refusal),
            None => tune_next(self.rx, self.tx, self.mode, self.answers.len()),
        }
    }

    /// The tuning once the outcome of the command that is out has come.
    pub open spec fn recorded(self, result: Result<Response, RadioError>) -> TuneView {
        if self.next() is Send {
            match result {
                Ok(resp) => TuneView { answers: self.answers.push(reply_of(resp@)), ..self },
                Err(e) => TuneView {
                    failed: Some(
                        RefusalView {
                            status: SERVICE_UNAVAILABLE,
                            message: tune_part(self.answers.len()) + e.text(),
                        },
                    ),
                    ..self
                },
            }
        } else {
            self
        }
    }
}

impl View for TuneJob {
    type V = TuneView;

    closed spec fn view(&self) -> TuneView {
        TuneView {
            rx: self.rx,
            tx: self.tx,
            mode: match self.mode {
                Some(m) => Some(m@),
                None => None,
            },
            answers: self.answers@.map_values(|a: CommandReply| a@),
            failed: match self.failed {
                Some(refusal) => Some(refusal@),
                None => None,
            },
        }
    }
}

/// Whether a tuning is that of a request, at its start.
pub open spec fn tune_started(req: TuneRequest, job: TuneView) -> bool {
    &&& job.rx@ == (FreqView {
        hz: req.rx_hz,
        band: pair_band(req.rx_hz, req.tx_hz)->0,
        step: request_step(req)->0,
    })
    &&& job.tx@ == (FreqView { hz: req.tx_hz, ..job.rx@ })
    &&& job.mode == match req.mode {
        Some(m) => Some(m@),
        None => None,
    }
    &&& job.answers == Seq::<ReplyView>::empty()
    &&& job.failed is None
}

/// The status of the answer to a request: a conflict where the radio refused
/// one of the commands.
pub open spec fn tune_status(job: TuneView) -> u16 {
    if forall|i: int| 0 <= i < tune_len(job) ==> (#[trigger] job.answers[i]).ok {
        OK
    } else {
        CONFLICT
    }
}

/// Whether this is what a tuning wants next.
pub open spec fn tune_asks(job: TuneView, r: Result<Option<OpCommand>, Refusal>) -> bool {
    match job.next() {
        TuneNext::Send(c) => r == Ok::<Option<OpCommand>, Refusal>(Some(c)),
        TuneNext::Finished => r == Ok::<Option<OpCommand>, Refusal>(None),
        TuneNext::UnknownMode => r is Err && r->Err_0@ == (RefusalView {
            status: BAD_REQUEST,
            message: "mode must be am/fm"@,
        }),
        TuneNext::Failed(refusal) => r is Err && r->Err_0@ == refusal,
    }
}

/// Whether an answer is that to a tuning whose commands are all answered.
pub open spec fn tune_answered(job: TuneView, r: (u16, TuneReply)) -> bool {
    &&& r.1.rx@ == job.answers[0]
    &&& r.1.tx@ == job.answers[1]
    &&& match r.1.mode {
        Some(m) => job.mode is Some && m@ == job.answers[2],
        None => job.mode is None,
    }
    &&& r.0 == tune_status(job)
}

fn unknown_step(step: &str) -> (r: Refusal)
    ensures
        r@ == (RefusalView {
            status: BAD_REQUEST,
            message: "unknown step "@ + debug_text(step@) + "; use 25k/12.5k/5k"@,
        }),
{
    let mut message = String::new();
    message.append("unknown step ");
    message.append(debug_string(step).as_str());
    message.append("; use 25k/12.5k/5k");
    assert(message@ =~= "unknown step "@ + debug_text(step@) + "; use 25k/12.5k/5k"@);
    Refusal { status: BAD_REQUEST, message }
}

fn parse_step(s: &str) -> (r: Option<Step>)
    ensures
        r == step_named(s@),
{
    if str_eq(s, "25k") {
        Some(Step::Khz25)
    } else if str_eq(s, "12.5k") || str_eq(s, "12_5k") {
        Some(Step::Khz12_5)
    } else if str_eq(s, "5k") {
        Some(Step::Khz5)
    } else {
        None
    }
}

impl TuneJob {
    /// Check a request to tune. Nothing is sent where it is refused.
    pub fn start(req: TuneRequest) -> (r: Result<TuneJob, Refusal>)
        ensures
            match r {
                Ok(job) => tune_refusal(req) is None && tune_started(req, job@),
                Err(refusal) => tune_refusal(req) == Some(refusal@.message) && refusal@.status
                    == BAD_REQUEST,
            },
    {
        let step = match &req.step {
            None => Step::Khz5,
            Some(s) => match parse_step(s.as_str()) {
                Some(step) => step,
                None => return Err(unknown_step(s.as_str())),
            },
        };
        let band = match band_for_pair(req.rx_hz, req.tx_hz) {
            Some(b) => b,
            None => {
                let mut message = String::new();
                message.append("rx_hz ");
                append_decimal(&mut message, req.rx_hz as u128);
                message.append(" / tx_hz ");
                append_decimal(&mut message, req.tx_hz as u128);
                message.append(" not in any supported band");
                assert(message@ =~= "rx_hz "@ + decimal(req.rx_hz as nat) + " / tx_hz "@ + decimal(
                    req.tx_hz as nat,
                ) + " not in any supported band"@);
                return Err(Refusal { status: BAD_REQUEST, message });
            },
        };
        let rx = match Freq::new(req.rx_hz, band, step) {
            Ok(f) => f,
            Err(e) => return Err(
                refuse_because(BAD_REQUEST, "rx_hz invalid: ", e.message().as_str()),
            ),
        };
        let tx = match Freq::new(req.tx_hz, band, step) {
            Ok(f) => f,
            Err(e) => return Err(
                refuse_because(BAD_REQUEST, "tx_hz invalid: ", e.message().as_str()),
            ),
        };
        let job = TuneJob { rx, tx, mode: req.mode, answers: Vec::new(), failed: None };
        assert(job@.answers =~= Seq::<ReplyView>::empty());
        Ok(job)
    }

    /// The command to send next, or nothing where all are answered. An unknown
    /// modulation is found out only when its turn comes. Once an exchange has
    /// failed there is no command any more, only the refusal.
    pub fn next(&self) -> (r: Result<Option<OpCommand>, Refusal>)
        ensures
            tune_asks(self@, r),
    {
        match &self.failed {
            Some(refusal) => return Err(refuse(refusal.status, refusal.message.as_str())),
            None => {},
        }
        if self.answers.len() == 0 {
            return Ok(Some(OpCommand::SetRx(self.rx)));
        }
        if self.answers.len() == 1 {
            return Ok(Some(OpCommand::SetTx(self.tx)));
        }
        match &self.mode {
            Some(m) => match parse_mod(m.as_str()) {
                Some(mm) => if self.answers.len() == 2 {
                    Ok(Some(OpCommand::ModTxRx(mm)))
                } else {
                    Ok(None)
                },
                None => Err(refuse(BAD_REQUEST, "mode must be am/fm")),
            },
            None => Ok(None),
        }
    }

    /// Take what came of the command that was sent. A failed exchange ends the
    /// tuning; a NAK does not.
    pub fn record(&mut self, result: Result<Response, RadioError>) -> (r: Result<(), Refusal>)
        requires
            old(self)@.next() is Send,
        ensures
            final(self)@ == old(self)@.recorded(result),
            match (final(self)@.failed, r) {
                (Some(refusal), Err(told)) => told@ == refusal,
                (None, Ok(_)) => true,
                _ => false,
            },
    {
        match result {
            Ok(resp) => {
                let reply = CommandReply::from_response(resp).1;
                self.answers.push(reply);
                assert(self@.answers =~= old(self)@.answers.push(reply@));
                Ok(())
            },
            Err(e) => {
                let lead = if self.answers.len() == 0 {
                    "rx: "
                } else if self.answers.len() == 1 {
                    "tx: "
                } else {
                    "mode: "
                };
                let cause = e.message();
                self.failed = Some(refuse_because(SERVICE_UNAVAILABLE, lead, cause.as_str()));
                Err(refuse_because(SERVICE_UNAVAILABLE, lead, cause.as_str()))
            },
        }
    }

    /// The answer to the request, once all commands are answered. Its status is
    /// that of a conflict where the radio refused one of them.
    pub fn finish(self) -> (r: (u16, TuneReply))
        requires
            self@.next() is Finished,
        ensures
            tune_answered(self@, r),
    {
        let ghost answers = self@.answers;
        let ghost given = self.answers@;
        let mut rest = self.answers;
        assert forall|i: int| 0 <= i < given.len() implies #[trigger] answers[i] == given[i]@ by {}
        let with_mode = self.mode.is_some();
        let rx = rest.remove(0);
        let tx = rest.remove(0);
        let mode: Option<CommandReply> = if with_mode {
            Some(rest.remove(0))
        } else {
            None
        };
        assert(rx@ == answers[0] && tx@ == answers[1]);
        let fine = rx.ok && tx.ok && match &mode {
            Some(m) => m.ok,
            None => true,
        };
        proof {
            if with_mode {
                assert(mode->0@ == answers[2]);
            }
        }
        let status: u16 = if fine {
            OK
        } else {
            CONFLICT
        };
        (status, TuneReply { rx, tx, mode })
    }
}

/// How many commands a tuning takes.
pub open spec fn tune_len(job: TuneView) -> int {
    if job.mode is Some {
        3
    } else {
        2
    }
}

// ---------- Laws ----------

/// The commands that no request may lead to: keying the transmitter, starting
/// the beacon, resetting the channels, running the calibration.
pub open spec fn reserved(c: OpCommand) -> bool {
    c is Transmit || c == OpCommand::Beacon(true) || c is ChannelInit || c is Calibrate
}

/// No single-command request leads to a reserved command, and one that makes
/// no sense leads to none.
pub proof fn law_requests_never_transmit(route: Route, c: OpCommand)
    requires
        route_asks(route, c),
    ensures
        !reserved(c),
        route_makes_sense(route),
{
}

/// A tuning sends the receive frequency, then the transmit frequency, then at
/// most the modulation, and nothing else.
pub proof fn law_tuning_sequence(rx: Freq, tx: Freq, mode: Option<Seq<char>>, answered: nat)
    ensures
        tune_next(rx, tx, mode, 0) == TuneNext::Send(OpCommand::SetRx(rx)),
        tune_next(rx, tx, mode, 1) == TuneNext::Send(OpCommand::SetTx(tx)),
        mode is None ==> tune_next(rx, tx, mode, 2) is Finished,
        answered >= 3 ==> tune_next(rx, tx, mode, answered) !is Send,
        answered >= 3 && mode is Some && mod_named(mode->0) is Some ==> tune_next(
            rx,
            tx,
            mode,
            answered,
        ) is Finished,
        tune_next(rx, tx, mode, answered) is Send ==> !reserved(
            tune_next(rx, tx, mode, answered)->Send_0,
        ),
        answered >= 2 && tune_next(rx, tx, mode, answered) is Send ==> tune_next(
            rx,
            tx,
            mode,
            answered,
        )->Send_0 is ModTxRx,
{
}

/// A tuning after a run of outcomes.
pub open spec fn tune_run(
    job: TuneView,
    results: Seq<Result<Response, RadioError>>,
) -> TuneView
    decreases results.len(),
{
    if results.len() == 0 {
        job
    } else {
        tune_run(job.recorded(results[0]), results.skip(1))
    }
}

/// A failed exchange ends a tuning: no command follows it, whatever comes, and
/// the request is refused with the part that failed.
pub proof fn law_failure_ends_tuning(
    job: TuneView,
    e: RadioError,
    results: Seq<Result<Response, RadioError>>,
)
    requires
        job.next() is Send,
    ensures
        ({
            let failed = job.recorded(Err(e));
            &&& tune_run(failed, results) == failed
            &&& failed.next() == TuneNext::Failed(
                RefusalView {
                    status: SERVICE_UNAVAILABLE,
                    message: tune_part(job.answers.len()) + e.text(),
                },
            )
        }),
    decreases results.len(),
{
    if results.len() > 0 {
        law_failure_ends_tuning(job, e, results.skip(1));
    }
}

/// A frequency that no band covers is refused before anything is sent, and so
/// is a pair that lies in two bands.
pub proof fn law_out_of_band_refused(req: TuneRequest)
    requires
        band_of(req.rx_hz) is None || band_of(req.tx_hz) is None || band_of(req.rx_hz) != band_of(
            req.tx_hz,
        ),
    ensures
        tune_refusal(req) is Some,
{
}

proof fn lemma_step_names_differ()
    ensures
        "25k"@ != "12.5k"@ && "25k"@ != "12_5k"@ && "25k"@ != "5k"@,
        "12.5k"@ != "5k"@ && "12_5k"@ != "5k"@,
{
    reveal_strlit("25k");
    reveal_strlit("12.5k");
    reveal_strlit("12_5k");
    reveal_strlit("5k");
    assert("25k"@.len() == 3 && "12.5k"@.len() == 5 && "12_5k"@.len() == 5 && "5k"@.len() == 2);
}

/// A step's name says how wide it is; nothing else names a step.
pub proof fn law_step_names(s: Seq<char>)
    ensures
        s == "25k"@ ==> step_named(s) is Some && step_named(s)->0.width() == 25_000,
        s == "12.5k"@ || s == "12_5k"@ ==> step_named(s) is Some && step_named(s)->0.width()
            == 12_500,
        s == "5k"@ ==> step_named(s) is Some && step_named(s)->0.width() == 5_000,
        s != "25k"@ && s != "12.5k"@ && s != "12_5k"@ && s != "5k"@ ==> step_named(s) is None,
{
    lemma_step_names_differ();
}

/// Which requests to tune are accepted: those with a known step, 5 kHz where
/// none is named, whose two frequencies lie in the same band and are whole
/// numbers of that step. In the band from 30 to 90 MHz the step must be at
/// least 12.5 kHz.
pub proof fn law_tune_accepted(req: TuneRequest)
    ensures
        ({
            let known = match req.step {
                None => true,
                Some(s) => s@ == "25k"@ || s@ == "12.5k"@ || s@ == "12_5k"@ || s@ == "5k"@,
            };
            let width = match req.step {
                None => 5_000u32,
                Some(s) => if s@ == "25k"@ {
                    25_000u32
                } else if s@ == "5k"@ {
                    5_000u32
                } else {
                    12_500u32
                },
            };
            let base = |hz: u32|
                115_000_000 <= hz <= 173_995_000 || 225_000_000 <= hz <= 399_995_000;
            let low = |hz: u32| 30_000_000 <= hz <= 90_000_000;
            let high = |hz: u32| 400_000_000 <= hz <= 420_000_000;
            tune_refusal(req) is None <==> known && req.rx_hz % width == 0 && req.tx_hz % width == 0
                && (base(req.rx_hz) && base(req.tx_hz) || high(req.rx_hz) && high(req.tx_hz) || low(
                req.rx_hz,
            ) && low(req.tx_hz) && width >= 12_500)
        }),
{
    lemma_step_names_differ();
}

/// A request that is accepted tunes the radio to what it asks for: the receive
/// command carries its receive frequency, the next one its transmit frequency,
/// each as kHz in six digits, and the last one its modulation, if it has one.
pub proof fn law_tunes_as_asked(req: TuneRequest, job: TuneView, a: Response, b: Response, c: Response)
    requires
        tune_refusal(req) is None,
        tune_started(req, job),
    ensures
        ({
            let second = job.recorded(Ok(a));
            let third = second.recorded(Ok(b));
            let last = third.recorded(Ok(c));
            &&& job.next() matches TuneNext::Send(OpCommand::SetRx(f)) && f@.hz == req.rx_hz
                && OpCommand::SetRx(f).wire()[0] == 'R' as u8 && digits_value(f.wire())
                == req.rx_hz / 1000
            &&& second.next() matches TuneNext::Send(OpCommand::SetTx(g)) && g@.hz == req.tx_hz
                && OpCommand::SetTx(g).wire()[0] == 'T' as u8 && digits_value(g.wire())
                == req.tx_hz / 1000
            &&& match req.mode {
                None => third.next() is Finished,
                Some(m) => {
                    &&& lowercase(m@) == "am"@ ==> third.next() == TuneNext::Send(
                        OpCommand::ModTxRx(ModMode::Am),
                    ) && last.next() is Finished
                    &&& lowercase(m@) == "fm"@ ==> third.next() == TuneNext::Send(
                        OpCommand::ModTxRx(ModMode::Fm),
                    ) && last.next() is Finished
                    &&& lowercase(m@) != "am"@ && lowercase(m@) != "fm"@ ==> third.next()
                        is UnknownMode
                },
            }
        }),
{
    lemma_words_differ();
    law_tuning_digits(job.rx);
    law_tuning_digits(job.tx);
    assert(OpCommand::SetRx(job.rx).wire().skip(1) =~= job.rx.wire());
    assert(OpCommand::SetTx(job.tx).wire().skip(1) =~= job.tx.wire());
}

/// The answer to a request to tune is 409 exactly when the radio refused one of
/// its commands, and 200 otherwise.
pub proof fn law_tune_status(req: TuneRequest, job: TuneView, a: Response, b: Response, c: Response)
    requires
        tune_refusal(req) is None,
        tune_started(req, job),
    ensures
        ({
            let two = job.recorded(Ok(a)).recorded(Ok(b));
            let three = two.recorded(Ok(c));
            let refused = a@.verdict is Nak || b@.verdict is Nak;
            &&& req.mode is None ==> two.next() is Finished && tune_status(two) == (if refused {
                409u16
            } else {
                200u16
            })
            &&& req.mode is Some && two.next() is Send ==> three.next() is Finished
                && tune_status(three) == (if refused || c@.verdict is Nak {
                409u16
            } else {
                200u16
            })
        }),
{
    let two = job.recorded(Ok(a)).recorded(Ok(b));
    let three = two.recorded(Ok(c));
    assert(two.answers =~= seq![reply_of(a@), reply_of(b@)]);
    assert(two.answers[0].ok == !(a@.verdict is Nak));
    assert(two.answers[1].ok == !(b@.verdict is Nak));
    if two.next() is Send {
        assert(three.answers =~= seq![reply_of(a@), reply_of(b@), reply_of(c@)]);
        assert(three.answers[0].ok == !(a@.verdict is Nak));
        assert(three.answers[1].ok == !(b@.verdict is Nak));
        assert(three.answers[2].ok == !(c@.verdict is Nak));
    }
}

/// A radio's reply as the client sees it: refused with 409 exactly on a NAK,
/// else fine with 200; and the kind of the reply, and whether there was data.
pub proof fn law_reply_told(r: Reply)
    ensures
        r.verdict is Nak ==> status_of(r) == 409 && !reply_of(r).ok && reply_of(r).kind == "nak"@,
        r.verdict is Ack ==> status_of(r) == 200 && reply_of(r).ok && reply_of(r).kind == "ack"@,
        r.verdict is Ht ==> status_of(r) == 200 && reply_of(r).ok && reply_of(r).kind == "ht"@,
        reply_of(r).data is None <==> r.data.len() == 0,
        r.data.len() > 0 && vstd::utf8::valid_utf8(r.data) ==> reply_of(r).data == Some(
            vstd::utf8::decode_utf8(r.data),
        ),
{
}

/// What a request for a single command puts on the wire, by its words.
pub proof fn law_request_on_the_wire(route: Route, c: OpCommand)
    requires
        route_asks(route, c),
    ensures
        match route {
            Route::Preset(n) => c.wire() == seq!['P' as u8, (48 + n) as u8],
            Route::Squelch(v) => c.wire().len() == 4 && c.wire()[0] == '$' as u8 && digits_value(
                c.wire().skip(1),
            ) == v,
            Route::Lamp(s) => {
                let w = lowercase(s@);
                &&& w == "off"@ ==> c.wire() == seq!['L' as u8, '0' as u8]
                &&& w == "lo"@ || w == "low"@ || w == "1"@ ==> c.wire() == seq![
                    'L' as u8,
                    '1' as u8,
                ]
                &&& w == "med"@ || w == "medium"@ || w == "2"@ ==> c.wire() == seq![
                    'L' as u8,
                    '2' as u8,
                ]
                &&& w == "hi"@ || w == "high"@ || w == "3"@ ==> c.wire() == seq![
                    'L' as u8,
                    '3' as u8,
                ]
            },
            Route::Power(s) => {
                let w = lowercase(s@);
                &&& w == "lo"@ || w == "low"@ || w == "0"@ ==> c.wire() == seq![
                    '#' as u8,
                    '0' as u8,
                ]
                &&& w == "med"@ || w == "medium"@ || w == "1"@ ==> c.wire() == seq![
                    '#' as u8,
                    '1' as u8,
                ]
                &&& w == "hi"@ || w == "high"@ || w == "2"@ ==> c.wire() == seq![
                    '#' as u8,
                    '2' as u8,
                ]
            },
            Route::Text(s) => {
                let w = lowercase(s@);
                &&& w == "pt"@ || w == "voice"@ || w == "plain"@ ==> c.wire() == seq![
                    'X' as u8,
                    '0' as u8,
                ]
                &&& w == "ct"@ || w == "data"@ || w == "cipher"@ ==> c.wire() == seq![
                    'X' as u8,
                    '1' as u8,
                ]
            },
            Route::Mod(s) => {
                let w = lowercase(s@);
                &&& w == "am"@ ==> c.wire() == seq!['M' as u8, '0' as u8]
                &&& w == "fm"@ ==> c.wire() == seq!['M' as u8, '1' as u8]
            },
            Route::ModTxOnly(s) => {
                let w = lowercase(s@);
                &&& w == "am"@ ==> c.wire() == seq!['N' as u8, '0' as u8]
                &&& w == "fm"@ ==> c.wire() == seq!['N' as u8, '1' as u8]
            },
            Route::Speaker(s) => switch_on_wire(lowercase(s@), c.wire(), 'J' as u8),
            Route::Scan(s) => switch_on_wire(lowercase(s@), c.wire(), 'S' as u8),
            Route::ScanListMember(s) => switch_on_wire(lowercase(s@), c.wire(), 'C' as u8),
            Route::Store => c.wire() == seq!['Q' as u8],
        },
{
    lemma_words_differ();
    match route {
        Route::Squelch(v) => {
            law_squelch_digits(v as u8);
        },
        Route::Store => {
            assert(c.wire() =~= seq!['Q' as u8]);
        },
        _ => {
            assert(c.wire() =~= seq![c.wire()[0], c.wire()[1]]);
        },
    }
}

/// A switch on the wire: the word for on is a one, the word for off a zero.
pub open spec fn switch_on_wire(w: Seq<char>, wire: Seq<u8>, prefix: u8) -> bool {
    &&& w == "on"@ || w == "1"@ || w == "true"@ ==> wire == seq![prefix, '1' as u8]
    &&& w == "off"@ || w == "0"@ || w == "false"@ ==> wire == seq![prefix, '0' as u8]
}

/// Which words a request may use, capitals or not.
pub proof fn law_request_words(route: Route)
    ensures
        match route {
            Route::Preset(n) => route_makes_sense(route) <==> n < 10,
            Route::Squelch(v) => route_makes_sense(route) <==> v < 256,
            Route::Lamp(s) => {
                let w = lowercase(s@);
                route_makes_sense(route) <==> w == "off"@ || w == "lo"@ || w == "low"@ || w == "1"@
                    || w == "med"@ || w == "medium"@ || w == "2"@ || w == "hi"@ || w == "high"@ || w
                    == "3"@
            },
            Route::Power(s) => {
                let w = lowercase(s@);
                route_makes_sense(route) <==> w == "lo"@ || w == "low"@ || w == "0"@ || w == "med"@
                    || w == "medium"@ || w == "1"@ || w == "hi"@ || w == "high"@ || w == "2"@
            },
            Route::Text(s) => {
                let w = lowercase(s@);
                route_makes_sense(route) <==> w == "pt"@ || w == "voice"@ || w == "plain"@ || w
                    == "ct"@ || w == "data"@ || w == "cipher"@
            },
            Route::Mod(s) | Route::ModTxOnly(s) => {
                let w = lowercase(s@);
                route_makes_sense(route) <==> w == "am"@ || w == "fm"@
            },
            Route::Speaker(s) | Route::Scan(s) | Route::ScanListMember(s) => {
                let w = lowercase(s@);
                route_makes_sense(route) <==> w == "on"@ || w == "1"@ || w == "true"@ || w == "off"@
                    || w == "0"@ || w == "false"@
            },
            Route::Store => route_makes_sense(route),
        },
        route_makes_sense(route) && !(route is Preset) ==> exists|c: OpCommand| #[trigger]
            route_asks(route, c),
{
    lemma_words_differ();
    if route_makes_sense(route) {
        match route {
            Route::Lamp(s) => {
                assert(route_asks(route, OpCommand::Lamp(lamp_named(s@)->0)));
            },
            Route::Speaker(s) => {
                assert(route_asks(route, OpCommand::Speaker(switch_named(s@)->0)));
            },
            Route::Squelch(v) => {
                assert(route_asks(route, OpCommand::Squelch(v as u8)));
            },
            Route::Mod(s) => {
                assert(route_asks(route, OpCommand::ModTxRx(mod_named(s@)->0)));
            },
            Route::ModTxOnly(s) => {
                assert(route_asks(route, OpCommand::ModTxOnly(mod_named(s@)->0)));
            },
            Route::Text(s) => {
                assert(route_asks(route, OpCommand::Text(text_named(s@)->0)));
            },
            Route::Power(s) => {
                assert(route_asks(route, OpCommand::Power(power_named(s@)->0)));
            },
            Route::Scan(s) => {
                assert(route_asks(route, OpCommand::Scan(switch_named(s@)->0)));
            },
            Route::ScanListMember(s) => {
                assert(route_asks(route, OpCommand::ScanListMember(switch_named(s@)->0)));
            },
            Route::Store => {
                assert(route_asks(route, OpCommand::StorePreset));
            },
            Route::Preset(_) => {},
        }
    }
}

/// No two of the words that requests use are the same.
proof fn lemma_words_differ()
    ensures
        "on"@ != "off"@ && "on"@ != "0"@ && "on"@ != "false"@,
        "1"@ != "off"@ && "1"@ != "0"@ && "1"@ != "false"@,
        "true"@ != "off"@ && "true"@ != "0"@ && "true"@ != "false"@,
        "am"@ != "fm"@,
        "pt"@ != "ct"@ && "pt"@ != "data"@ && "pt"@ != "cipher"@,
        "voice"@ != "ct"@ && "voice"@ != "data"@ && "voice"@ != "cipher"@,
        "plain"@ != "ct"@ && "plain"@ != "data"@ && "plain"@ != "cipher"@,
        "lo"@ != "med"@ && "lo"@ != "medium"@ && "lo"@ != "hi"@ && "lo"@ != "high"@,
        "low"@ != "med"@ && "low"@ != "medium"@ && "low"@ != "hi"@ && "low"@ != "high"@,
        "med"@ != "hi"@ && "med"@ != "high"@ && "medium"@ != "hi"@ && "medium"@ != "high"@,
        "off"@ != "lo"@ && "off"@ != "low"@ && "off"@ != "med"@ && "off"@ != "medium"@,
        "off"@ != "hi"@ && "off"@ != "high"@ && "off"@ != "2"@ && "off"@ != "3"@,
        "0"@ != "1"@ && "0"@ != "2"@ && "1"@ != "2"@ && "1"@ != "3"@ && "2"@ != "3"@,
        "lo"@ != "0"@ && "lo"@ != "1"@ && "lo"@ != "2"@ && "lo"@ != "3"@,
        "low"@ != "0"@ && "low"@ != "1"@ && "low"@ != "2"@ && "low"@ != "3"@,
        "med"@ != "0"@ && "med"@ != "1"@ && "med"@ != "2"@ && "med"@ != "3"@,
        "medium"@ != "0"@ && "medium"@ != "1"@ && "medium"@ != "2"@ && "medium"@ != "3"@,
        "hi"@ != "0"@ && "hi"@ != "1"@ && "hi"@ != "2"@ && "hi"@ != "3"@,
        "high"@ != "0"@ && "high"@ != "1"@ && "high"@ != "2"@ && "high"@ != "3"@,
{
    reveal_strlit("on");
    reveal_strlit("off");
    reveal_strlit("true");
    reveal_strlit("false");
    reveal_strlit("0");
    reveal_strlit("1");
    reveal_strlit("2");
    reveal_strlit("3");
    reveal_strlit("am");
    reveal_strlit("fm");
    reveal_strlit("pt");
    reveal_strlit("ct");
    reveal_strlit("voice");
    reveal_strlit("plain");
    reveal_strlit("data");
    reveal_strlit("cipher");
    reveal_strlit("lo");
    reveal_strlit("low");
    reveal_strlit("med");
    reveal_strlit("medium");
    reveal_strlit("hi");
    reveal_strlit("high");
    assert("on"@[1] == 'n' && "off"@[1] == 'f');
    assert("am"@[0] == 'a' && "fm"@[0] == 'f');
    assert("pt"@[0] == 'p' && "ct"@[0] == 'c');
    assert("voice"@[0] == 'v' && "plain"@[0] == 'p');
    assert("true"@[0] == 't' && "false"@[0] == 'f');
    assert("lo"@[0] == 'l' && "hi"@[0] == 'h' && "low"@[0] == 'l' && "med"@[0] == 'm');
    assert("off"@[0] == 'o' && "high"@[0] == 'h' && "data"@[0] == 'd');
    assert("0"@[0] == '0' && "1"@[0] == '1' && "2"@[0] == '2' && "3"@[0] == '3');
}

/// A command's answer: 200 on an ACK or an HT, 409 on a NAK, 503 where there was
/// no reply, and nothing else.
pub proof fn law_command_answered(
    result: Result<Response, RadioError>,
    r: Result<(u16, CommandReply), Refusal>,
)
    requires
        dispatched(result, r),
    ensures
        result is Ok <==> r is Ok,
        result matches Ok(resp) ==> (r matches Ok((status, reply)) && status == (
        if resp@.verdict is Nak {
            409u16
        } else {
            200u16
        }) && reply.ok == !(resp@.verdict is Nak)),
        result is Err ==> r->Err_0.status == 503,
        result matches Err(RadioError::Timeout(d)) ==> r->Err_0.message@ == "radio timeout after "@
            + duration_text(d),
        result matches Err(RadioError::Transport(t)) ==> r->Err_0.message@ == "transport: "@
            + t.text(),
        result matches Err(RadioError::Fault) ==> r->Err_0.message@
            == "radio protocol fault (3 NAKs)"@,
        result matches Err(RadioError::Closed) ==> r->Err_0.message@ == "radio handle closed"@,
{
}

/// A request that makes no sense is refused with 400 and told what it may say;
/// every other leads to a command.
pub proof fn law_request_answered(route: Route, r: Result<OpCommand, Refusal>)
    requires
        route_answered(route, r),
    ensures
        r is Ok <==> route_makes_sense(route),
        r matches Err(refusal) ==> refusal.status == 400 && refusal.message@ == match route {
            Route::Preset(_) => "preset must be 0..=9"@,
            Route::Lamp(_) => "lamp must be off/lo/med/hi"@,
            Route::Speaker(_) => "speaker must be on/off"@,
            Route::Squelch(_) => "squelch must be 0..=255"@,
            Route::Mod(_) => "mod must be am/fm"@,
            Route::ModTxOnly(_) => "mod_tx_only must be am/fm"@,
            Route::Text(_) => "text must be pt/ct"@,
            Route::Power(_) => "power must be lo/med/hi"@,
            Route::Scan(_) => "scan must be on/off"@,
            Route::ScanListMember(_) => "scan_list_member must be on/off"@,
            Route::Store => ""@,
        },
{
}

/// The parts of the answer to a tuning are the radio's replies to its commands,
/// each in its own place, and the modulation's is there exactly when one was
/// asked for.
pub proof fn law_tune_parts(
    req: TuneRequest,
    job: TuneView,
    a: Response,
    b: Response,
    c: Response,
    r: (u16, TuneReply),
)
    requires
        tune_refusal(req) is None,
        tune_started(req, job),
    ensures
        ({
            let two = job.recorded(Ok(a)).recorded(Ok(b));
            let three = two.recorded(Ok(c));
            let refused = a@.verdict is Nak || b@.verdict is Nak;
            &&& two.next() is Finished && tune_answered(two, r) ==> {
                &&& r.1.rx.ok == !(a@.verdict is Nak)
                &&& r.1.tx.ok == !(b@.verdict is Nak)
                &&& r.1.mode is None
                &&& r.0 == (if refused {
                    409u16
                } else {
                    200u16
                })
            }
            &&& two.next() is Send && tune_answered(three, r) ==> {
                &&& r.1.rx.ok == !(a@.verdict is Nak)
                &&& r.1.tx.ok == !(b@.verdict is Nak)
                &&& r.1.mode is Some && r.1.mode->0.ok == !(c@.verdict is Nak)
                &&& r.0 == (if refused || c@.verdict is Nak {
                    409u16
                } else {
                    200u16
                })
            }
        }),
{
    law_tune_status(req, job, a, b, c);
    let two = job.recorded(Ok(a)).recorded(Ok(b));
    let three = two.recorded(Ok(c));
    assert(two.answers =~= seq![reply_of(a@), reply_of(b@)]);
    assert(r.1.rx@.ok == r.1.rx.ok && r.1.tx@.ok == r.1.tx.ok);
    if two.next() is Send {
        assert(three.answers =~= seq![reply_of(a@), reply_of(b@), reply_of(c@)]);
        if let Some(m) = r.1.mode {
            assert(m@.ok == m.ok);
        }
    }
}

/// A tuning asks for a command while one is left, for nothing when it is
/// finished, and gives a refusal otherwise: 400 for a modulation that is none,
/// and the one that names the failed part after a failure.
pub proof fn law_tune_asks(job: TuneView, r: Result<Option<OpCommand>, Refusal>)
    requires
        tune_asks(job, r),
    ensures
        job.next() matches TuneNext::Send(c) ==> r == Ok::<Option<OpCommand>, Refusal>(Some(c)),
        job.next() is Finished ==> r == Ok::<Option<OpCommand>, Refusal>(None),
        job.next() is UnknownMode ==> r is Err && r->Err_0.status == 400 && r->Err_0.message@
            == "mode must be am/fm"@,
        job.failed matches Some(refusal) ==> r is Err && r->Err_0@ == refusal,
{
}

/// A failure is told of the command that was under way: of the receive frequency
/// while nothing is answered, of the transmit frequency after one answer, of the
/// modulation after that.
pub proof fn law_failed_part(answered: nat)
    ensures
        answered == 0 ==> tune_part(answered) == "rx: "@,
        answered == 1 ==> tune_part(answered) == "tx: "@,
        answered >= 2 ==> tune_part(answered) == "mode: "@,
{
}

/// What may not be asked for: to key the transmitter, to start the beacon, to
/// reset the channels, to calibrate; everything else may, to stop the beacon too.
pub proof fn law_reserved(c: OpCommand)
    ensures
        c is Transmit ==> reserved(c),
        c is ChannelInit ==> reserved(c),
        c is Calibrate ==> reserved(c),
        c matches OpCommand::Beacon(on) ==> (reserved(c) <==> on),
        reserved(c) ==> c is Transmit || c is ChannelInit || c is Calibrate || c is Beacon,
{
}

/// The reason for which a request to tune is refused: first a step that has no
/// name, then a pair of which neither frequency lies in a band, then the receive
/// frequency, then the transmit frequency.
pub proof fn law_tune_refused(req: TuneRequest)
    ensures
        ({
            let known = match req.step {
                None => true,
                Some(s) => s@ == "25k"@ || s@ == "12.5k"@ || s@ == "12_5k"@ || s@ == "5k"@,
            };
            let covered = |hz: u32|
                30_000_000 <= hz <= 90_000_000 || 115_000_000 <= hz <= 173_995_000 || 225_000_000
                    <= hz <= 399_995_000 || 400_000_000 <= hz <= 420_000_000;
            let starts = |m: Seq<char>, word: Seq<char>|
                m.len() >= word.len() && m.take(word.len() as int) == word;
            let m = tune_refusal(req);
            &&& !known ==> m == Some(
                "unknown step "@ + debug_text(req.step->0@) + "; use 25k/12.5k/5k"@,
            )
            &&& known && !covered(req.rx_hz) && !covered(req.tx_hz) ==> m == Some(
                "rx_hz "@ + decimal(req.rx_hz as nat) + " / tx_hz "@ + decimal(req.tx_hz as nat)
                    + " not in any supported band"@,
            )
            &&& known && (covered(req.rx_hz) || covered(req.tx_hz)) && m is Some ==> starts(
                m->0,
                "rx_hz invalid: "@,
            ) || starts(m->0, "tx_hz invalid: "@)
            &&& known && !covered(req.rx_hz) && covered(req.tx_hz) ==> m is Some && starts(
                m->0,
                "rx_hz invalid: "@,
            )
            &&& known && covered(req.rx_hz) && !covered(req.tx_hz) && req.rx_hz % 25_000 == 0
                ==> m is Some && (starts(m->0, "tx_hz invalid: "@) || req.rx_hz <= 90_000_000)
        }),
{
    lemma_step_names_differ();
    reveal_strlit("rx_hz invalid: ");
    reveal_strlit("tx_hz invalid: ");
    if let Some(step) = request_step(req) {
        if let Some(band) = pair_band(req.rx_hz, req.tx_hz) {
            if let Some(e) = tuning_error(req.rx_hz, band, step) {
                let m = "rx_hz invalid: "@ + e.text();
                assert(m.take(15) =~= "rx_hz invalid: "@);
            } else if let Some(e) = tuning_error(req.tx_hz, band, step) {
                let m = "tx_hz invalid: "@ + e.text();
                assert(m.take(15) =~= "tx_hz invalid: "@);
            }
        }
    }
}

} // verus!
