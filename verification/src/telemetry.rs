//! Telemetry as the clients see it.
use vstd::prelude::*;
use crate::command::{LampLevel, ModMode, PowerLevel, TextMode};
use crate::commands::{lamp_named, mod_named, power_named, text_named};
use crate::inquiry::{Mode, SquelchStatus};
use crate::poller::{PollErrorKind, PollFailure, Telemetry, TelemetryUpdate};
use crate::text::{append_byte_list, byte_list_text, debug_string, debug_text, lowercase};

verus! {

/// A telemetry event for a client. Frequencies are in Hz.
#[derive(Debug, Clone, PartialEq, Eq)]
pub enum WsEvent {
    Rssi { value: u8 },
    Squelch { broken: bool },
    SynthLock { locked: bool },
    Mode { mode: &'static str },
    General {
        text_mode: &'static str,
        speaker_on: bool,
        lamp: &'static str,
        overtemp: bool,
        options_byte: u8,
        ebn30: bool,
        ebn400: bool,
    },
    Preset {
        preset: u8,
        tx_hz: u32,
        rx_hz: u32,
        mod_tx_rx: &'static str,
        mod_tx_only: &'static str,
        power: &'static str,
        on_scan_list: bool,
    },
    Error { inquiry: String, kind: String },
    Lagged { dropped: u64 },
}

/// What a [`WsEvent`] stands for.
#[verifier::ext_equal]
pub enum WsView {
    Rssi { value: u8 },
    Squelch { broken: bool },
    SynthLock { locked: bool },
    Mode { mode: Seq<char> },
    General {
        text_mode: Seq<char>,
        speaker_on: bool,
        lamp: Seq<char>,
        overtemp: bool,
        options_byte: u8,
        ebn30: bool,
        ebn400: bool,
    },
    Preset {
        preset: u8,
        tx_hz: u32,
        rx_hz: u32,
        mod_tx_rx: Seq<char>,
        mod_tx_only: Seq<char>,
        power: Seq<char>,
        on_scan_list: bool,
    },
    Error { inquiry: Seq<char>, kind: Seq<char> },
    Lagged { dropped: u64 },
}

impl View for WsEvent {
    type V = WsView;

    open spec fn view(&self) -> WsView {
        match *self {
            WsEvent::Rssi { value } => WsView::Rssi { value },
            WsEvent::Squelch { broken } => WsView::Squelch { broken },
            WsEvent::SynthLock { locked } => WsView::SynthLock { locked },
            WsEvent::Mode { mode } => WsView::Mode { mode: mode@ },
            WsEvent::General {
                text_mode,
                speaker_on,
                lamp,
                overtemp,
                options_byte,
                ebn30,
                ebn400,
            } => WsView::General {
                text_mode: text_mode@,
                speaker_on,
                lamp: lamp@,
                overtemp,
                options_byte,
                ebn30,
                ebn400,
            },
            WsEvent::Preset {
                preset,
                tx_hz,
                rx_hz,
                mod_tx_rx,
                mod_tx_only,
                power,
                on_scan_list,
            } => WsView::Preset {
                preset,
                tx_hz,
                rx_hz,
                mod_tx_rx: mod_tx_rx@,
                mod_tx_only: mod_tx_only@,
                power: power@,
                on_scan_list,
            },
            WsEvent::Error { inquiry, kind } => WsView::Error {
                inquiry: inquiry@,
                kind: kind@,
            },
            WsEvent::Lagged { dropped } => WsView::Lagged { dropped },
        }
    }
}

pub open spec fn text_mode_name(t: TextMode) -> Seq<char> {
    match t {
        TextMode::Pt => "pt"@,
        TextMode::Ct => "ct"@,
    }
}

pub open spec fn lamp_name(l: LampLevel) -> Seq<char> {
    match l {
        LampLevel::Off => "off"@,
        LampLevel::Lo => "lo"@,
        LampLevel::Med => "med"@,
        LampLevel::Hi => "hi"@,
    }
}

pub open spec fn mod_name(m: ModMode) -> Seq<char> {
    match m {
        ModMode::Am => "am"@,
        ModMode::Fm => "fm"@,
    }
}

pub open spec fn power_name(p: PowerLevel) -> Seq<char> {
    match p {
        PowerLevel::Lo => "lo"@,
        PowerLevel::Med => "med"@,
        PowerLevel::Hi => "hi"@,
    }
}

pub open spec fn mode_name(m: Mode) -> Seq<char> {
    match m {
        Mode::Receive => "receive"@,
        Mode::Transmit => "transmit"@,
        Mode::Beacon => "beacon"@,
    }
}

/// A poll failure, as `Debug` prints its kind.
pub open spec fn failure_name(k: PollFailure) -> Seq<char> {
    match k {
        PollFailure::Timeout => "Timeout"@,
        PollFailure::Decode(raw) => "Decode { raw: "@ + byte_list_text(raw) + " }"@,
        PollFailure::Transport(s) => "Transport("@ + debug_text(s) + ")"@,
        PollFailure::Fault => "Fault"@,
    }
}

/// The event that an update gives.
pub open spec fn event_of(u: Telemetry) -> WsView {
    match u {
        Telemetry::Rssi(value) => WsView::Rssi { value },
        Telemetry::Squelch(s) => WsView::Squelch { broken: s is Broken },
        Telemetry::SynthLock(locked) => WsView::SynthLock { locked },
        Telemetry::Mode(m) => WsView::Mode { mode: mode_name(m) },
        Telemetry::General(g) => WsView::General {
            text_mode: text_mode_name(g.text_mode),
            speaker_on: g.speaker_on,
            lamp: lamp_name(g.lamp),
            overtemp: g.overtemp,
            options_byte: g.options_byte,
            ebn30: g.options_byte == 2 || g.options_byte == 6,
            ebn400: g.options_byte == 4 || g.options_byte == 6,
        },
        Telemetry::Preset(p) => WsView::Preset {
            preset: p.preset,
            tx_hz: p.tx_hz,
            rx_hz: p.rx_hz,
            mod_tx_rx: mod_name(p.mod_tx_rx),
            mod_tx_only: mod_name(p.mod_tx_only),
            power: power_name(p.power),
            on_scan_list: p.on_scan_list,
        },
        Telemetry::Error(inquiry, kind) => WsView::Error {
            inquiry: inquiry.label(),
            kind: failure_name(kind),
        },
    }
}

pub fn text_mode_str(t: TextMode) -> (r: &'static str)
    ensures
        r@ == text_mode_name(t),
{
    match t {
        TextMode::Pt => "pt",
        TextMode::Ct => "ct",
    }
}

pub fn lamp_str(l: LampLevel) -> (r: &'static str)
    ensures
        r@ == lamp_name(l),
{
    match l {
        LampLevel::Off => "off",
        LampLevel::Lo => "lo",
        LampLevel::Med => "med",
        LampLevel::Hi => "hi",
    }
}

pub fn mod_str(m: ModMode) -> (r: &'static str)
    ensures
        r@ == mod_name(m),
{
    match m {
        ModMode::Am => "am",
        ModMode::Fm => "fm",
    }
}

pub fn power_str(p: PowerLevel) -> (r: &'static str)
    ensures
        r@ == power_name(p),
{
    match p {
        PowerLevel::Lo => "lo",
        PowerLevel::Med => "med",
        PowerLevel::Hi => "hi",
    }
}

fn mode_str(m: Mode) -> (r: &'static str)
    ensures
        r@ == mode_name(m),
{
    match m {
        Mode::Receive => "receive",
        Mode::Transmit => "transmit",
        Mode::Beacon => "beacon",
    }
}

fn failure_str(k: &PollErrorKind) -> (r: String)
    ensures
        r@ == failure_name(k@),
{
    let mut out = String::new();
    match k {
        PollErrorKind::Timeout => out.append("Timeout"),
        PollErrorKind::Decode { raw } => {
            out.append("Decode { raw: ");
            append_byte_list(&mut out, raw.as_slice());
            out.append(" }");
        },
        PollErrorKind::Transport(s) => {
            out.append("Transport(");
            out.append(debug_string(s.as_str()).as_str());
            out.append(")");
        },
        PollErrorKind::Fault => out.append("Fault"),
    }
    out
}

impl WsEvent {
    /// The event that an update gives.
    pub fn from_update(u: TelemetryUpdate) -> (r: WsEvent)
        ensures
            r@ == event_of(u@),
    {
        match u {
            TelemetryUpdate::Rssi(rssi) => WsEvent::Rssi { value: rssi.0 },
            TelemetryUpdate::Squelch(s) => WsEvent::Squelch {
                broken: match s {
                    SquelchStatus::Broken => true,
                    SquelchStatus::Closed => false,
                },
            },
            TelemetryUpdate::SynthLock(l) => WsEvent::SynthLock { locked: l.0 },
            TelemetryUpdate::Mode(m) => WsEvent::Mode { mode: mode_str(m) },
            TelemetryUpdate::General(g) => WsEvent::General {
                text_mode: text_mode_str(g.text_mode),
                speaker_on: g.speaker_on,
                lamp: lamp_str(g.lamp),
                overtemp: g.overtemp,
                options_byte: g.options_byte,
                ebn30: g.has_ebn30(),
                ebn400: g.has_ebn400(),
            },
            TelemetryUpdate::Preset(p) => WsEvent::Preset {
                preset: p.preset.get(),
                tx_hz: p.tx_hz,
                rx_hz: p.rx_hz,
                mod_tx_rx: mod_str(p.mod_tx_rx),
                mod_tx_only: mod_str(p.mod_tx_only),
                power: power_str(p.power),
                on_scan_list: p.on_scan_list,
            },
            TelemetryUpdate::Error { inquiry, kind } => WsEvent::Error {
                inquiry: inquiry.name().to_string(),
                kind: failure_str(&kind),
            },
        }
    }
}

/// The names that clients are told are the names that requests understand: each
/// leads back to the modulation, lamp level, power level or text mode it was
/// made of.
pub proof fn law_names_understood(m: ModMode, l: LampLevel, p: PowerLevel, t: TextMode)
    ensures
        mod_named(mod_name(m)) == Some(m),
        lamp_named(lamp_name(l)) == Some(l),
        power_named(power_name(p)) == Some(p),
        text_named(text_mode_name(t)) == Some(t),
{
    reveal_strlit("am");
    reveal_strlit("fm");
    reveal_strlit("off");
    reveal_strlit("lo");
    reveal_strlit("med");
    reveal_strlit("hi");
    reveal_strlit("pt");
    reveal_strlit("ct");
    reveal_strlit("low");
    reveal_strlit("medium");
    reveal_strlit("high");
    reveal_strlit("0");
    reveal_strlit("1");
    reveal_strlit("2");
    reveal_strlit("3");
    reveal_strlit("voice");
    reveal_strlit("plain");
    reveal_strlit("data");
    reveal_strlit("cipher");
    assert(lowercase("am"@) =~= "am"@);
    assert(lowercase("fm"@) =~= "fm"@);
    assert(lowercase("off"@) =~= "off"@);
    assert(lowercase("lo"@) =~= "lo"@);
    assert(lowercase("med"@) =~= "med"@);
    assert(lowercase("hi"@) =~= "hi"@);
    assert(lowercase("pt"@) =~= "pt"@);
    assert(lowercase("ct"@) =~= "ct"@);
    assert("am"@[0] == 'a' && "fm"@[0] == 'f' && "pt"@[0] == 'p' && "ct"@[0] == 'c');
    assert("off"@[0] == 'o' && "lo"@[0] == 'l' && "med"@[0] == 'm' && "hi"@[0] == 'h');
    assert("low"@[0] == 'l' && "medium"@[0] == 'm' && "high"@[0] == 'h');
    assert("voice"@[0] == 'v' && "plain"@[0] == 'p' && "data"@[0] == 'd' && "cipher"@[0] == 'c');
    assert("pt"@.len() == 2 && "ct"@.len() == 2 && "plain"@.len() == 5 && "cipher"@.len() == 6);
    assert("lo"@.len() == 2 && "low"@.len() == 3 && "hi"@.len() == 2 && "off"@.len() == 3);
    assert("0"@.len() == 1 && "1"@.len() == 1 && "2"@.len() == 1 && "3"@.len() == 1);
}

/// What a client is told is what the radio said: every number and flag as it
/// is, receive for receive and transmit for transmit, every level by its name;
/// the squelch is broken exactly when the radio says so; an option is there
/// where its digit, two or four, makes up the options digit.
pub proof fn law_events_report(u: Telemetry)
    ensures
        match (u, event_of(u)) {
            (Telemetry::Rssi(v), WsView::Rssi { value }) => value == v,
            (Telemetry::Squelch(s), WsView::Squelch { broken }) => broken == (s
                == SquelchStatus::Broken),
            (Telemetry::SynthLock(l), WsView::SynthLock { locked }) => locked == l,
            (Telemetry::Mode(m), WsView::Mode { mode }) => mode == match m {
                Mode::Receive => "receive"@,
                Mode::Transmit => "transmit"@,
                Mode::Beacon => "beacon"@,
            },
            (
                Telemetry::General(g),
                WsView::General {
                    text_mode,
                    speaker_on,
                    lamp,
                    overtemp,
                    options_byte,
                    ebn30,
                    ebn400,
                },
            ) => {
                &&& text_named(text_mode) == Some(g.text_mode)
                &&& lamp_named(lamp) == Some(g.lamp)
                &&& speaker_on == g.speaker_on && overtemp == g.overtemp && options_byte
                    == g.options_byte
                &&& g.options_byte == 0 ==> !ebn30 && !ebn400
                &&& g.options_byte == 2 ==> ebn30 && !ebn400
                &&& g.options_byte == 4 ==> !ebn30 && ebn400
                &&& g.options_byte == 6 ==> ebn30 && ebn400
            },
            (
                Telemetry::Preset(p),
                WsView::Preset {
                    preset,
                    tx_hz,
                    rx_hz,
                    mod_tx_rx,
                    mod_tx_only,
                    power,
                    on_scan_list,
                },
            ) => {
                &&& preset == p.preset && tx_hz == p.tx_hz && rx_hz == p.rx_hz
                &&& mod_named(mod_tx_rx) == Some(p.mod_tx_rx)
                &&& mod_named(mod_tx_only) == Some(p.mod_tx_only)
                &&& power_named(power) == Some(p.power)
                &&& on_scan_list == p.on_scan_list
            },
            (Telemetry::Error(inq, k), WsView::Error { inquiry, kind }) => {
                &&& inquiry == inq.label()
                &&& k is Timeout ==> kind == "Timeout"@
                &&& k is Fault ==> kind == "Fault"@
                &&& k matches PollFailure::Transport(e) ==> kind == "Transport("@ + debug_text(e)
                    + ")"@
                &&& k matches PollFailure::Decode(raw) ==> kind == "Decode { raw: "@
                    + byte_list_text(raw) + " }"@
            },
            _ => false,
        },
{
    match u {
        Telemetry::General(g) => {
            law_names_understood(ModMode::Am, g.lamp, PowerLevel::Lo, g.text_mode);
        },
        Telemetry::Preset(p) => {
            law_names_understood(p.mod_tx_rx, LampLevel::Off, p.power, TextMode::Pt);
            law_names_understood(p.mod_tx_only, LampLevel::Off, p.power, TextMode::Pt);
        },
        _ => {},
    }
}

} // verus!
