//! Diagnostics: send one command, describe what comes back.
use vstd::prelude::*;
use crate::command::{LampLevel, ModMode, OpCommand, PowerLevel, TextMode};
use crate::commands::reserved;
use crate::inquiry::{
    law_inquiries_distinct, GeneralStatus, Inquiry, Mode, PresetSnapshot, PresetView, Rssi,
    SquelchStatus, SynthLock,
};
use crate::response::{
    parser_replies, parser_state, ParserView, Reply, Response, ResponseParser,
    Verdict,
};
use crate::text::{
    append_bool, append_decimal, append_decimal4, append_hex, bool_text, bytes_eq, debug_string,
    debug_text, decimal, decimal4, digit_char, has_part, hex_text, lossy_string, printable,
    printable_string, utf8_lossy, views,
};
use vstd::utf8::encode_utf8;

verus! {

// ---------- Refusals ----------

/// Why a command is refused, if it is: those that transmit, beacon, wipe the
/// presets or calibrate are.
pub open spec fn refusal(cmd: Seq<char>) -> Option<Seq<char>> {
    if cmd.len() == 0 {
        None
    } else if cmd[0] == 'B' {
        Some("REFUSED: 'B' keys the transmitter. This tool never transmits."@)
    } else if cmd[0] == '*' && cmd.len() > 1 && cmd[1] == '1' {
        Some(
            "REFUSED: '*1' enables beacon mode (continuous carrier). This tool never transmits."@,
        )
    } else if cmd[0] == 'I' {
        Some(
            "REFUSED: 'I' wipes all presets to defaults. Use the radio's keypad if you really want this."@,
        )
    } else if cmd[0] == 'K' {
        Some(
            "REFUSED: 'K' self-calibration requires a 50Ω load and can damage gear if the load is absent."@,
        )
    } else {
        None
    }
}

pub fn refuse_dangerous_command(cmd: &str) -> (r: Result<(), String>)
    ensures
        match r {
            Ok(_) => refusal(cmd@) is None,
            Err(e) => refusal(cmd@) == Some(e@),
        },
{
    let n: usize = cmd.unicode_len();
    if n == 0 {
        return Ok(());
    }
    let first = cmd.get_char(0);
    if first == 'B' {
        return Err(
            "REFUSED: 'B' keys the transmitter. This tool never transmits.".to_string(),
        );
    }
    if first == '*' && n > 1 && cmd.get_char(1) == '1' {
        return Err(
            "REFUSED: '*1' enables beacon mode (continuous carrier). This tool never transmits.".to_string(),
        );
    }
    if first == 'I' {
        return Err(
            "REFUSED: 'I' wipes all presets to defaults. Use the radio's keypad if you really want this.".to_string(),
        );
    }
    if first == 'K' {
        return Err(
            "REFUSED: 'K' self-calibration requires a 50Ω load and can damage gear if the load is absent.".to_string(),
        );
    }
    Ok(())
}

/// A text that starts with a reserved command is refused, whatever follows.
pub proof fn law_reserved_refused(c: OpCommand, cmd: Seq<char>)
    requires
        reserved(c),
        cmd.len() >= c.wire().len(),
        forall|i: int| 0 <= i < c.wire().len() ==> cmd[i] == #[trigger] c.wire()[i] as char,
    ensures
        refusal(cmd) is Some,
{
    assert(c.wire()[0] == c.prefix());
    if c == OpCommand::Beacon(true) {
        assert(c.wire()[1] == '1' as u8);
    }
}

// ---------- Descriptions ----------

/// Bytes as hex pairs, and as a quoted text.
pub open spec fn hex_ascii_text(bytes: Seq<u8>) -> Seq<char> {
    "["@ + hex_text(bytes) + "] "@ + debug_text(printable(bytes))
}

pub fn hex_ascii(bytes: &[u8]) -> (r: String)
    ensures
        r@ == hex_ascii_text(bytes@),
{
    let mut out = String::new();
    out.append("[");
    append_hex(&mut out, bytes);
    out.append("] ");
    out.append(debug_string(printable_string(bytes).as_str()).as_str());
    out
}

/// A reply in words.
pub open spec fn description(r: Reply) -> Seq<char> {
    let hex = debug_text(hex_text(r.data));
    let ascii = debug_text(utf8_lossy(r.data));
    match r.verdict {
        Verdict::Ack => if r.data.len() == 0 {
            "ACK (bare, 0x06)"@
        } else {
            "ACK (0x06) with data "@ + hex + " -> ascii "@ + ascii
        },
        Verdict::Nak => if r.data.len() == 0 {
            "NAK (bare, 0x15)"@
        } else {
            "NAK (0x15) with preceding bytes "@ + ascii
        },
        Verdict::Ht => if r.data.len() == 0 {
            "HT (bare, 0x09 — first remote command after keypad mode)"@
        } else {
            "HT (0x09) with data "@ + hex + " -> ascii "@ + ascii
                + " — first remote command after keypad mode"@
        },
    }
}

fn quoted_hex(data: &[u8]) -> (r: String)
    ensures
        r@ == debug_text(hex_text(data@)),
{
    let mut hex = String::new();
    append_hex(&mut hex, data);
    assert(hex@ =~= hex_text(data@));
    debug_string(hex.as_str())
}

fn quoted_text(data: &[u8]) -> (r: String)
    ensures
        r@ == debug_text(utf8_lossy(data@)),
{
    debug_string(lossy_string(data).as_str())
}

pub fn describe_response(r: &Response) -> (out: String)
    ensures
        out@ == description(r@),
{
    let mut out = String::new();
    let data = r.data();
    if r.is_ack() {
        if data.len() == 0 {
            out.append("ACK (bare, 0x06)");
        } else {
            out.append("ACK (0x06) with data ");
            out.append(quoted_hex(data).as_str());
            out.append(" -> ascii ");
            out.append(quoted_text(data).as_str());
        }
    } else if r.is_nak() {
        if data.len() == 0 {
            out.append("NAK (bare, 0x15)");
        } else {
            out.append("NAK (0x15) with preceding bytes ");
            out.append(quoted_text(data).as_str());
        }
    } else {
        if data.len() == 0 {
            out.append("HT (bare, 0x09 — first remote command after keypad mode)");
        } else {
            out.append("HT (0x09) with data ");
            out.append(quoted_hex(data).as_str());
            out.append(" -> ascii ");
            out.append(quoted_text(data).as_str());
            out.append(" — first remote command after keypad mode");
        }
    }
    out
}

// ---------- Typed replies ----------

/// A frequency in MHz with four decimals.
pub open spec fn mhz_text(hz: u32) -> Seq<char> {
    let hundreds = hz as int / 100;
    decimal((hz / 1_000_000) as nat) + "."@ + seq![
        digit_char(hundreds / 1_000 % 10),
        digit_char(hundreds / 100 % 10),
        digit_char(hundreds / 10 % 10),
        digit_char(hundreds % 10),
    ]
}

fn append_digit(out: &mut String, d: u32)
    requires
        d < 10,
    ensures
        final(out)@ == old(out)@.push(digit_char(d as int)),
{
    out.push((48 + d as u8) as char);
}

fn append_mhz(out: &mut String, hz: u32)
    ensures
        final(out)@ == old(out)@ + mhz_text(hz),
{
    append_decimal(out, (hz / 1_000_000) as u128);
    out.append(".");
    let hundreds: u32 = hz / 100;
    append_digit(out, hundreds / 1_000 % 10);
    append_digit(out, hundreds / 100 % 10);
    append_digit(out, hundreds / 10 % 10);
    append_digit(out, hundreds % 10);
    assert(out@ =~= old(out)@ + mhz_text(hz));
}

pub open spec fn mod_label(m: ModMode) -> Seq<char> {
    match m {
        ModMode::Am => "Am"@,
        ModMode::Fm => "Fm"@,
    }
}

pub open spec fn power_label(p: PowerLevel) -> Seq<char> {
    match p {
        PowerLevel::Lo => "Lo"@,
        PowerLevel::Med => "Med"@,
        PowerLevel::Hi => "Hi"@,
    }
}

pub open spec fn lamp_label(l: LampLevel) -> Seq<char> {
    match l {
        LampLevel::Off => "Off"@,
        LampLevel::Lo => "Lo"@,
        LampLevel::Med => "Med"@,
        LampLevel::Hi => "Hi"@,
    }
}

pub open spec fn text_label(t: TextMode) -> Seq<char> {
    match t {
        TextMode::Pt => "Pt"@,
        TextMode::Ct => "Ct"@,
    }
}

pub open spec fn mode_label(m: Mode) -> Seq<char> {
    match m {
        Mode::Receive => "Receive"@,
        Mode::Transmit => "Transmit"@,
        Mode::Beacon => "Beacon"@,
    }
}

pub open spec fn squelch_label(s: SquelchStatus) -> Seq<char> {
    match s {
        SquelchStatus::Closed => "Closed"@,
        SquelchStatus::Broken => "Broken"@,
    }
}

fn mod_str(m: ModMode) -> (r: &'static str)
    ensures
        r@ == mod_label(m),
{
    match m {
        ModMode::Am => "Am",
        ModMode::Fm => "Fm",
    }
}

fn power_str(p: PowerLevel) -> (r: &'static str)
    ensures
        r@ == power_label(p),
{
    match p {
        PowerLevel::Lo => "Lo",
        PowerLevel::Med => "Med",
        PowerLevel::Hi => "Hi",
    }
}

fn lamp_str(l: LampLevel) -> (r: &'static str)
    ensures
        r@ == lamp_label(l),
{
    match l {
        LampLevel::Off => "Off",
        LampLevel::Lo => "Lo",
        LampLevel::Med => "Med",
        LampLevel::Hi => "Hi",
    }
}

fn text_str(t: TextMode) -> (r: &'static str)
    ensures
        r@ == text_label(t),
{
    match t {
        TextMode::Pt => "Pt",
        TextMode::Ct => "Ct",
    }
}

fn mode_str(m: Mode) -> (r: &'static str)
    ensures
        r@ == mode_label(m),
{
    match m {
        Mode::Receive => "Receive",
        Mode::Transmit => "Transmit",
        Mode::Beacon => "Beacon",
    }
}

fn squelch_str(s: SquelchStatus) -> (r: &'static str)
    ensures
        r@ == squelch_label(s),
{
    match s {
        SquelchStatus::Closed => "Closed",
        SquelchStatus::Broken => "Broken",
    }
}

pub open spec fn synth_text(locked: bool) -> Seq<char> {
    "SynthLock: locked="@ + bool_text(locked) + " ("@ + (if locked {
        "LOCKED"@
    } else {
        "UNLOCKED"@
    }) + ")"@
}

pub open spec fn preset_text(s: PresetView) -> Seq<char> {
    "PresetSnapshot: preset=P"@ + decimal(s.preset as nat) + ", tx="@ + mhz_text(s.tx_hz)
        + " MHz, rx="@ + mhz_text(s.rx_hz) + " MHz, mod_tx_rx="@ + mod_label(s.mod_tx_rx)
        + ", mod_tx_only="@ + mod_label(s.mod_tx_only) + ", power="@ + power_label(s.power)
        + ", scan_list="@ + bool_text(s.on_scan_list)
}

pub open spec fn general_text(g: GeneralStatus) -> Seq<char> {
    "GeneralStatus: text="@ + text_label(g.text_mode) + ", speaker="@ + bool_text(g.speaker_on)
        + ", lamp="@ + lamp_label(g.lamp) + ", options_byte="@ + decimal(g.options_byte as nat)
        + " (ebn30="@ + bool_text(g.options_byte == 2 || g.options_byte == 6) + ", ebn400="@
        + bool_text(g.options_byte == 4 || g.options_byte == 6) + "), overtemp="@ + bool_text(
        g.overtemp,
    )
}

/// A reply's data in words, by the inquiry that was sent: nothing without
/// data, for other commands, and where the data does not decode.
pub open spec fn typed_text(sent: Seq<u8>, data: Seq<u8>) -> Option<Seq<char>> {
    if data.len() == 0 {
        None
    } else if sent == Inquiry::SynthLock.wire() {
        match SynthLock::decoded(data) {
            Some(x) => Some(synth_text(x.0)),
            None => None,
        }
    } else if sent == Inquiry::Rssi.wire() {
        match Rssi::decoded(data) {
            Some(x) => Some("Rssi: "@ + decimal(x.0 as nat) + "/255"@),
            None => None,
        }
    } else if sent == Inquiry::PresetSnapshot.wire() {
        match PresetSnapshot::decoded(data) {
            Some(s) => Some(preset_text(s)),
            None => None,
        }
    } else if sent == Inquiry::GeneralStatus.wire() {
        match GeneralStatus::decoded(data) {
            Some(g) => Some(general_text(g)),
            None => None,
        }
    } else if sent == Inquiry::Mode.wire() {
        match Mode::decoded(data) {
            Some(m) => Some("Mode: "@ + mode_label(m)),
            None => None,
        }
    } else if sent == Inquiry::SquelchStatus.wire() {
        match SquelchStatus::decoded(data) {
            Some(s) => Some("SquelchStatus: "@ + squelch_label(s)),
            None => None,
        }
    } else {
        None
    }
}

fn describe_synth(x: SynthLock) -> (r: String)
    ensures
        r@ == synth_text(x.0),
{
    let mut out = String::new();
    out.append("SynthLock: locked=");
    append_bool(&mut out, x.0);
    out.append(" (");
    out.append(
        if x.0 {
            "LOCKED"
        } else {
            "UNLOCKED"
        },
    );
    out.append(")");
    out
}

fn describe_rssi(x: Rssi) -> (r: String)
    ensures
        r@ == "Rssi: "@ + decimal(x.0 as nat) + "/255"@,
{
    let mut out = String::new();
    out.append("Rssi: ");
    append_decimal(&mut out, x.0 as u128);
    out.append("/255");
    out
}

fn describe_preset(s: PresetSnapshot) -> (r: String)
    ensures
        r@ == preset_text(s@),
{
    let mut out = String::new();
    out.append("PresetSnapshot: preset=P");
    append_decimal(&mut out, s.preset.get() as u128);
    out.append(", tx=");
    append_mhz(&mut out, s.tx_hz);
    out.append(" MHz, rx=");
    append_mhz(&mut out, s.rx_hz);
    out.append(" MHz, mod_tx_rx=");
    out.append(mod_str(s.mod_tx_rx));
    out.append(", mod_tx_only=");
    out.append(mod_str(s.mod_tx_only));
    out.append(", power=");
    out.append(power_str(s.power));
    out.append(", scan_list=");
    append_bool(&mut out, s.on_scan_list);
    out
}

fn describe_general(g: GeneralStatus) -> (r: String)
    ensures
        r@ == general_text(g),
{
    let mut out = String::new();
    out.append("GeneralStatus: text=");
    out.append(text_str(g.text_mode));
    out.append(", speaker=");
    append_bool(&mut out, g.speaker_on);
    out.append(", lamp=");
    out.append(lamp_str(g.lamp));
    out.append(", options_byte=");
    append_decimal(&mut out, g.options_byte as u128);
    out.append(" (ebn30=");
    append_bool(&mut out, g.has_ebn30());
    out.append(", ebn400=");
    append_bool(&mut out, g.has_ebn400());
    out.append("), overtemp=");
    append_bool(&mut out, g.overtemp);
    out
}

fn describe_mode(m: Mode) -> (r: String)
    ensures
        r@ == "Mode: "@ + mode_label(m),
{
    let mut out = String::new();
    out.append("Mode: ");
    out.append(mode_str(m));
    out
}

fn describe_squelch(s: SquelchStatus) -> (r: String)
    ensures
        r@ == "SquelchStatus: "@ + squelch_label(s),
{
    let mut out = String::new();
    out.append("SquelchStatus: ");
    out.append(squelch_str(s));
    out
}

fn asks(sent: &[u8], inq: Inquiry) -> (r: bool)
    ensures
        r == (sent@ == inq.wire()),
{
    let wire = inq.encode();
    bytes_eq(sent, wire.as_slice())
}

pub fn try_typed_decode(sent_cmd: &[u8], data: &[u8]) -> (r: Option<String>)
    ensures
        match r {
            Some(s) => typed_text(sent_cmd@, data@) == Some(s@),
            None => typed_text(sent_cmd@, data@) is None,
        },
{
    if data.len() == 0 {
        return None;
    }
    if asks(sent_cmd, Inquiry::SynthLock) {
        match SynthLock::from_bytes(data) {
            Some(x) => Some(describe_synth(x)),
            None => None,
        }
    } else if asks(sent_cmd, Inquiry::Rssi) {
        match Rssi::from_bytes(data) {
            Some(x) => Some(describe_rssi(x)),
            None => None,
        }
    } else if asks(sent_cmd, Inquiry::PresetSnapshot) {
        match PresetSnapshot::from_bytes(data) {
            Some(s) => Some(describe_preset(s)),
            None => None,
        }
    } else if asks(sent_cmd, Inquiry::GeneralStatus) {
        match GeneralStatus::from_bytes(data) {
            Some(g) => Some(describe_general(g)),
            None => None,
        }
    } else if asks(sent_cmd, Inquiry::Mode) {
        match Mode::from_bytes(data) {
            Some(m) => Some(describe_mode(m)),
            None => None,
        }
    } else if asks(sent_cmd, Inquiry::SquelchStatus) {
        match SquelchStatus::from_bytes(data) {
            Some(s) => Some(describe_squelch(s)),
            None => None,
        }
    } else {
        None
    }
}

// ---------- A session ----------

/// What is said of one reply: the reply, and its data in words where they have
/// a meaning.
pub open spec fn reply_lines(sent: Seq<u8>, r: Reply) -> Seq<Seq<char>> {
    let head = seq!["   ** Response: "@ + description(r)];
    match typed_text(sent, r.data) {
        Some(words) => head.push("   ** Decoded : "@ + words),
        None => head,
    }
}

/// What is said of a list of replies.
pub open spec fn replies_lines(sent: Seq<u8>, rs: Seq<Reply>) -> Seq<Seq<char>>
    decreases rs.len(),
{
    if rs.len() == 0 {
        seq![]
    } else {
        replies_lines(sent, rs.drop_last()) + reply_lines(sent, rs.last())
    }
}

/// What is said of one read: when it came, how much, and what.
pub open spec fn chunk_line(elapsed_ms: nat, chunk: Seq<u8>) -> Seq<char> {
    "<- RX  t="@ + decimal4(elapsed_ms) + " ms  +"@ + decimal(chunk.len()) + " bytes:  "@
        + hex_ascii_text(chunk)
}

/// What is said before the command goes out.
pub open spec fn intro_lines(port: Seq<char>, cmd: Seq<char>, wait_secs: u64) -> Seq<Seq<char>> {
    seq![
        "Port:    "@ + port,
        "Command: "@ + debug_text(cmd) + " ("@ + decimal(encode_utf8(cmd).len()) + " bytes: "@
            + hex_ascii_text(encode_utf8(cmd)) + ")"@,
        "Waiting "@ + decimal(wait_secs as nat) + " s for response...\n"@,
    ]
}

/// What is said at the end, of everything that was received.
pub open spec fn summary_lines(raw: Seq<u8>, overflow: bool) -> Seq<Seq<char>> {
    let head = seq![
        "\n========== SUMMARY =========="@,
        "Total bytes received: "@ + decimal(raw.len()),
    ];
    let body = if raw.len() == 0 {
        head.push(
            "  (nothing — check cable, radio power, red/white orientation, port path)"@,
        )
    } else {
        head.push("  hex:   "@ + hex_text(raw)).push("  ascii: "@ + debug_text(utf8_lossy(raw)))
    };
    if overflow {
        body.push(
            "WARNING: parser overflow — stream did not contain an ACK/NAK/HT within 256 bytes."@,
        )
    } else {
        body
    }
}

/// One command on its way to the radio, and what has come back so far.
pub struct Probe {
    cmd: String,
    parser: ResponseParser,
    raw: Vec<u8>,
}

/// What a [`Probe`] stands for.
pub struct ProbeView {
    pub cmd: Seq<char>,
    /// The reply that is being read.
    pub parser: ParserView,
    /// All bytes received.
    pub raw: Seq<u8>,
}

impl View for Probe {
    type V = ProbeView;

    closed spec fn view(&self) -> ProbeView {
        ProbeView { cmd: self.cmd@, parser: self.parser@, raw: self.raw@ }
    }
}

fn say_reply(sent: &[u8], r: &Response, lines: &mut Vec<String>)
    ensures
        views(final(lines)@) == views(old(lines)@) + reply_lines(sent@, r@),
{
    let mut line = String::new();
    line.append("   ** Response: ");
    line.append(describe_response(r).as_str());
    assert(line@ =~= "   ** Response: "@ + description(r@));
    lines.push(line);
    if let Some(words) = try_typed_decode(sent, r.data()) {
        let mut line = String::new();
        line.append("   ** Decoded : ");
        line.append(words.as_str());
        assert(line@ =~= "   ** Decoded : "@ + words@);
        lines.push(line);
    }
    assert(views(lines@) =~= views(old(lines)@) + reply_lines(sent@, r@));
}

impl Probe {
    /// A session for one command, unless the command is refused.
    pub fn start(cmd: String) -> (r: Result<Probe, String>)
        ensures
            match r {
                Ok(p) => {
                    &&& refusal(cmd@) is None
                    &&& p@.cmd == cmd@
                    &&& p@.parser == (ParserView { pending: seq![], overflow: false })
                    &&& p@.raw == Seq::<u8>::empty()
                },
                Err(e) => refusal(cmd@) == Some(e@),
            },
    {
        match refuse_dangerous_command(cmd.as_str()) {
            Ok(_) => Ok(Probe { cmd, parser: ResponseParser::new(), raw: Vec::new() }),
            Err(e) => Err(e),
        }
    }

    /// The bytes to be written.
    pub fn bytes(&self) -> (r: &[u8])
        ensures
            r@ == encode_utf8(self@.cmd),
    {
        self.cmd.as_str().as_bytes()
    }

    /// The lines to be shown before the command goes out.
    pub fn intro(&self, port: &str, wait_secs: u64) -> (r: Vec<String>)
        ensures
            views(r@) == intro_lines(port@, self@.cmd, wait_secs),
    {
        let mut first = String::new();
        first.append("Port:    ");
        first.append(port);
        let mut second = String::new();
        second.append("Command: ");
        second.append(debug_string(self.cmd.as_str()).as_str());
        second.append(" (");
        append_decimal(&mut second, self.bytes().len() as u128);
        second.append(" bytes: ");
        second.append(hex_ascii(self.bytes()).as_str());
        second.append(")");
        let mut third = String::new();
        third.append("Waiting ");
        append_decimal(&mut third, wait_secs as u128);
        third.append(" s for response...\n");
        let ghost lines = intro_lines(port@, self@.cmd, wait_secs);
        assert(first@ =~= lines[0]);
        assert(second@ =~= lines[1]);
        assert(third@ =~= lines[2]);
        let mut out: Vec<String> = Vec::new();
        out.push(first);
        out.push(second);
        out.push(third);
        assert(views(out@) =~= lines);
        out
    }

    /// A chunk was read. The lines to be shown: the chunk, then each reply that
    /// it completes.
    pub fn received(&mut self, elapsed_ms: u128, chunk: &[u8]) -> (r: Vec<String>)
        ensures
            final(self)@.cmd == old(self)@.cmd,
            final(self)@.raw == old(self)@.raw + chunk@,
            final(self)@.parser == parser_state(old(self)@.parser, chunk@),
            views(r@) == seq![chunk_line(elapsed_ms as nat, chunk@)] + replies_lines(
                encode_utf8(old(self)@.cmd),
                parser_replies(old(self)@.parser, chunk@),
            ),
    {
        let ghost sent = encode_utf8(self@.cmd);
        let ghost start = self@.parser;
        let mut line = String::new();
        line.append("<- RX  t=");
        append_decimal4(&mut line, elapsed_ms);
        line.append(" ms  +");
        append_decimal(&mut line, chunk.len() as u128);
        line.append(" bytes:  ");
        line.append(hex_ascii(chunk).as_str());
        let ghost head = seq![chunk_line(elapsed_ms as nat, chunk@)];
        assert(line@ =~= head[0]);
        let mut out: Vec<String> = Vec::new();
        out.push(line);
        assert(views(out@) =~= head);
        assert(head + replies_lines(sent, parser_replies(start, chunk@.take(0))) =~= head);
        assert(self.raw@ =~= old(self)@.raw + chunk@.take(0));
        let mut i: usize = 0;
        while i < chunk.len()
            invariant
                i <= chunk@.len(),
                sent == encode_utf8(old(self)@.cmd),
                start == old(self)@.parser,
                self.cmd@ == old(self)@.cmd,
                self.raw@ == old(self)@.raw + chunk@.take(i as int),
                self.parser@ == parser_state(start, chunk@.take(i as int)),
                views(out@) == head + replies_lines(
                    sent,
                    parser_replies(start, chunk@.take(i as int)),
                ),
            decreases chunk.len() - i,
        {
            let ghost before = parser_replies(start, chunk@.take(i as int));
            proof {
                assert(chunk@.take(i + 1).drop_last() =~= chunk@.take(i as int));
                assert(chunk@.take(i + 1).last() == chunk@[i as int]);
                assert(chunk@.take(i as int).push(chunk@[i as int]) =~= chunk@.take(i + 1));
            }
            self.raw.push(chunk[i]);
            assert(self.raw@ =~= old(self)@.raw + chunk@.take(i + 1));
            if let Some(resp) = self.parser.feed(chunk[i]) {
                say_reply(self.cmd.as_str().as_bytes(), &resp, &mut out);
                proof {
                    let after = parser_replies(start, chunk@.take(i + 1));
                    assert(after =~= before.push(resp@));
                    assert(after.drop_last() =~= before);
                    assert(after.last() == resp@);
                    assert(views(out@) =~= head + replies_lines(sent, after));
                }
            }
            i = i + 1;
        }
        assert(chunk@.take(i as int) =~= chunk@);
        out
    }

    /// The lines to be shown at the end.
    pub fn summary(&self) -> (r: Vec<String>)
        ensures
            views(r@) == summary_lines(self@.raw, self@.parser.overflow),
    {
        let raw = self.raw.as_slice();
        let ghost lines = summary_lines(self@.raw, self@.parser.overflow);
        let mut out: Vec<String> = Vec::new();
        out.push("\n========== SUMMARY ==========".to_string());
        let mut total = String::new();
        total.append("Total bytes received: ");
        append_decimal(&mut total, raw.len() as u128);
        assert(total@ =~= lines[1]);
        out.push(total);
        if raw.len() == 0 {
            out.push(
                "  (nothing — check cable, radio power, red/white orientation, port path)".to_string(),
            );
        } else {
            let mut hex = String::new();
            hex.append("  hex:   ");
            append_hex(&mut hex, raw);
            assert(hex@ =~= lines[2]);
            out.push(hex);
            let mut ascii = String::new();
            ascii.append("  ascii: ");
            ascii.append(quoted_text(raw).as_str());
            assert(ascii@ =~= lines[3]);
            out.push(ascii);
        }
        if self.parser.overflowed() {
            out.push(
                "WARNING: parser overflow — stream did not contain an ACK/NAK/HT within 256 bytes.".to_string(),
            );
        }
        assert(views(out@) =~= lines);
        out
    }
}

/// Only what is dangerous is refused: a text is sent on unless it begins with
/// `B`, `I`, `K` or `*1`.
pub proof fn law_harmless_sent(cmd: Seq<char>)
    ensures
        refusal(cmd) is Some <==> cmd.len() > 0 && (cmd[0] == 'B' || cmd[0] == 'I' || cmd[0] == 'K'
            || cmd.len() > 1 && cmd[0] == '*' && cmd[1] == '1'),
{
}

/// A frequency in MHz is its whole MHz, a point, and four digits, which denote
/// the hundreds of Hz behind the whole MHz.
pub proof fn law_mhz(hz: u32)
    ensures
        ({
            let whole = decimal((hz / 1_000_000) as nat);
            let t = mhz_text(hz);
            let digit = |i: int| t[whole.len() + 1 + i] as int - '0' as int;
            &&& t.len() == whole.len() + 5
            &&& t.take(whole.len() as int) == whole
            &&& t[whole.len() as int] == '.'
            &&& 1000 * digit(0) + 100 * digit(1) + 10 * digit(2) + digit(3) == hz % 1_000_000 / 100
        }),
{
    reveal_strlit(".");
    let whole = decimal((hz / 1_000_000) as nat);
    let t = mhz_text(hz);
    let h = hz as int / 100;
    assert(t.take(whole.len() as int) =~= whole);
    let n = whole.len() as int;
    assert(t[n + 1] == digit_char(h / 1_000 % 10));
    assert(t[n + 2] == digit_char(h / 100 % 10));
    assert(t[n + 3] == digit_char(h / 10 % 10));
    assert(t[n + 4] == digit_char(h % 10));
    lemma_four_digits(h);
    assert(h % 10_000 == hz as int % 1_000_000 / 100);
}

proof fn lemma_four_digits(h: int)
    requires
        0 <= h,
    ensures
        1000 * (h / 1_000 % 10) + 100 * (h / 100 % 10) + 10 * (h / 10 % 10) + h % 10 == h % 10_000,
{
    let a = h / 10;
    let b = a / 10;
    let c = b / 10;
    let d = c / 10;
    assert(b == h / 100);
    assert(c == h / 1_000);
    assert(d == h / 10_000);
    assert(h == 10 * a + h % 10);
    assert(a == 10 * b + a % 10);
    assert(b == 10 * c + b % 10);
    assert(c == 10 * d + c % 10);
    assert(h == 10_000 * d + h % 10_000);
}

/// The data of a reply is put into words by the inquiry that was sent, and in no
/// other way: nothing without data, nothing for other commands, nothing where
/// the data does not decode, and otherwise the values that it decodes to.
pub proof fn law_words_fit_inquiry(k: Inquiry, data: Seq<u8>)
    ensures
        data.len() == 0 ==> typed_text(k.wire(), data) is None,
        data.len() > 0 ==> match k {
            Inquiry::SynthLock => typed_text(k.wire(), data) is Some <==> SynthLock::decoded(data)
                is Some,
            Inquiry::Rssi => typed_text(k.wire(), data) == match Rssi::decoded(data) {
                Some(x) => Some("Rssi: "@ + decimal(x.0 as nat) + "/255"@),
                None => None,
            },
            Inquiry::PresetSnapshot => typed_text(k.wire(), data) == match PresetSnapshot::decoded(
                data,
            ) {
                Some(s) => Some(preset_text(s)),
                None => None,
            },
            Inquiry::GeneralStatus => typed_text(k.wire(), data) == match GeneralStatus::decoded(
                data,
            ) {
                Some(g) => Some(general_text(g)),
                None => None,
            },
            Inquiry::Mode => typed_text(k.wire(), data) == match Mode::decoded(data) {
                Some(Mode::Receive) => Some("Mode: "@ + "Receive"@),
                Some(Mode::Transmit) => Some("Mode: "@ + "Transmit"@),
                Some(Mode::Beacon) => Some("Mode: "@ + "Beacon"@),
                None => None,
            },
            Inquiry::SquelchStatus => typed_text(k.wire(), data) == match SquelchStatus::decoded(
                data,
            ) {
                Some(SquelchStatus::Broken) => Some("SquelchStatus: "@ + "Broken"@),
                Some(SquelchStatus::Closed) => Some("SquelchStatus: "@ + "Closed"@),
                None => None,
            },
            _ => typed_text(k.wire(), data) is None,
        },
{
    law_inquiries_distinct(k, Inquiry::SynthLock);
    law_inquiries_distinct(k, Inquiry::Rssi);
    law_inquiries_distinct(k, Inquiry::PresetSnapshot);
    law_inquiries_distinct(k, Inquiry::GeneralStatus);
    law_inquiries_distinct(k, Inquiry::Mode);
    law_inquiries_distinct(k, Inquiry::SquelchStatus);
}

/// A reply is described by its verdict, with its data where it has some.
pub proof fn law_description(r: Reply)
    ensures
        ({
            let d = description(r);
            let named = |word: Seq<char>| d.len() > word.len() && d.take(word.len() as int) == word;
            &&& r.verdict is Ack ==> named("ACK "@)
            &&& r.verdict is Nak ==> named("NAK "@)
            &&& r.verdict is Ht ==> named("HT "@)
            &&& r.verdict is Ack && r.data.len() > 0 ==> d == "ACK (0x06) with data "@ + debug_text(
                hex_text(r.data),
            ) + " -> ascii "@ + debug_text(utf8_lossy(r.data))
        }),
{
    reveal_strlit("ACK ");
    reveal_strlit("NAK ");
    reveal_strlit("HT ");
    reveal_strlit("ACK (bare, 0x06)");
    reveal_strlit("NAK (bare, 0x15)");
    reveal_strlit("HT (bare, 0x09 — first remote command after keypad mode)");
    reveal_strlit("ACK (0x06) with data ");
    reveal_strlit("NAK (0x15) with preceding bytes ");
    reveal_strlit("HT (0x09) with data ");
    let d = description(r);
    assert(r.verdict is Ack ==> d.take(4) =~= "ACK "@);
    assert(r.verdict is Nak ==> d.take(4) =~= "NAK "@);
    assert(r.verdict is Ht ==> d.take(3) =~= "HT "@);
}

/// What is said of replies follows their order, one after the other; each is
/// described, and put into words where its data has a meaning.
pub proof fn law_replies_told_in_order(sent: Seq<u8>, rs: Seq<Reply>, r: Reply)
    ensures
        replies_lines(sent, Seq::<Reply>::empty()) == Seq::<Seq<char>>::empty(),
        replies_lines(sent, rs.push(r)) == replies_lines(sent, rs) + reply_lines(sent, r),
        reply_lines(sent, r)[0] == "   ** Response: "@ + description(r),
        typed_text(sent, r.data) is None ==> reply_lines(sent, r).len() == 1,
        typed_text(sent, r.data) matches Some(words) ==> reply_lines(sent, r).len() == 2
            && reply_lines(sent, r)[1] == "   ** Decoded : "@ + words,
{
    assert(rs.push(r).drop_last() =~= rs);
}

/// What is said of a preset names its own number and frequencies, transmit for
/// transmit and receive for receive.
pub proof fn law_preset_words(s: PresetView)
    ensures
        has_part(preset_text(s), "preset=P"@ + decimal(s.preset as nat) + ", tx="@),
        has_part(preset_text(s), ", tx="@ + mhz_text(s.tx_hz) + " MHz, rx="@),
        has_part(preset_text(s), " MHz, rx="@ + mhz_text(s.rx_hz) + " MHz, mod_tx_rx="@),
{
    reveal_strlit("PresetSnapshot: preset=P");
    reveal_strlit("preset=P");
    let t = preset_text(s);
    let a = "PresetSnapshot: preset=P"@;
    let n = decimal(s.preset as nat);
    let p = "preset=P"@ + n + ", tx="@;
    assert(t.subrange(16, (16 + p.len()) as int) =~= p);
    let q = ", tx="@ + mhz_text(s.tx_hz) + " MHz, rx="@;
    let i = (a.len() + n.len()) as int;
    assert(t.subrange(i, i + q.len()) =~= q);
    let u = " MHz, rx="@ + mhz_text(s.rx_hz) + " MHz, mod_tx_rx="@;
    let j = i + ", tx="@.len() + mhz_text(s.tx_hz).len();
    assert(t.subrange(j, j + u.len()) =~= u);
}

/// At the end everything that was received is shown, and an overflow is said.
pub proof fn law_summary_lines(raw: Seq<u8>, overflow: bool)
    ensures
        ({
            let lines = summary_lines(raw, overflow);
            &&& lines[1] == "Total bytes received: "@ + decimal(raw.len())
            &&& raw.len() > 0 ==> lines[2] == "  hex:   "@ + hex_text(raw) && lines[3]
                == "  ascii: "@ + debug_text(utf8_lossy(raw))
            &&& lines.len() == 3 + (if raw.len() > 0 {
                1int
            } else {
                0
            }) + (if overflow {
                1int
            } else {
                0
            })
        }),
{
}

/// The words for levels and modes.
pub proof fn law_labels()
    ensures
        power_label(PowerLevel::Lo) == "Lo"@,
        power_label(PowerLevel::Med) == "Med"@,
        power_label(PowerLevel::Hi) == "Hi"@,
        lamp_label(LampLevel::Off) == "Off"@,
        lamp_label(LampLevel::Lo) == "Lo"@,
        lamp_label(LampLevel::Med) == "Med"@,
        lamp_label(LampLevel::Hi) == "Hi"@,
        text_label(TextMode::Pt) == "Pt"@,
        text_label(TextMode::Ct) == "Ct"@,
        mode_label(Mode::Receive) == "Receive"@,
        mode_label(Mode::Transmit) == "Transmit"@,
        mode_label(Mode::Beacon) == "Beacon"@,
        squelch_label(SquelchStatus::Closed) == "Closed"@,
        squelch_label(SquelchStatus::Broken) == "Broken"@,
        mod_label(ModMode::Am) == "Am"@,
        mod_label(ModMode::Fm) == "Fm"@,
{
}

/// The synthesizer is said to be locked exactly when it is.
pub proof fn law_lock_words(locked: bool)
    ensures
        locked ==> synth_text(locked) == "SynthLock: locked="@ + "true"@ + " ("@ + "LOCKED"@ + ")"@,
        !locked ==> synth_text(locked) == "SynthLock: locked="@ + "false"@ + " ("@ + "UNLOCKED"@
            + ")"@,
{
}

/// What is said of the general status names each of its fields with its own
/// value; the options byte is 2 with the first option, 4 with the second and 6
/// with both.
pub proof fn law_general_words(g: GeneralStatus)
    ensures
        ({
            let t = general_text(g);
            let words = |b: bool|
                if b {
                    "true"@
                } else {
                    "false"@
                };
            let first = g.options_byte == 2 || g.options_byte == 6;
            let second = g.options_byte == 4 || g.options_byte == 6;
            let head = "GeneralStatus: text="@ + text_label(g.text_mode) + ", speaker="@ + words(
                g.speaker_on,
            ) + ", lamp="@ + lamp_label(g.lamp);
            let options = ", options_byte="@ + decimal(g.options_byte as nat) + " (ebn30="@ + words(
                first,
            ) + ", ebn400="@ + words(second) + ")"@;
            let tail = ", overtemp="@ + words(g.overtemp);
            t == head + options + tail
        }),
{
    reveal_strlit("), overtemp=");
    reveal_strlit(")");
    reveal_strlit(", overtemp=");
    assert("), overtemp="@ =~= ")"@ + ", overtemp="@);
    let words = |b: bool|
        if b {
            "true"@
        } else {
            "false"@
        };
    let first = g.options_byte == 2 || g.options_byte == 6;
    let second = g.options_byte == 4 || g.options_byte == 6;
    let head = "GeneralStatus: text="@ + text_label(g.text_mode) + ", speaker="@ + words(
        g.speaker_on,
    ) + ", lamp="@ + lamp_label(g.lamp);
    let options = ", options_byte="@ + decimal(g.options_byte as nat) + " (ebn30="@ + words(first)
        + ", ebn400="@ + words(second) + ")"@;
    let tail = ", overtemp="@ + words(g.overtemp);
    assert(general_text(g) =~= head + options + tail);
}

/// Of every read it is said when it came, how many bytes it brought, and which.
/// Before that the port, the command with the bytes that go out, and the time
/// to wait are named, in this order.
pub proof fn law_course_told(
    elapsed_ms: nat,
    chunk: Seq<u8>,
    port: Seq<char>,
    cmd: Seq<char>,
    wait_secs: u64,
)
    ensures
        hex_ascii_text(chunk) == "["@ + (hex_text(chunk) + ("] "@ + debug_text(printable(chunk)))),
        chunk_line(elapsed_ms, chunk) == "<- RX  t="@ + (decimal4(elapsed_ms) + (" ms  +"@ + (
        decimal(chunk.len()) + (" bytes:  "@ + hex_ascii_text(chunk))))),
        ({
            let lines = intro_lines(port, cmd, wait_secs);
            let sent = encode_utf8(cmd);
            &&& lines.len() == 3
            &&& lines[0] == "Port:    "@ + port
            &&& lines[1] == "Command: "@ + (debug_text(cmd) + (" ("@ + (decimal(sent.len()) + (
            " bytes: "@ + (hex_ascii_text(sent) + ")"@)))))
            &&& lines[2] == "Waiting "@ + (decimal(wait_secs as nat) + " s for response...\n"@)
        }),
{
    let sent = encode_utf8(cmd);
    assert(intro_lines(port, cmd, wait_secs)[1] =~= "Command: "@ + (debug_text(cmd) + (" ("@ + (
    decimal(sent.len()) + (" bytes: "@ + (hex_ascii_text(sent) + ")"@))))));
    assert(intro_lines(port, cmd, wait_secs)[2] =~= "Waiting "@ + (decimal(wait_secs as nat)
        + " s for response...\n"@));
}

/// What is said of a preset, from its number on to the scan list.
pub proof fn law_preset_told(s: PresetView)
    ensures
        ({
            let scanned = if s.on_scan_list {
                "true"@
            } else {
                "false"@
            };
            let tuned = "PresetSnapshot: preset=P"@ + decimal(s.preset as nat) + ", tx="@
                + mhz_text(s.tx_hz) + " MHz, rx="@ + mhz_text(s.rx_hz) + " MHz"@;
            let set = ", mod_tx_rx="@ + mod_label(s.mod_tx_rx) + ", mod_tx_only="@ + mod_label(
                s.mod_tx_only,
            ) + ", power="@ + power_label(s.power) + ", scan_list="@ + scanned;
            preset_text(s) == tuned + set
        }),
{
    reveal_strlit(" MHz, mod_tx_rx=");
    reveal_strlit(" MHz");
    reveal_strlit(", mod_tx_rx=");
    assert(" MHz, mod_tx_rx="@ =~= " MHz"@ + ", mod_tx_rx="@);
    let tuned = "PresetSnapshot: preset=P"@ + decimal(s.preset as nat) + ", tx="@ + mhz_text(
        s.tx_hz,
    ) + " MHz, rx="@ + mhz_text(s.rx_hz) + " MHz"@;
    let set = ", mod_tx_rx="@ + mod_label(s.mod_tx_rx) + ", mod_tx_only="@ + mod_label(
        s.mod_tx_only,
    ) + ", power="@ + power_label(s.power) + ", scan_list="@ + bool_text(s.on_scan_list);
    assert(preset_text(s) =~= tuned + set);
}

} // verus!
