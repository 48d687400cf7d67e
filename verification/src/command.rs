//! Remote-operation commands.
//!
//! Every variant of [`OpCommand`] encodes to a byte sequence that the radio
//! accepts over RS-232. No terminator is sent: the radio parses greedily by
//! command prefix and fixed-width argument.
use vstd::prelude::*;
use crate::freq::{ascii_digit, digits_value, law_wire_tells_khz, lemma_six_digits, all_digits, Freq};

verus! {

/// Preset channel index 0-9 (P0-P9).
#[derive(Debug, Clone, Copy, PartialEq, Eq, Structural)]
pub struct PresetId(u8);

impl PresetId {
    #[verifier::type_invariant]
    pub closed spec fn valid(self) -> bool {
        self.0 <= 9
    }

    /// The preset's number.
    pub closed spec fn number(self) -> u8 {
        self.0
    }

    pub fn new(n: u8) -> (r: Option<PresetId>)
        ensures
            r is Some <==> n <= 9,
            r is Some ==> r->0.number() == n,
    {
        if n <= 9 {
            Some(PresetId(n))
        } else {
            None
        }
    }

    pub fn get(self) -> (r: u8)
        ensures
            r == self.number(),
            r <= 9,
    {
        proof {
            use_type_invariant(self);
        }
        self.0
    }
}

#[derive(Debug, Clone, Copy, PartialEq, Eq, Structural)]
pub enum LampLevel {
    Off,
    Lo,
    Med,
    Hi,
}

impl LampLevel {
    pub open spec fn code(self) -> u8 {
        match self {
            LampLevel::Off => '0' as u8,
            LampLevel::Lo => '1' as u8,
            LampLevel::Med => '2' as u8,
            LampLevel::Hi => '3' as u8,
        }
    }

    fn digit(self) -> (r: u8)
        ensures
            r == self.code(),
    {
        match self {
            LampLevel::Off => '0' as u8,
            LampLevel::Lo => '1' as u8,
            LampLevel::Med => '2' as u8,
            LampLevel::Hi => '3' as u8,
        }
    }
}

#[derive(Debug, Clone, Copy, PartialEq, Eq, Structural)]
pub enum ModMode {
    Am,
    Fm,
}

impl ModMode {
    pub open spec fn code(self) -> u8 {
        match self {
            ModMode::Am => '0' as u8,
            ModMode::Fm => '1' as u8,
        }
    }

    fn digit(self) -> (r: u8)
        ensures
            r == self.code(),
    {
        match self {
            ModMode::Am => '0' as u8,
            ModMode::Fm => '1' as u8,
        }
    }
}

#[derive(Debug, Clone, Copy, PartialEq, Eq, Structural)]
pub enum TextMode {
    /// Plain Text (voice).
    Pt,
    /// Cipher Text (data).
    Ct,
}

impl TextMode {
    pub open spec fn code(self) -> u8 {
        match self {
            TextMode::Pt => '0' as u8,
            TextMode::Ct => '1' as u8,
        }
    }

    fn digit(self) -> (r: u8)
        ensures
            r == self.code(),
    {
        match self {
            TextMode::Pt => '0' as u8,
            TextMode::Ct => '1' as u8,
        }
    }
}

#[derive(Debug, Clone, Copy, PartialEq, Eq, Structural)]
pub enum PowerLevel {
    Lo,
    Med,
    Hi,
}

impl PowerLevel {
    pub open spec fn code(self) -> u8 {
        match self {
            PowerLevel::Lo => '0' as u8,
            PowerLevel::Med => '1' as u8,
            PowerLevel::Hi => '2' as u8,
        }
    }

    fn digit(self) -> (r: u8)
        ensures
            r == self.code(),
    {
        match self {
            PowerLevel::Lo => '0' as u8,
            PowerLevel::Med => '1' as u8,
            PowerLevel::Hi => '2' as u8,
        }
    }
}

/// 150 Hz tone-squelch modes (EBN-30 / LVHF option only).
#[derive(Debug, Clone, Copy, PartialEq, Eq, Structural)]
pub enum ToneSquelch {
    Off,
    RxOnly,
    TxOnly,
    Both,
}

impl ToneSquelch {
    pub open spec fn code(self) -> u8 {
        match self {
            ToneSquelch::Off => '0' as u8,
            ToneSquelch::RxOnly => '1' as u8,
            ToneSquelch::TxOnly => '2' as u8,
            ToneSquelch::Both => '3' as u8,
        }
    }

    fn digit(self) -> (r: u8)
        ensures
            r == self.code(),
    {
        match self {
            ToneSquelch::Off => '0' as u8,
            ToneSquelch::RxOnly => '1' as u8,
            ToneSquelch::TxOnly => '2' as u8,
            ToneSquelch::Both => '3' as u8,
        }
    }
}

/// Every remote-operation command.
#[derive(Debug, Clone, Copy, PartialEq, Eq, Structural)]
pub enum OpCommand {
    /// `Z` — resync after NAK/timeout.
    Zap,
    /// `$xxx` — remote squelch 0-255 (overrides front-panel knob).
    Squelch(u8),
    /// `I` — initialize all channels to defaults.
    ChannelInit,
    /// `L0..L3` — backlight Off / Lo / Med / Hi.
    Lamp(LampLevel),
    /// `J0`/`J1` — internal speaker Off/On.
    Speaker(bool),
    /// `K` — self-calibration (requires 50Ω load on antenna port).
    Calibrate,
    /// `P0..P9` — select preset channel.
    Preset(PresetId),
    /// `Rxxxxxx` — set receive frequency on current preset.
    SetRx(Freq),
    /// `Txxxxxx` — set transmit frequency on current preset.
    SetTx(Freq),
    /// `M0`/`M1` — modulation mode for both TX and RX (AM/FM).
    ModTxRx(ModMode),
    /// `N0`/`N1` — modulation mode for TX only.
    ModTxOnly(ModMode),
    /// `X0`/`X1` — Plain Text / Cipher Text.
    Text(TextMode),
    /// `Q` — store current settings to EEPROM for the current preset.
    StorePreset,
    /// `C0`/`C1` — current preset is off/on the scan list.
    ScanListMember(bool),
    /// `#0..#2` — transmitter power (Lo / Med / Hi).
    Power(PowerLevel),
    /// `S0`/`S1` — scan mode off/on. NAK'd if fewer than 2 channels on scan list.
    Scan(bool),
    /// `*0`/`*1` — beacon mode off/on.
    Beacon(bool),
    /// `+` — re-enable the physical keypad while in remote mode.
    ReleaseKeypad,
    /// `B` — key the transmitter.
    Transmit,
    /// `E` — return to receive.
    Receive,
    /// `>0..>3` — 150 Hz tone squelch (LVHF option only).
    ToneSquelch(ToneSquelch),
}

/// The ASCII digit of a flag.
pub open spec fn flag(on: bool) -> u8 {
    if on {
        '1' as u8
    } else {
        '0' as u8
    }
}

/// Three decimal digits, zero-padded.
pub open spec fn three_digits(n: u8) -> Seq<u8> {
    seq![
        ascii_digit(n as int / 100),
        ascii_digit(n as int / 10 % 10),
        ascii_digit(n as int % 10),
    ]
}

impl OpCommand {
    /// The preset is one of P0-P9 and the frequency is tunable.
    pub open spec fn valid(self) -> bool {
        match self {
            OpCommand::Preset(p) => p.number() <= 9,
            OpCommand::SetRx(f) => f@.tunable(),
            OpCommand::SetTx(f) => f@.tunable(),
            _ => true,
        }
    }

    /// The command's prefix character.
    pub open spec fn prefix(self) -> u8 {
        match self {
            OpCommand::Zap => 'Z' as u8,
            OpCommand::Squelch(_) => '$' as u8,
            OpCommand::ChannelInit => 'I' as u8,
            OpCommand::Lamp(_) => 'L' as u8,
            OpCommand::Speaker(_) => 'J' as u8,
            OpCommand::Calibrate => 'K' as u8,
            OpCommand::Preset(_) => 'P' as u8,
            OpCommand::SetRx(_) => 'R' as u8,
            OpCommand::SetTx(_) => 'T' as u8,
            OpCommand::ModTxRx(_) => 'M' as u8,
            OpCommand::ModTxOnly(_) => 'N' as u8,
            OpCommand::Text(_) => 'X' as u8,
            OpCommand::StorePreset => 'Q' as u8,
            OpCommand::ScanListMember(_) => 'C' as u8,
            OpCommand::Power(_) => '#' as u8,
            OpCommand::Scan(_) => 'S' as u8,
            OpCommand::Beacon(_) => '*' as u8,
            OpCommand::ReleaseKeypad => '+' as u8,
            OpCommand::Transmit => 'B' as u8,
            OpCommand::Receive => 'E' as u8,
            OpCommand::ToneSquelch(_) => '>' as u8,
        }
    }

    /// The command's argument characters.
    pub open spec fn argument(self) -> Seq<u8> {
        match self {
            OpCommand::Squelch(n) => three_digits(n),
            OpCommand::Lamp(l) => seq![l.code()],
            OpCommand::Speaker(on) => seq![flag(on)],
            OpCommand::Preset(p) => seq![ascii_digit(p.number() as int)],
            OpCommand::SetRx(f) => f.wire(),
            OpCommand::SetTx(f) => f.wire(),
            OpCommand::ModTxRx(m) => seq![m.code()],
            OpCommand::ModTxOnly(m) => seq![m.code()],
            OpCommand::Text(t) => seq![t.code()],
            OpCommand::ScanListMember(on) => seq![flag(on)],
            OpCommand::Power(p) => seq![p.code()],
            OpCommand::Scan(on) => seq![flag(on)],
            OpCommand::Beacon(on) => seq![flag(on)],
            OpCommand::ToneSquelch(t) => seq![t.code()],
            _ => seq![],
        }
    }

    /// The bytes that put the command on the wire.
    pub open spec fn wire(self) -> Seq<u8> {
        seq![self.prefix()] + self.argument()
    }

    /// Equal but for what the wire form of a frequency drops: the fraction of
    /// a kHz and the step.
    pub open spec fn same_request(self, other: OpCommand) -> bool {
        match (self, other) {
            (OpCommand::SetRx(f), OpCommand::SetRx(g)) => f@.hz / 1000 == g@.hz / 1000,
            (OpCommand::SetTx(f), OpCommand::SetTx(g)) => f@.hz / 1000 == g@.hz / 1000,
            _ => self == other,
        }
    }

    pub fn encode(&self) -> (r: Vec<u8>)
        ensures
            r@ == self.wire(),
    {
        let mut out: Vec<u8> = Vec::with_capacity(10);
        self.encode_into(&mut out);
        out
    }

    pub fn encode_into(&self, out: &mut Vec<u8>)
        ensures
            final(out)@ == old(out)@ + self.wire(),
    {
        match *self {
            OpCommand::Zap => out.push('Z' as u8),
            OpCommand::Squelch(n) => {
                out.push('$' as u8);
                push_3digit(out, n);
            },
            OpCommand::ChannelInit => out.push('I' as u8),
            OpCommand::Lamp(l) => {
                out.push('L' as u8);
                out.push(l.digit());
            },
            OpCommand::Speaker(on) => {
                out.push('J' as u8);
                out.push(flag_digit(on));
            },
            OpCommand::Calibrate => out.push('K' as u8),
            OpCommand::Preset(p) => {
                out.push('P' as u8);
                out.push(48 + p.get());
            },
            OpCommand::SetRx(f) => {
                out.push('R' as u8);
                out.extend_from_slice(f.encode().as_slice());
            },
            OpCommand::SetTx(f) => {
                out.push('T' as u8);
                out.extend_from_slice(f.encode().as_slice());
            },
            OpCommand::ModTxRx(m) => {
                out.push('M' as u8);
                out.push(m.digit());
            },
            OpCommand::ModTxOnly(m) => {
                out.push('N' as u8);
                out.push(m.digit());
            },
            OpCommand::Text(t) => {
                out.push('X' as u8);
                out.push(t.digit());
            },
            OpCommand::StorePreset => out.push('Q' as u8),
            OpCommand::ScanListMember(on) => {
                out.push('C' as u8);
                out.push(flag_digit(on));
            },
            OpCommand::Power(p) => {
                out.push('#' as u8);
                out.push(p.digit());
            },
            OpCommand::Scan(on) => {
                out.push('S' as u8);
                out.push(flag_digit(on));
            },
            OpCommand::Beacon(on) => {
                out.push('*' as u8);
                out.push(flag_digit(on));
            },
            OpCommand::ReleaseKeypad => out.push('+' as u8),
            OpCommand::Transmit => out.push('B' as u8),
            OpCommand::Receive => out.push('E' as u8),
            OpCommand::ToneSquelch(t) => {
                out.push('>' as u8);
                out.push(t.digit());
            },
        }
        assert(out@ =~= old(out)@ + self.wire());
    }
}

fn flag_digit(on: bool) -> (r: u8)
    ensures
        r == flag(on),
{
    if on {
        '1' as u8
    } else {
        '0' as u8
    }
}

fn push_3digit(out: &mut Vec<u8>, n: u8)
    ensures
        final(out)@ == old(out)@ + three_digits(n),
{
    out.push(48 + n / 100);
    out.push(48 + n / 10 % 10);
    out.push(48 + n % 10);
}

/// The length of the argument behind a prefix character.
pub open spec fn argument_len(prefix: u8) -> nat {
    if prefix == 'R' as u8 || prefix == 'T' as u8 {
        6
    } else if prefix == '$' as u8 {
        3
    } else if prefix == 'Z' as u8 || prefix == 'I' as u8 || prefix == 'K' as u8 || prefix
        == 'Q' as u8 || prefix == '+' as u8 || prefix == 'B' as u8 || prefix == 'E' as u8 {
        0
    } else {
        1
    }
}

/// The argument's width follows from the prefix alone.
pub proof fn law_fixed_width_argument(c: OpCommand)
    ensures
        c.wire()[0] == c.prefix(),
        c.wire().len() == 1 + argument_len(c.prefix()),
{
}

/// A squelch command is `$` and three digits, which denote the level.
pub proof fn law_squelch_digits(n: u8)
    ensures
        OpCommand::Squelch(n).wire().len() == 4,
        OpCommand::Squelch(n).wire()[0] == '$' as u8,
        all_digits(OpCommand::Squelch(n).wire().skip(1)),
        digits_value(OpCommand::Squelch(n).wire().skip(1)) == n,
{
    let s = OpCommand::Squelch(n).wire().skip(1);
    assert(s =~= three_digits(n));
    reveal_with_fuel(digits_value, 4);
    assert(s.drop_last() =~= seq![s[0], s[1]]);
    assert(s.drop_last().drop_last() =~= seq![s[0]]);
    assert(s.drop_last().drop_last().drop_last() =~= seq![]);
}

/// A preset command is `P` and the preset's digit.
pub proof fn law_preset_digit(p: PresetId)
    requires
        p.number() <= 9,
    ensures
        OpCommand::Preset(p).wire() == seq!['P' as u8, ascii_digit(p.number() as int)],
{
    assert(OpCommand::Preset(p).wire() =~= seq!['P' as u8, ascii_digit(p.number() as int)]);
}

/// A tuning command is its prefix and six digits, which denote the frequency
/// in kHz; the first digit is `0` in the LVHF band and `4` in the UHF-400 band.
pub proof fn law_tuning_digits(f: Freq)
    requires
        f@.tunable(),
    ensures
        ({
            let rx = OpCommand::SetRx(f).wire();
            let tx = OpCommand::SetTx(f).wire();
            &&& rx.len() == 7 && rx[0] == 'R' as u8
            &&& tx.len() == 7 && tx[0] == 'T' as u8
            &&& rx.skip(1) == tx.skip(1)
            &&& all_digits(rx.skip(1))
            &&& digits_value(rx.skip(1)) == f@.hz / 1000
            &&& f@.band is Lvhf ==> rx[1] == '0' as u8
            &&& f@.band is Uhf400 ==> rx[1] == '4' as u8
        }),
{
    assert(OpCommand::SetRx(f).wire().skip(1) =~= f.wire());
    assert(OpCommand::SetTx(f).wire().skip(1) =~= f.wire());
    lemma_six_digits((f@.hz / 1000) as nat);
}

/// A stream of commands can be read in one way only: where two streams that
/// start with a command each are equal, the first commands have the same wire
/// form and so do the rests.
pub proof fn law_self_delimiting(a: OpCommand, s: Seq<u8>, b: OpCommand, t: Seq<u8>)
    requires
        a.wire() + s == b.wire() + t,
    ensures
        a.wire() == b.wire(),
        s == t,
{
    let x = a.wire() + s;
    let y = b.wire() + t;
    assert(x[0] == a.prefix());
    assert(y[0] == b.prefix());
    assert(a.wire() =~= x.take(a.wire().len() as int));
    assert(b.wire() =~= y.take(b.wire().len() as int));
    assert(s =~= x.skip(a.wire().len() as int));
    assert(t =~= y.skip(b.wire().len() as int));
}

/// The wire form tells the command: commands with the same bytes ask for the
/// same thing.
pub proof fn law_encoding_faithful(a: OpCommand, b: OpCommand)
    requires
        a.valid(),
        b.valid(),
    ensures
        a.wire() == b.wire() <==> a.same_request(b),
{
    assert(a.wire()[0] == a.prefix() && b.wire()[0] == b.prefix());
    assert(a.wire().skip(1) =~= a.argument());
    assert(b.wire().skip(1) =~= b.argument());
    match (a, b) {
        (OpCommand::SetRx(f), OpCommand::SetRx(g)) => {
            law_wire_tells_khz(f, g);
        },
        (OpCommand::SetTx(f), OpCommand::SetTx(g)) => {
            law_wire_tells_khz(f, g);
        },
        _ => {
            if a.wire() == b.wire() {
                assert(a.argument() == b.argument());
                if a.argument().len() > 0 {
                    assert(a.argument()[0] == b.argument()[0]);
                }
                if a is Squelch {
                    assert(a.argument()[1] == b.argument()[1]);
                    assert(a.argument()[2] == b.argument()[2]);
                }
            }
        },
    }
}

/// The bytes of the commands that matter most, and that the levels are numbered
/// upwards from zero: `B` keys the transmitter, `E` returns to receive, `Z`
/// resynchronises, `*1` starts the beacon.
pub proof fn law_bytes_on_the_wire(on: bool)
    ensures
        OpCommand::Transmit.wire() == seq!['B' as u8],
        OpCommand::Receive.wire() == seq!['E' as u8],
        OpCommand::Zap.wire() == seq!['Z' as u8],
        OpCommand::ChannelInit.wire() == seq!['I' as u8],
        OpCommand::Calibrate.wire() == seq!['K' as u8],
        OpCommand::StorePreset.wire() == seq!['Q' as u8],
        OpCommand::ReleaseKeypad.wire() == seq!['+' as u8],
        OpCommand::Beacon(on).wire() == seq!['*' as u8, if on {
            '1' as u8
        } else {
            '0' as u8
        }],
        OpCommand::Speaker(on).wire() == seq!['J' as u8, if on {
            '1' as u8
        } else {
            '0' as u8
        }],
        OpCommand::Scan(on).wire() == seq!['S' as u8, if on {
            '1' as u8
        } else {
            '0' as u8
        }],
        OpCommand::ScanListMember(on).wire() == seq!['C' as u8, if on {
            '1' as u8
        } else {
            '0' as u8
        }],
        LampLevel::Off.code() == 48 && LampLevel::Lo.code() == 49 && LampLevel::Med.code() == 50
            && LampLevel::Hi.code() == 51,
        PowerLevel::Lo.code() == 48 && PowerLevel::Med.code() == 49 && PowerLevel::Hi.code() == 50,
        ModMode::Am.code() == 48 && ModMode::Fm.code() == 49,
        TextMode::Pt.code() == 48 && TextMode::Ct.code() == 49,
        ToneSquelch::Off.code() == 48 && ToneSquelch::RxOnly.code() == 49
            && ToneSquelch::TxOnly.code() == 50 && ToneSquelch::Both.code() == 51,
{
    assert(OpCommand::Transmit.wire() =~= seq!['B' as u8]);
    assert(OpCommand::Receive.wire() =~= seq!['E' as u8]);
    assert(OpCommand::Zap.wire() =~= seq!['Z' as u8]);
    assert(OpCommand::ChannelInit.wire() =~= seq!['I' as u8]);
    assert(OpCommand::Calibrate.wire() =~= seq!['K' as u8]);
    assert(OpCommand::StorePreset.wire() =~= seq!['Q' as u8]);
    assert(OpCommand::ReleaseKeypad.wire() =~= seq!['+' as u8]);
    assert(OpCommand::Beacon(on).wire() =~= seq!['*' as u8, flag(on)]);
    assert(OpCommand::Speaker(on).wire() =~= seq!['J' as u8, flag(on)]);
    assert(OpCommand::Scan(on).wire() =~= seq!['S' as u8, flag(on)]);
    assert(OpCommand::ScanListMember(on).wire() =~= seq!['C' as u8, flag(on)]);
}

/// The commands that set a level: a letter for what is set, then the level.
pub proof fn law_levels_on_the_wire(
    l: LampLevel,
    m: ModMode,
    t: TextMode,
    p: PowerLevel,
    q: ToneSquelch,
)
    ensures
        OpCommand::Lamp(l).wire() == seq!['L' as u8, l.code()],
        OpCommand::ModTxRx(m).wire() == seq!['M' as u8, m.code()],
        OpCommand::ModTxOnly(m).wire() == seq!['N' as u8, m.code()],
        OpCommand::Text(t).wire() == seq!['X' as u8, t.code()],
        OpCommand::Power(p).wire() == seq!['#' as u8, p.code()],
        OpCommand::ToneSquelch(q).wire() == seq!['>' as u8, q.code()],
{
    assert(OpCommand::Lamp(l).wire() =~= seq!['L' as u8, l.code()]);
    assert(OpCommand::ModTxRx(m).wire() =~= seq!['M' as u8, m.code()]);
    assert(OpCommand::ModTxOnly(m).wire() =~= seq!['N' as u8, m.code()]);
    assert(OpCommand::Text(t).wire() =~= seq!['X' as u8, t.code()]);
    assert(OpCommand::Power(p).wire() =~= seq!['#' as u8, p.code()]);
    assert(OpCommand::ToneSquelch(q).wire() =~= seq!['>' as u8, q.code()]);
}

/// A preset is one of the ten from 0 to 9, and so is that of a command.
pub proof fn law_preset_numbers(p: PresetId)
    ensures
        p.valid() <==> p.number() <= 9,
        OpCommand::Preset(p).valid() <==> p.number() <= 9,
{
}

} // verus!
