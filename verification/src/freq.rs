//! Band-aware frequency with range and step validation.
//!
//! The transceiver covers
//!   - base VHF 115.000–173.995 MHz and UHF 225.000–399.995 MHz,
//!   - with the EBN-30 option 30.000–90.000 MHz,
//!   - with the EBN-400 option 400.000–420.000 MHz.
//!
//! On the wire a frequency is six ASCII digits, its value in kHz. The leading
//! digit doubles as the band marker: `0` below 100 MHz, `4` from 400 MHz on.
use vstd::prelude::*;
use crate::text::{append_decimal, decimal};

verus! {

#[derive(Debug, Clone, Copy, PartialEq, Eq, Structural)]
pub enum Band {
    /// Base VHF (115.000–173.995 MHz) or UHF (225.000–399.995 MHz).
    Base,
    /// EBN-30 option: 30.000–90.000 MHz LVHF. FM only.
    Lvhf,
    /// EBN-400 option: 400.000–420.000 MHz.
    Uhf400,
}

impl Band {
    /// The variant's name, as `Debug` prints it.
    pub open spec fn label(self) -> Seq<char> {
        match self {
            Band::Base => "Base"@,
            Band::Lvhf => "Lvhf"@,
            Band::Uhf400 => "Uhf400"@,
        }
    }

    /// Whether the band covers `hz`.
    pub open spec fn covers(self, hz: u32) -> bool {
        match self {
            Band::Base => 115_000_000 <= hz <= 173_995_000 || 225_000_000 <= hz <= 399_995_000,
            Band::Lvhf => 30_000_000 <= hz <= 90_000_000,
            Band::Uhf400 => 400_000_000 <= hz <= 420_000_000,
        }
    }

    /// Whether the band can be tuned in steps of `step`. LVHF has the 25 and
    /// 12.5 kHz grids only.
    pub open spec fn allows(self, step: Step) -> bool {
        !(self is Lvhf && (step is Khz5 || step is Khz8_33))
    }

    fn name(self) -> (r: &'static str)
        ensures
            r@ == self.label(),
    {
        match self {
            Band::Base => "Base",
            Band::Lvhf => "Lvhf",
            Band::Uhf400 => "Uhf400",
        }
    }
}

#[derive(Debug, Clone, Copy, PartialEq, Eq, Structural)]
pub enum Step {
    Khz25,
    Khz12_5,
    Khz5,
    /// ECS-8 aviation: channels follow the ICAO 8.33 kHz plan, which is no
    /// plain multiple of the step.
    Khz8_33,
}

impl Step {
    /// Nominal step in Hz.
    pub open spec fn width(self) -> u32 {
        match self {
            Step::Khz25 => 25_000,
            Step::Khz12_5 => 12_500,
            Step::Khz5 => 5_000,
            Step::Khz8_33 => 8_333,
        }
    }

    /// The variant's name, as `Debug` prints it.
    pub open spec fn label(self) -> Seq<char> {
        match self {
            Step::Khz25 => "Khz25"@,
            Step::Khz12_5 => "Khz12_5"@,
            Step::Khz5 => "Khz5"@,
            Step::Khz8_33 => "Khz8_33"@,
        }
    }

    /// Whether `hz` lies on the grid. The 8.33 kHz plan is not checked.
    pub open spec fn on_grid(self, hz: u32) -> bool {
        self is Khz8_33 || hz % self.width() == 0
    }

    pub fn hz(self) -> (r: u32)
        ensures
            r == self.width(),
    {
        match self {
            Step::Khz25 => 25_000,
            Step::Khz12_5 => 12_500,
            Step::Khz5 => 5_000,
            Step::Khz8_33 => 8_333,
        }
    }

    fn name(self) -> (r: &'static str)
        ensures
            r@ == self.label(),
    {
        match self {
            Step::Khz25 => "Khz25",
            Step::Khz12_5 => "Khz12_5",
            Step::Khz5 => "Khz5",
            Step::Khz8_33 => "Khz8_33",
        }
    }
}

#[derive(Debug, Clone, Copy, PartialEq, Eq, Structural)]
pub enum FreqError {
    OutOfRange { hz: u32, band: Band },
    MisalignedStep { hz: u32, step: Step },
    IncompatibleBandStep { band: Band, step: Step },
}

impl FreqError {
    /// The error as a sentence.
    pub open spec fn text(self) -> Seq<char> {
        match self {
            FreqError::OutOfRange { hz, band } => decimal(hz as nat) + " Hz is outside "@
                + band.label() + " band"@,
            FreqError::MisalignedStep { hz, step } => decimal(hz as nat) + " Hz is not on the "@
                + step.label() + " grid"@,
            FreqError::IncompatibleBandStep { band, step } => step.label()
                + " step not supported on "@ + band.label() + " band"@,
        }
    }

    pub fn message(&self) -> (r: String)
        ensures
            r@ == self.text(),
    {
        let mut out = String::new();
        match *self {
            FreqError::OutOfRange { hz, band } => {
                append_decimal(&mut out, hz as u128);
                out.append(" Hz is outside ");
                out.append(band.name());
                out.append(" band");
            },
            FreqError::MisalignedStep { hz, step } => {
                append_decimal(&mut out, hz as u128);
                out.append(" Hz is not on the ");
                out.append(step.name());
                out.append(" grid");
            },
            FreqError::IncompatibleBandStep { band, step } => {
                out.append(step.name());
                out.append(" step not supported on ");
                out.append(band.name());
                out.append(" band");
            },
        }
        out
    }
}

/// A frequency the transceiver can be tuned to.
#[derive(Debug, Clone, Copy, PartialEq, Eq, Structural)]
pub struct Freq {
    hz: u32,
    band: Band,
    step: Step,
}

/// What a [`Freq`] stands for.
pub struct FreqView {
    pub hz: u32,
    pub band: Band,
    pub step: Step,
}

impl FreqView {
    /// In the band, on a grid the band has, and aligned to it.
    pub open spec fn tunable(self) -> bool {
        &&& self.band.covers(self.hz)
        &&& self.band.allows(self.step)
        &&& self.step.on_grid(self.hz)
    }
}

impl View for Freq {
    type V = FreqView;

    closed spec fn view(&self) -> FreqView {
        FreqView { hz: self.hz, band: self.band, step: self.step }
    }
}

/// The first objection to tuning `band` to `hz` in steps of `step`, if any.
pub open spec fn tuning_error(hz: u32, band: Band, step: Step) -> Option<FreqError> {
    if !band.covers(hz) {
        Some(FreqError::OutOfRange { hz, band })
    } else if !band.allows(step) {
        Some(FreqError::IncompatibleBandStep { band, step })
    } else if !step.on_grid(hz) {
        Some(FreqError::MisalignedStep { hz, step })
    } else {
        None
    }
}

/// The ASCII digit of `d`.
pub open spec fn ascii_digit(d: int) -> u8 {
    (48 + d) as u8
}

/// The last six decimal digits of `n`, leading zeros kept.
pub open spec fn six_digits(n: nat) -> Seq<u8> {
    seq![
        ascii_digit((n / 100_000 % 10) as int),
        ascii_digit((n / 10_000 % 10) as int),
        ascii_digit((n / 1_000 % 10) as int),
        ascii_digit((n / 100 % 10) as int),
        ascii_digit((n / 10 % 10) as int),
        ascii_digit((n % 10) as int),
    ]
}

/// The number that a string of ASCII digits denotes.
pub open spec fn digits_value(s: Seq<u8>) -> nat
    decreases s.len(),
{
    if s.len() == 0 {
        0
    } else {
        digits_value(s.drop_last()) * 10 + (s.last() - 48) as nat
    }
}

/// Whether every byte is an ASCII digit.
pub open spec fn all_digits(s: Seq<u8>) -> bool {
    forall|i: int| 0 <= i < s.len() ==> 48 <= #[trigger] s[i] <= 57
}

impl Freq {
    #[verifier::type_invariant]
    pub closed spec fn valid(self) -> bool {
        self@.tunable()
    }

    /// The six wire digits: the frequency in kHz, any fraction dropped.
    pub open spec fn wire(self) -> Seq<u8> {
        six_digits((self@.hz / 1000) as nat)
    }

    pub fn new(hz: u32, band: Band, step: Step) -> (r: Result<Freq, FreqError>)
        ensures
            match r {
                Ok(f) => tuning_error(hz, band, step) is None && f@ == (FreqView { hz, band, step }),
                Err(e) => tuning_error(hz, band, step) == Some(e),
            },
    {
        if !Self::in_band(hz, band) {
            return Err(FreqError::OutOfRange { hz, band });
        }
        if !Self::band_step_ok(band, step) {
            return Err(FreqError::IncompatibleBandStep { band, step });
        }
        if step != Step::Khz8_33 && hz % step.hz() != 0 {
            return Err(FreqError::MisalignedStep { hz, step });
        }
        Ok(Freq { hz, band, step })
    }

    pub fn hz(&self) -> (r: u32)
        ensures
            r == self@.hz,
    {
        self.hz
    }

    pub fn band(&self) -> (r: Band)
        ensures
            r == self@.band,
    {
        self.band
    }

    pub fn step(&self) -> (r: Step)
        ensures
            r == self@.step,
    {
        self.step
    }

    /// Six ASCII digits: the value in kHz, zero-padded.
    pub fn encode(&self) -> (r: [u8; 6])
        ensures
            r@ == self.wire(),
            digits_value(r@) == self@.hz / 1000,
            all_digits(r@),
    {
        proof {
            use_type_invariant(self);
            lemma_six_digits((self.hz / 1000) as nat);
        }
        let khz: u32 = self.hz / 1000;
        let out: [u8; 6] = [
            48 + (khz / 100_000 % 10) as u8,
            48 + (khz / 10_000 % 10) as u8,
            48 + (khz / 1_000 % 10) as u8,
            48 + (khz / 100 % 10) as u8,
            48 + (khz / 10 % 10) as u8,
            48 + (khz % 10) as u8,
        ];
        assert(out@ =~= six_digits(khz as nat));
        out
    }

    fn in_band(hz: u32, band: Band) -> (r: bool)
        ensures
            r == band.covers(hz),
    {
        match band {
            Band::Base => {
                115_000_000 <= hz && hz <= 173_995_000 || 225_000_000 <= hz && hz <= 399_995_000
            },
            Band::Lvhf => 30_000_000 <= hz && hz <= 90_000_000,
            Band::Uhf400 => 400_000_000 <= hz && hz <= 420_000_000,
        }
    }

    fn band_step_ok(band: Band, step: Step) -> (r: bool)
        ensures
            r == band.allows(step),
    {
        match (band, step) {
            (Band::Lvhf, Step::Khz5) => false,
            (Band::Lvhf, Step::Khz8_33) => false,
            _ => true,
        }
    }
}

/// The band that covers `hz`, if one does.
pub fn band_for(hz: u32) -> (r: Option<Band>)
    ensures
        r == band_of(hz),
{
    if Freq::in_band(hz, Band::Base) {
        Some(Band::Base)
    } else if Freq::in_band(hz, Band::Lvhf) {
        Some(Band::Lvhf)
    } else if Freq::in_band(hz, Band::Uhf400) {
        Some(Band::Uhf400)
    } else {
        None
    }
}

/// The band that covers `hz`, if one does.
pub open spec fn band_of(hz: u32) -> Option<Band> {
    if Band::Base.covers(hz) {
        Some(Band::Base)
    } else if Band::Lvhf.covers(hz) {
        Some(Band::Lvhf)
    } else if Band::Uhf400.covers(hz) {
        Some(Band::Uhf400)
    } else {
        None
    }
}

/// The bands do not overlap: a frequency lies in one at most.
pub proof fn law_bands_disjoint(hz: u32, a: Band, b: Band)
    requires
        a.covers(hz),
        b.covers(hz),
    ensures
        a == b,
        band_of(hz) == Some(a),
{
}

/// Six digits are digits, and denote the number they were made of.
pub proof fn lemma_six_digits(n: nat)
    requires
        n < 1_000_000,
    ensures
        all_digits(six_digits(n)),
        digits_value(six_digits(n)) == n,
{
    let s = six_digits(n);
    let s5 = s.drop_last();
    let s4 = s5.drop_last();
    let s3 = s4.drop_last();
    let s2 = s3.drop_last();
    let s1 = s2.drop_last();
    assert(digits_value(s1.drop_last()) == 0);
    assert(digits_value(s1) == n / 100_000);
    assert(digits_value(s2) == n / 10_000);
    assert(digits_value(s3) == n / 1_000);
    assert(digits_value(s4) == n / 100);
    assert(digits_value(s5) == n / 10);
}

/// Every frequency encodes to six digits that give its kHz value back; the
/// leading digit marks the band: `0` for LVHF, `4` for UHF-400, and `1`, `2`
/// or `3` for the base bands.
pub proof fn law_band_marker(f: Freq)
    requires
        f@.tunable(),
    ensures
        f.wire().len() == 6,
        all_digits(f.wire()),
        digits_value(f.wire()) == f@.hz / 1000,
        f@.band is Lvhf ==> f.wire()[0] == 48,
        f@.band is Uhf400 ==> f.wire()[0] == 52,
        f@.band is Base ==> 49 <= f.wire()[0] <= 51,
{
    lemma_six_digits((f@.hz / 1000) as nat);
}

/// Two frequencies look the same on the wire exactly when they agree in kHz;
/// and frequencies that agree in kHz lie in the same band.
pub proof fn law_wire_tells_khz(f: Freq, g: Freq)
    requires
        f@.tunable(),
        g@.tunable(),
    ensures
        f.wire() == g.wire() <==> f@.hz / 1000 == g@.hz / 1000,
        f.wire() == g.wire() ==> f@.band == g@.band,
{
    lemma_six_digits((f@.hz / 1000) as nat);
    lemma_six_digits((g@.hz / 1000) as nat);
}

/// What the radio covers: 30 to 90 MHz, 115 to 173.995 MHz, 225 to 399.995 MHz
/// and 400 to 420 MHz, the second and third as one band.
pub proof fn law_coverage(hz: u32)
    ensures
        band_of(hz) == Some(Band::Lvhf) <==> 30_000_000 <= hz <= 90_000_000,
        band_of(hz) == Some(Band::Base) <==> 115_000_000 <= hz <= 173_995_000 || 225_000_000 <= hz
            <= 399_995_000,
        band_of(hz) == Some(Band::Uhf400) <==> 400_000_000 <= hz <= 420_000_000,
        forall|b: Band| #[trigger] b.covers(hz) <==> band_of(hz) == Some(b),
{
}

/// A frequency is accepted exactly when the band covers it, the band has the
/// grid, and it is a whole number of the grid's kHz; the 8.33 kHz plan is not
/// checked, and LVHF has no grid but 25 and 12.5 kHz. The first of the three
/// that fails is named.
pub proof fn law_what_is_accepted(hz: u32, band: Band, step: Step)
    ensures
        ({
            let inside = match band {
                Band::Base => 115_000_000 <= hz <= 173_995_000 || 225_000_000 <= hz <= 399_995_000,
                Band::Lvhf => 30_000_000 <= hz <= 90_000_000,
                Band::Uhf400 => 400_000_000 <= hz <= 420_000_000,
            };
            let fits = band != Band::Lvhf || step == Step::Khz25 || step == Step::Khz12_5;
            let aligned = match step {
                Step::Khz25 => hz % 25_000 == 0,
                Step::Khz12_5 => hz % 12_500 == 0,
                Step::Khz5 => hz % 5_000 == 0,
                Step::Khz8_33 => true,
            };
            &&& tuning_error(hz, band, step) is None <==> inside && fits && aligned
            &&& !inside ==> tuning_error(hz, band, step) == Some(FreqError::OutOfRange { hz, band })
            &&& inside && !fits ==> tuning_error(hz, band, step) == Some(
                FreqError::IncompatibleBandStep { band, step },
            )
            &&& inside && fits && !aligned ==> tuning_error(hz, band, step) == Some(
                FreqError::MisalignedStep { hz, step },
            )
        }),
{
}

/// The nominal widths of the steps. Every 25 kHz channel is a 12.5 kHz channel
/// and a 5 kHz channel too.
pub proof fn law_step_widths(hz: u32)
    ensures
        Step::Khz25.width() == 25_000,
        Step::Khz12_5.width() == 12_500,
        Step::Khz5.width() == 5_000,
        Step::Khz8_33.width() == 8_333,
        Step::Khz25.on_grid(hz) ==> Step::Khz12_5.on_grid(hz) && Step::Khz5.on_grid(hz),
{
}

/// What a refused frequency is told names the frequency and the band or the step
/// that it does not fit.
pub proof fn law_complaints(hz: u32, band: Band, step: Step)
    ensures
        ({
            let b = match band {
                Band::Base => "Base"@,
                Band::Lvhf => "Lvhf"@,
                Band::Uhf400 => "Uhf400"@,
            };
            let s = match step {
                Step::Khz25 => "Khz25"@,
                Step::Khz12_5 => "Khz12_5"@,
                Step::Khz5 => "Khz5"@,
                Step::Khz8_33 => "Khz8_33"@,
            };
            let n = decimal(hz as nat);
            &&& (FreqError::OutOfRange { hz, band }).text() == n + (" Hz is outside "@ + (b
                + " band"@))
            &&& (FreqError::MisalignedStep { hz, step }).text() == n + (" Hz is not on the "@ + (s
                + " grid"@))
            &&& (FreqError::IncompatibleBandStep { band, step }).text() == s + (
            " step not supported on "@ + (b + " band"@))
        }),
{
}

} // verus!
