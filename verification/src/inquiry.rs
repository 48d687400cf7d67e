//! Status inquiries and the decoding of their replies.
//!
//! An [`Inquiry`] encodes to `?NN`. The radio answers with the data first and
//! the terminator behind it; the decoders here take the data and produce typed
//! values.
use vstd::prelude::*;
use crate::command::{LampLevel, ModMode, PowerLevel, PresetId, TextMode};
use crate::freq::{all_digits, ascii_digit, digits_value};
use crate::text::bytes_eq;

verus! {

/// Every inquiry the radio supports.
#[derive(Debug, Clone, Copy, PartialEq, Eq, Hash, Structural)]
pub enum Inquiry {
    SynthLock,
    ScanDetect,
    Rssi,
    CalStatus,
    PowerRails,
    VFwd,
    VRfd,
    SwVersion,
    SquelchLevel,
    PresetSnapshot,
    GeneralStatus,
    Mode,
    SquelchStatus,
    WarpValue,
    PowerTable,
    TuningFilter,
    Tone3090,
    AviationMode,
    RxFilterBw,
    Debug,
}

impl Inquiry {
    /// The number that the radio knows the inquiry by.
    pub open spec fn number(self) -> u8 {
        match self {
            Inquiry::SynthLock => 1,
            Inquiry::ScanDetect => 2,
            Inquiry::Rssi => 3,
            Inquiry::CalStatus => 4,
            Inquiry::PowerRails => 5,
            Inquiry::VFwd => 6,
            Inquiry::VRfd => 7,
            Inquiry::SwVersion => 8,
            Inquiry::SquelchLevel => 9,
            Inquiry::PresetSnapshot => 10,
            Inquiry::GeneralStatus => 11,
            Inquiry::Mode => 12,
            Inquiry::SquelchStatus => 13,
            Inquiry::WarpValue => 14,
            Inquiry::PowerTable => 16,
            Inquiry::TuningFilter => 17,
            Inquiry::Tone3090 => 19,
            Inquiry::AviationMode => 89,
            Inquiry::RxFilterBw => 90,
            Inquiry::Debug => 99,
        }
    }

    /// The three bytes that put the inquiry on the wire.
    pub open spec fn wire(self) -> Seq<u8> {
        seq![
            '?' as u8,
            ascii_digit(self.number() as int / 10),
            ascii_digit(self.number() as int % 10),
        ]
    }

    /// The variant's name, as `Debug` prints it.
    pub open spec fn label(self) -> Seq<char> {
        match self {
            Inquiry::SynthLock => "SynthLock"@,
            Inquiry::ScanDetect => "ScanDetect"@,
            Inquiry::Rssi => "Rssi"@,
            Inquiry::CalStatus => "CalStatus"@,
            Inquiry::PowerRails => "PowerRails"@,
            Inquiry::VFwd => "VFwd"@,
            Inquiry::VRfd => "VRfd"@,
            Inquiry::SwVersion => "SwVersion"@,
            Inquiry::SquelchLevel => "SquelchLevel"@,
            Inquiry::PresetSnapshot => "PresetSnapshot"@,
            Inquiry::GeneralStatus => "GeneralStatus"@,
            Inquiry::Mode => "Mode"@,
            Inquiry::SquelchStatus => "SquelchStatus"@,
            Inquiry::WarpValue => "WarpValue"@,
            Inquiry::PowerTable => "PowerTable"@,
            Inquiry::TuningFilter => "TuningFilter"@,
            Inquiry::Tone3090 => "Tone3090"@,
            Inquiry::AviationMode => "AviationMode"@,
            Inquiry::RxFilterBw => "RxFilterBw"@,
            Inquiry::Debug => "Debug"@,
        }
    }

    pub fn code(self) -> (r: u8)
        ensures
            r == self.number(),
    {
        match self {
            Inquiry::SynthLock => 1,
            Inquiry::ScanDetect => 2,
            Inquiry::Rssi => 3,
            Inquiry::CalStatus => 4,
            Inquiry::PowerRails => 5,
            Inquiry::VFwd => 6,
            Inquiry::VRfd => 7,
            Inquiry::SwVersion => 8,
            Inquiry::SquelchLevel => 9,
            Inquiry::PresetSnapshot => 10,
            Inquiry::GeneralStatus => 11,
            Inquiry::Mode => 12,
            Inquiry::SquelchStatus => 13,
            Inquiry::WarpValue => 14,
            Inquiry::PowerTable => 16,
            Inquiry::TuningFilter => 17,
            Inquiry::Tone3090 => 19,
            Inquiry::AviationMode => 89,
            Inquiry::RxFilterBw => 90,
            Inquiry::Debug => 99,
        }
    }

    pub fn name(self) -> (r: &'static str)
        ensures
            r@ == self.label(),
    {
        match self {
            Inquiry::SynthLock => "SynthLock",
            Inquiry::ScanDetect => "ScanDetect",
            Inquiry::Rssi => "Rssi",
            Inquiry::CalStatus => "CalStatus",
            Inquiry::PowerRails => "PowerRails",
            Inquiry::VFwd => "VFwd",
            Inquiry::VRfd => "VRfd",
            Inquiry::SwVersion => "SwVersion",
            Inquiry::SquelchLevel => "SquelchLevel",
            Inquiry::PresetSnapshot => "PresetSnapshot",
            Inquiry::GeneralStatus => "GeneralStatus",
            Inquiry::Mode => "Mode",
            Inquiry::SquelchStatus => "SquelchStatus",
            Inquiry::WarpValue => "WarpValue",
            Inquiry::PowerTable => "PowerTable",
            Inquiry::TuningFilter => "TuningFilter",
            Inquiry::Tone3090 => "Tone3090",
            Inquiry::AviationMode => "AviationMode",
            Inquiry::RxFilterBw => "RxFilterBw",
            Inquiry::Debug => "Debug",
        }
    }

    /// Encode to the 3-byte wire form `?NN`, zero-padded.
    pub fn encode(self) -> (r: [u8; 3])
        ensures
            r@ == self.wire(),
    {
        let n: u8 = self.code();
        let out: [u8; 3] = ['?' as u8, 48 + n / 10, 48 + n % 10];
        assert(out@ =~= self.wire());
        out
    }
}

/// No two inquiries share a wire form.
pub proof fn law_inquiries_distinct(a: Inquiry, b: Inquiry)
    ensures
        a.wire() == b.wire() <==> a == b,
{
    if a.wire() == b.wire() {
        assert(a.wire()[1] == b.wire()[1] && a.wire()[2] == b.wire()[2]);
        assert(a.number() == b.number());
    }
}

// ---------- Fields ----------

/// The `n` digits right behind the first `prefix` in `data`. `None` where the
/// prefix does not occur, too few bytes follow it, or not all are digits.
pub open spec fn field(data: Seq<u8>, prefix: u8, n: nat) -> Option<Seq<u8>> {
    match data.index_of_first(prefix) {
        Some(i) => {
            if i + 1 + n <= data.len() && all_digits(data.subrange(i + 1, i + 1 + n)) {
                Some(data.subrange(i + 1, i + 1 + n))
            } else {
                None
            }
        },
        None => None,
    }
}

/// The one-digit field behind `prefix`, as a number.
pub open spec fn digit_field(data: Seq<u8>, prefix: u8) -> Option<u8> {
    match field(data, prefix, 1) {
        Some(s) => Some((s[0] - 48) as u8),
        None => None,
    }
}

/// The seven-digit field behind `prefix`, which counts 100 Hz units, in Hz.
pub open spec fn freq_field(data: Seq<u8>, prefix: u8) -> Option<nat> {
    match field(data, prefix, 7) {
        Some(s) => Some(digits_value(s) * 100),
        None => None,
    }
}

/// A payload made of fields: each a prefix and its digits, one after the other.
pub open spec fn payload(fields: Seq<(u8, Seq<u8>)>) -> Seq<u8>
    decreases fields.len(),
{
    if fields.len() == 0 {
        seq![]
    } else {
        payload(fields.drop_last()) + seq![fields.last().0] + fields.last().1
    }
}

/// Prefixes are no digits, no prefix comes twice, and behind them stand digits.
pub open spec fn proper_fields(fields: Seq<(u8, Seq<u8>)>) -> bool {
    &&& forall|i: int|
        0 <= i < fields.len() ==> !(48 <= (#[trigger] fields[i]).0 <= 57) && all_digits(fields[i].1)
    &&& forall|i: int, j: int|
        0 <= i < j < fields.len() ==> (#[trigger] fields[i]).0 != (#[trigger] fields[j]).0
}

/// In a payload of fields, the field of a prefix is what stands behind that
/// prefix, wherever it comes: the first `n` of its digits, or nothing where it
/// has fewer.
pub proof fn law_field_found(fields: Seq<(u8, Seq<u8>)>, k: int, n: nat)
    requires
        proper_fields(fields),
        0 <= k < fields.len(),
    ensures
        field(payload(fields), fields[k].0, n) == (if n <= fields[k].1.len() {
            Some(fields[k].1.take(n as int))
        } else {
            None
        }),
    decreases fields.len(),
{
    let front = fields.drop_last();
    let p = fields[k].0;
    let d = fields[k].1;
    let head = payload(front);
    let whole = payload(fields);
    let (q, e) = fields.last();
    assert(proper_fields(front));
    whole.index_of_first_ensures(p);
    head.index_of_first_ensures(p);
    if k == fields.len() - 1 {
        lemma_absent_prefix(front, p);
        assert(whole[head.len() as int] == p);
        assert forall|j: int| 0 <= j < head.len() implies whole[j] != p by {
            assert(whole[j] == head[j]);
            assert(head.contains(head[j]));
        }
        let i = whole.index_of_first(p)->0;
        assert(i == head.len());
        if n <= d.len() {
            assert(whole.subrange(i + 1, i + 1 + n) =~= d.take(n as int));
            assert forall|j: int| 0 <= j < n implies 48 <= #[trigger] d.take(n as int)[j] <= 57 by {
                assert(d.take(n as int)[j] == d[j]);
            }
        }
    } else {
        assert(front[k] == fields[k]);
        law_field_found(front, k, n);
        lemma_present_prefix(front, k);
        let i = head.index_of_first(p)->0;
        assert(whole[i] == p);
        assert forall|j: int| 0 <= j < i implies whole[j] != p by {
            assert(whole[j] == head[j]);
        }
        assert(whole.index_of_first(p) == Some(i));
        if i + 1 + n <= head.len() {
            assert(whole.subrange(i + 1, i + 1 + n) =~= head.subrange(i + 1, i + 1 + n));
        } else {
            assert(field(head, p, n) is None);
            if i + 1 + n <= whole.len() {
                let s = whole.subrange(i + 1, i + 1 + n);
                assert(s[head.len() - i - 1] == q);
                assert(!all_digits(s));
            }
        }
    }
}

/// A prefix that no field has is not found.
pub proof fn law_field_absent(fields: Seq<(u8, Seq<u8>)>, p: u8, n: nat)
    requires
        proper_fields(fields),
        !(48 <= p <= 57),
        forall|i: int| 0 <= i < fields.len() ==> (#[trigger] fields[i]).0 != p,
    ensures
        field(payload(fields), p, n) is None,
{
    lemma_absent_prefix(fields, p);
    payload(fields).index_of_first_ensures(p);
}

proof fn lemma_absent_prefix(fields: Seq<(u8, Seq<u8>)>, p: u8)
    requires
        proper_fields(fields),
        !(48 <= p <= 57),
        forall|i: int| 0 <= i < fields.len() ==> (#[trigger] fields[i]).0 != p,
    ensures
        !payload(fields).contains(p),
    decreases fields.len(),
{
    if fields.len() > 0 {
        let front = fields.drop_last();
        assert(proper_fields(front));
        assert forall|i: int| 0 <= i < front.len() implies (#[trigger] front[i]).0 != p by {
            assert(front[i] == fields[i]);
        }
        lemma_absent_prefix(front, p);
        let head = payload(front);
        let whole = payload(fields);
        let (q, e) = fields.last();
        assert forall|j: int| 0 <= j < whole.len() implies whole[j] != p by {
            if j < head.len() {
                assert(whole[j] == head[j]);
                assert(head.contains(head[j]));
            } else if j > head.len() {
                assert(whole[j] == e[j - head.len() - 1]);
            }
        }
    }
}

proof fn lemma_present_prefix(fields: Seq<(u8, Seq<u8>)>, k: int)
    requires
        0 <= k < fields.len(),
    ensures
        payload(fields).contains(fields[k].0),
    decreases fields.len(),
{
    let front = fields.drop_last();
    let head = payload(front);
    let whole = payload(fields);
    if k == fields.len() - 1 {
        assert(whole[head.len() as int] == fields[k].0);
    } else {
        lemma_present_prefix(front, k);
        assert(front[k] == fields[k]);
        let j = choose|j: int| 0 <= j < head.len() && head[j] == fields[k].0;
        assert(whole[j] == fields[k].0);
    }
}

/// The order of the fields does not matter: two payloads made of the same
/// fields decode to the same preset snapshot and the same general status.
pub proof fn law_field_order(a: Seq<(u8, Seq<u8>)>, b: Seq<(u8, Seq<u8>)>)
    requires
        proper_fields(a),
        proper_fields(b),
        forall|x: (u8, Seq<u8>)| a.contains(x) <==> b.contains(x),
    ensures
        PresetSnapshot::decoded(payload(a)) == PresetSnapshot::decoded(payload(b)),
        GeneralStatus::decoded(payload(a)) == GeneralStatus::decoded(payload(b)),
{
    assert forall|p: u8, n: nat| !(48 <= p <= 57) implies #[trigger] field(payload(a), p, n)
        == field(payload(b), p, n) by {
        lemma_same_field(a, b, p, n);
    }
}

proof fn lemma_same_field(a: Seq<(u8, Seq<u8>)>, b: Seq<(u8, Seq<u8>)>, p: u8, n: nat)
    requires
        proper_fields(a),
        proper_fields(b),
        forall|x: (u8, Seq<u8>)| a.contains(x) <==> b.contains(x),
        !(48 <= p <= 57),
    ensures
        field(payload(a), p, n) == field(payload(b), p, n),
{
    if exists|i: int| 0 <= i < a.len() && (#[trigger] a[i]).0 == p {
        let i = choose|i: int| 0 <= i < a.len() && (#[trigger] a[i]).0 == p;
        assert(a.contains(a[i]));
        let j = choose|j: int| 0 <= j < b.len() && b[j] == a[i];
        law_field_found(a, i, n);
        law_field_found(b, j, n);
    } else {
        assert forall|j: int| 0 <= j < b.len() implies (#[trigger] b[j]).0 != p by {
            assert(b.contains(b[j]));
            let i = choose|i: int| 0 <= i < a.len() && a[i] == b[j];
            assert(a[i].0 != p);
        }
        law_field_absent(a, p, n);
        law_field_absent(b, p, n);
    }
}

/// The bytes behind a leading `expect`.
pub fn strip_prefix<'a>(data: &'a [u8], expect: u8) -> (r: Option<&'a [u8]>)
    ensures
        match r {
            Some(rest) => data@.len() > 0 && data@[0] == expect && rest@ == data@.skip(1),
            None => data@.len() == 0 || data@[0] != expect,
        },
{
    if data.len() == 0 || data[0] != expect {
        return None;
    }
    let rest = vstd::slice::slice_subrange(data, 1, data.len());
    assert(rest@ =~= data@.skip(1));
    Some(rest)
}

/// Find byte `prefix` in `data` and return the `n` digits right behind it.
pub fn extract_digits_after<'a>(data: &'a [u8], prefix: u8, n: usize) -> (r: Option<&'a [u8]>)
    ensures
        match r {
            Some(s) => field(data@, prefix, n as nat) == Some(s@) && s@.len() == n && all_digits(s@),
            None => field(data@, prefix, n as nat) is None,
        },
{
    proof {
        data@.index_of_first_ensures(prefix);
    }
    let mut idx: usize = 0;
    while idx < data.len() && data[idx] != prefix
        invariant
            idx <= data.len(),
            forall|j: int| 0 <= j < idx ==> data@[j] != prefix,
        decreases data.len() - idx,
    {
        idx = idx + 1;
    }
    if idx == data.len() {
        return None;
    }
    let start: usize = idx + 1;
    if n > data.len() - start {
        return None;
    }
    let slice = vstd::slice::slice_subrange(data, start, start + n);
    assert(data@.index_of_first(prefix) == Some(idx as int));
    let mut i: usize = 0;
    while i < slice.len()
        invariant
            i <= slice.len(),
            start == idx + 1,
            start + n <= data@.len(),
            slice@ == data@.subrange(start as int, start + n),
            data@.index_of_first(prefix) == Some(idx as int),
            forall|j: int| 0 <= j < i ==> 48 <= #[trigger] slice@[j] <= 57,
        decreases slice.len() - i,
    {
        if slice[i] < 48 || slice[i] > 57 {
            assert(!all_digits(slice@));
            return None;
        }
        i = i + 1;
    }
    Some(slice)
}

/// A number cannot be smaller than the number its leading digits denote.
proof fn lemma_leading_digits(s: Seq<u8>, k: int)
    requires
        0 <= k <= s.len(),
        all_digits(s),
    ensures
        digits_value(s.take(k)) <= digits_value(s),
    decreases s.len(),
{
    if k == s.len() {
        assert(s.take(k) =~= s);
    } else {
        let t = s.drop_last();
        assert(all_digits(t)) by {
            assert forall|i: int| 0 <= i < t.len() implies 48 <= #[trigger] t[i] <= 57 by {
                assert(t[i] == s[i]);
            }
        }
        lemma_leading_digits(t, k);
        assert(t.take(k) =~= s.take(k));
    }
}

/// The number that the digits denote. `None` where there are none, one is no
/// digit, or the number does not fit.
pub fn parse_ascii_digits(s: &[u8]) -> (r: Option<u32>)
    ensures
        match r {
            Some(v) => s@.len() > 0 && all_digits(s@) && v == digits_value(s@),
            None => s@.len() == 0 || !all_digits(s@) || digits_value(s@) > u32::MAX,
        },
{
    if s.len() == 0 {
        return None;
    }
    let mut n: u32 = 0;
    let mut i: usize = 0;
    while i < s.len()
        invariant
            i <= s.len(),
            forall|j: int| 0 <= j < i ==> 48 <= #[trigger] s@[j] <= 57,
            n == digits_value(s@.take(i as int)),
        decreases s.len() - i,
    {
        let b: u8 = s[i];
        if b < 48 || b > 57 {
            return None;
        }
        let d: u32 = (b - 48) as u32;
        proof {
            assert(s@.take(i + 1).drop_last() =~= s@.take(i as int));
            assert(s@.take(i + 1).last() == b);
            assert(digits_value(s@.take(i + 1)) == n * 10 + d);
        }
        let wide: u64 = n as u64 * 10 + d as u64;
        if wide > u32::MAX as u64 {
            proof {
                if all_digits(s@) {
                    lemma_leading_digits(s@, i + 1);
                }
            }
            return None;
        }
        n = wide as u32;
        i = i + 1;
    }
    proof {
        assert(s@.take(i as int) =~= s@);
    }
    Some(n)
}

// ---------- Typed decoders ----------

/// `?01` reply — synth lock status. Wire: `A0` (unlocked) / `A1` (locked).
#[derive(Debug, Clone, Copy, PartialEq, Eq, Structural)]
pub struct SynthLock(pub bool);

impl SynthLock {
    pub open spec fn decoded(data: Seq<u8>) -> Option<SynthLock> {
        if data == seq!['A' as u8, '0' as u8] {
            Some(SynthLock(false))
        } else if data == seq!['A' as u8, '1' as u8] {
            Some(SynthLock(true))
        } else {
            None
        }
    }

    pub fn from_bytes(data: &[u8]) -> (r: Option<SynthLock>)
        ensures
            r == Self::decoded(data@),
    {
        if is_pair(data, 'A' as u8, '0' as u8) {
            Some(SynthLock(false))
        } else if is_pair(data, 'A' as u8, '1' as u8) {
            Some(SynthLock(true))
        } else {
            None
        }
    }
}

fn is_pair(data: &[u8], a: u8, b: u8) -> (r: bool)
    ensures
        r == (data@ == seq![a, b]),
{
    let pair: [u8; 2] = [a, b];
    assert(pair@ =~= seq![a, b]);
    bytes_eq(data, pair.as_slice())
}

/// `?03` reply — received signal strength. Wire: `Nxxx` with xxx 0-255.
#[derive(Debug, Clone, Copy, PartialEq, Eq, Structural)]
pub struct Rssi(pub u8);

impl Rssi {
    /// Readings above 255 saturate.
    pub open spec fn decoded(data: Seq<u8>) -> Option<Rssi> {
        if data.len() == 4 && data[0] == 'N' as u8 && all_digits(data.skip(1)) {
            let v = digits_value(data.skip(1));
            Some(
                Rssi(
                    if v > 255 {
                        255
                    } else {
                        v as u8
                    },
                ),
            )
        } else {
            None
        }
    }

    pub fn from_bytes(data: &[u8]) -> (r: Option<Rssi>)
        ensures
            r == Self::decoded(data@),
    {
        match strip_prefix(data, 'N' as u8) {
            None => None,
            Some(digits) => {
                if digits.len() != 3 {
                    return None;
                }
                proof {
                    if all_digits(digits@) {
                        lemma_digits_bound(digits@);
                    }
                }
                match parse_ascii_digits(digits) {
                    None => None,
                    Some(v) => {
                        if v > 255 {
                            Some(Rssi(255))
                        } else {
                            Some(Rssi(v as u8))
                        }
                    },
                }
            },
        }
    }
}

/// Up to seven digits denote a number below ten million.
proof fn lemma_digits_bound(s: Seq<u8>)
    requires
        all_digits(s),
        s.len() <= 7,
    ensures
        digits_value(s) < 10_000_000,
{
    lemma_digits_below(s);
    reveal_with_fuel(vstd::arithmetic::power::pow, 8);
    assert(vstd::arithmetic::power::pow(10, 7) == 10_000_000);
    vstd::arithmetic::power::lemma_pow_increases(10, s.len(), 7);
}

proof fn lemma_digits_below(s: Seq<u8>)
    requires
        all_digits(s),
    ensures
        digits_value(s) < vstd::arithmetic::power::pow(10, s.len()),
    decreases s.len(),
{
    reveal(vstd::arithmetic::power::pow);
    if s.len() > 0 {
        let t = s.drop_last();
        assert forall|i: int| 0 <= i < t.len() implies 48 <= #[trigger] t[i] <= 57 by {
            assert(t[i] == s[i]);
        }
        lemma_digits_below(t);
        let p = vstd::arithmetic::power::pow(10, t.len());
        assert(vstd::arithmetic::power::pow(10, s.len()) == 10 * p);
        assert(48 <= s[s.len() - 1] <= 57);
    }
}

/// `?12` reply — current operating mode. Wire: `*1`, `U0`, or `U1`.
#[derive(Debug, Clone, Copy, PartialEq, Eq, Structural)]
pub enum Mode {
    Receive,
    Transmit,
    Beacon,
}

impl Mode {
    pub open spec fn decoded(data: Seq<u8>) -> Option<Mode> {
        if data == seq!['U' as u8, '0' as u8] {
            Some(Mode::Receive)
        } else if data == seq!['U' as u8, '1' as u8] {
            Some(Mode::Transmit)
        } else if data == seq!['*' as u8, '1' as u8] {
            Some(Mode::Beacon)
        } else {
            None
        }
    }

    pub fn from_bytes(data: &[u8]) -> (r: Option<Mode>)
        ensures
            r == Self::decoded(data@),
    {
        if is_pair(data, 'U' as u8, '0' as u8) {
            Some(Mode::Receive)
        } else if is_pair(data, 'U' as u8, '1' as u8) {
            Some(Mode::Transmit)
        } else if is_pair(data, '*' as u8, '1' as u8) {
            Some(Mode::Beacon)
        } else {
            None
        }
    }
}

/// `?13` reply — squelch status. Wire: `[0` (closed) / `[1` (broken).
#[derive(Debug, Clone, Copy, PartialEq, Eq, Structural)]
pub enum SquelchStatus {
    Closed,
    Broken,
}

impl SquelchStatus {
    pub open spec fn decoded(data: Seq<u8>) -> Option<SquelchStatus> {
        if data == seq!['[' as u8, '0' as u8] {
            Some(SquelchStatus::Closed)
        } else if data == seq!['[' as u8, '1' as u8] {
            Some(SquelchStatus::Broken)
        } else {
            None
        }
    }

    pub fn from_bytes(data: &[u8]) -> (r: Option<SquelchStatus>)
        ensures
            r == Self::decoded(data@),
    {
        if is_pair(data, '[' as u8, '0' as u8) {
            Some(SquelchStatus::Closed)
        } else if is_pair(data, '[' as u8, '1' as u8) {
            Some(SquelchStatus::Broken)
        } else {
            None
        }
    }
}

/// `?10` reply — current preset snapshot. Wire: concatenated fields
///   `Txxxxxxx` (TX freq, 7 digits of 100 Hz units),
///   `Rxxxxxxx` (RX freq, likewise),
///   `Mx` (AM=0, FM=1 — both TX and RX),
///   `Nx` (AM=0, FM=1 — TX only),
///   `Cx` (scan-list member 0/1),
///   `Px` (preset number 0-9),
///   `#x` (power level 0/1/2).
///
/// Fields are found by prefix, in whatever order they come.
#[derive(Debug, Clone, Copy, PartialEq, Eq, Structural)]
pub struct PresetSnapshot {
    pub tx_hz: u32,
    pub rx_hz: u32,
    pub mod_tx_rx: ModMode,
    pub mod_tx_only: ModMode,
    pub on_scan_list: bool,
    pub preset: PresetId,
    pub power: PowerLevel,
}

/// What a [`PresetSnapshot`] stands for.
pub struct PresetView {
    pub tx_hz: u32,
    pub rx_hz: u32,
    pub mod_tx_rx: ModMode,
    pub mod_tx_only: ModMode,
    pub on_scan_list: bool,
    pub preset: u8,
    pub power: PowerLevel,
}

impl View for PresetSnapshot {
    type V = PresetView;

    open spec fn view(&self) -> PresetView {
        PresetView {
            tx_hz: self.tx_hz,
            rx_hz: self.rx_hz,
            mod_tx_rx: self.mod_tx_rx,
            mod_tx_only: self.mod_tx_only,
            on_scan_list: self.on_scan_list,
            preset: self.preset.number(),
            power: self.power,
        }
    }
}

/// Modulation by its digit.
pub open spec fn mod_of(d: u8) -> Option<ModMode> {
    if d == 0 {
        Some(ModMode::Am)
    } else if d == 1 {
        Some(ModMode::Fm)
    } else {
        None
    }
}

/// Transmitter power by its digit.
pub open spec fn power_of(d: u8) -> Option<PowerLevel> {
    if d == 0 {
        Some(PowerLevel::Lo)
    } else if d == 1 {
        Some(PowerLevel::Med)
    } else if d == 2 {
        Some(PowerLevel::Hi)
    } else {
        None
    }
}

/// Lamp level by its digit.
pub open spec fn lamp_of(d: u8) -> Option<LampLevel> {
    if d == 0 {
        Some(LampLevel::Off)
    } else if d == 1 {
        Some(LampLevel::Lo)
    } else if d == 2 {
        Some(LampLevel::Med)
    } else if d == 3 {
        Some(LampLevel::Hi)
    } else {
        None
    }
}

/// Text mode by its digit.
pub open spec fn text_of(d: u8) -> Option<TextMode> {
    if d == 0 {
        Some(TextMode::Pt)
    } else if d == 1 {
        Some(TextMode::Ct)
    } else {
        None
    }
}

fn mod_from(d: u8) -> (r: Option<ModMode>)
    ensures
        r == mod_of(d),
{
    match d {
        0 => Some(ModMode::Am),
        1 => Some(ModMode::Fm),
        _ => None,
    }
}

fn power_from(d: u8) -> (r: Option<PowerLevel>)
    ensures
        r == power_of(d),
{
    match d {
        0 => Some(PowerLevel::Lo),
        1 => Some(PowerLevel::Med),
        2 => Some(PowerLevel::Hi),
        _ => None,
    }
}

fn lamp_from(d: u8) -> (r: Option<LampLevel>)
    ensures
        r == lamp_of(d),
{
    match d {
        0 => Some(LampLevel::Off),
        1 => Some(LampLevel::Lo),
        2 => Some(LampLevel::Med),
        3 => Some(LampLevel::Hi),
        _ => None,
    }
}

fn text_from(d: u8) -> (r: Option<TextMode>)
    ensures
        r == text_of(d),
{
    match d {
        0 => Some(TextMode::Pt),
        1 => Some(TextMode::Ct),
        _ => None,
    }
}

fn digit_after(data: &[u8], prefix: u8) -> (r: Option<u8>)
    ensures
        r == digit_field(data@, prefix),
        r is Some ==> r->0 <= 9,
{
    match extract_digits_after(data, prefix, 1) {
        Some(s) => {
            assert(48 <= s@[0] <= 57);
            Some(s[0] - 48)
        },
        None => None,
    }
}

fn freq_after(data: &[u8], prefix: u8) -> (r: Option<u32>)
    ensures
        match r {
            Some(hz) => freq_field(data@, prefix) == Some(hz as nat),
            None => freq_field(data@, prefix) is None,
        },
{
    match extract_digits_after(data, prefix, 7) {
        Some(s) => {
            proof {
                lemma_digits_bound(s@);
            }
            match parse_ascii_digits(s) {
                Some(v) => Some(v * 100),
                None => None,
            }
        },
        None => None,
    }
}

impl PresetSnapshot {
    /// The snapshot that `data` holds: every field is there, and the
    /// modulation and power digits are ones that the radio uses.
    pub open spec fn decoded(data: Seq<u8>) -> Option<PresetView> {
        match (
            freq_field(data, 'T' as u8),
            freq_field(data, 'R' as u8),
            digit_field(data, 'M' as u8),
            digit_field(data, 'N' as u8),
            digit_field(data, 'C' as u8),
            digit_field(data, 'P' as u8),
            digit_field(data, '#' as u8),
        ) {
            (Some(tx), Some(rx), Some(m), Some(n), Some(c), Some(p), Some(w)) => {
                match (mod_of(m), mod_of(n), power_of(w)) {
                    (Some(mod_tx_rx), Some(mod_tx_only), Some(power)) => Some(
                        PresetView {
                            tx_hz: tx as u32,
                            rx_hz: rx as u32,
                            mod_tx_rx,
                            mod_tx_only,
                            on_scan_list: c == 1,
                            preset: p,
                            power,
                        },
                    ),
                    _ => None,
                }
            },
            _ => None,
        }
    }

    pub fn from_bytes(data: &[u8]) -> (r: Option<PresetSnapshot>)
        ensures
            match r {
                Some(s) => Self::decoded(data@) == Some(s@),
                None => Self::decoded(data@) is None,
            },
    {
        let tx: u32 = match freq_after(data, 'T' as u8) {
            Some(v) => v,
            None => return None,
        };
        let rx: u32 = match freq_after(data, 'R' as u8) {
            Some(v) => v,
            None => return None,
        };
        let m: u8 = match digit_after(data, 'M' as u8) {
            Some(v) => v,
            None => return None,
        };
        let n: u8 = match digit_after(data, 'N' as u8) {
            Some(v) => v,
            None => return None,
        };
        let c: u8 = match digit_after(data, 'C' as u8) {
            Some(v) => v,
            None => return None,
        };
        let p: u8 = match digit_after(data, 'P' as u8) {
            Some(v) => v,
            None => return None,
        };
        let w: u8 = match digit_after(data, '#' as u8) {
            Some(v) => v,
            None => return None,
        };
        match (mod_from(m), mod_from(n), PresetId::new(p), power_from(w)) {
            (Some(mod_tx_rx), Some(mod_tx_only), Some(preset), Some(power)) => Some(
                PresetSnapshot {
                    tx_hz: tx,
                    rx_hz: rx,
                    mod_tx_rx,
                    mod_tx_only,
                    on_scan_list: c == 1,
                    preset,
                    power,
                },
            ),
            _ => None,
        }
    }
}

/// `?11` reply — general status flags. Fields by prefix:
///   `X` — 0=PT, 1=CT
///   `J` — 0=speaker off, 1=on
///   `L` — 0=lamp off, 1=lo, 2=med, 3=hi
///   `d` — installed options: 0=none, 2=EBN-30, 4=EBN-400, 6=both
///   `F` — 0=temp OK, 1=overtemp
/// Three more digits, the options-extra byte, may follow; they are ignored.
#[derive(Debug, Clone, Copy, PartialEq, Eq, Structural)]
pub struct GeneralStatus {
    pub text_mode: TextMode,
    pub speaker_on: bool,
    pub lamp: LampLevel,
    pub options_byte: u8,
    pub overtemp: bool,
}

impl GeneralStatus {
    /// The status that `data` holds: every field is there, and the text-mode
    /// and lamp digits are ones that the radio uses.
    pub open spec fn decoded(data: Seq<u8>) -> Option<GeneralStatus> {
        match (
            digit_field(data, 'X' as u8),
            digit_field(data, 'J' as u8),
            digit_field(data, 'L' as u8),
            digit_field(data, 'd' as u8),
            digit_field(data, 'F' as u8),
        ) {
            (Some(x), Some(j), Some(l), Some(d), Some(f)) => {
                match (text_of(x), lamp_of(l)) {
                    (Some(text_mode), Some(lamp)) => Some(
                        GeneralStatus {
                            text_mode,
                            speaker_on: j == 1,
                            lamp,
                            options_byte: d,
                            overtemp: f == 1,
                        },
                    ),
                    _ => None,
                }
            },
            _ => None,
        }
    }

    pub fn from_bytes(data: &[u8]) -> (r: Option<GeneralStatus>)
        ensures
            r == Self::decoded(data@),
    {
        let x: u8 = match digit_after(data, 'X' as u8) {
            Some(v) => v,
            None => return None,
        };
        let j: u8 = match digit_after(data, 'J' as u8) {
            Some(v) => v,
            None => return None,
        };
        let l: u8 = match digit_after(data, 'L' as u8) {
            Some(v) => v,
            None => return None,
        };
        let d: u8 = match digit_after(data, 'd' as u8) {
            Some(v) => v,
            None => return None,
        };
        let f: u8 = match digit_after(data, 'F' as u8) {
            Some(v) => v,
            None => return None,
        };
        match (text_from(x), lamp_from(l)) {
            (Some(text_mode), Some(lamp)) => Some(
                GeneralStatus {
                    text_mode,
                    speaker_on: j == 1,
                    lamp,
                    options_byte: d,
                    overtemp: f == 1,
                },
            ),
            _ => None,
        }
    }

    /// Whether the EBN-30 option is installed.
    pub fn has_ebn30(&self) -> (r: bool)
        ensures
            r == (self.options_byte == 2 || self.options_byte == 6),
    {
        self.options_byte == 2 || self.options_byte == 6
    }

    /// Whether the EBN-400 option is installed.
    pub fn has_ebn400(&self) -> (r: bool)
        ensures
            r == (self.options_byte == 4 || self.options_byte == 6),
    {
        self.options_byte == 4 || self.options_byte == 6
    }
}

// ---------- What the radio sends is what is read ----------

/// The last `count` decimal digits of `n`, leading zeros kept.
pub open spec fn fixed_digits(n: nat, count: nat) -> Seq<u8>
    decreases count,
{
    if count == 0 {
        seq![]
    } else {
        fixed_digits(n / 10, (count - 1) as nat).push(ascii_digit((n % 10) as int))
    }
}

proof fn lemma_fixed_digits(n: nat, count: nat, bound: nat)
    requires
        n < bound,
        bound == vstd::arithmetic::power::pow(10, count),
    ensures
        fixed_digits(n, count).len() == count,
        all_digits(fixed_digits(n, count)),
        digits_value(fixed_digits(n, count)) == n,
    decreases count,
{
    reveal(vstd::arithmetic::power::pow);
    if count > 0 {
        let less = vstd::arithmetic::power::pow(10, (count - 1) as nat);
        assert(bound == 10 * less);
        lemma_fixed_digits(n / 10, (count - 1) as nat, less as nat);
        let s = fixed_digits(n, count);
        let front = fixed_digits(n / 10, (count - 1) as nat);
        assert(s.drop_last() =~= front);
        assert forall|i: int| 0 <= i < s.len() implies 48 <= #[trigger] s[i] <= 57 by {
            if i < front.len() {
                assert(s[i] == front[i]);
            }
        }
    }
}

/// A signal strength reads back as the radio sent it.
pub proof fn law_rssi_read_back(level: u8)
    ensures
        Rssi::decoded(seq!['N' as u8] + fixed_digits(level as nat, 3)) == Some(Rssi(level)),
{
    reveal_with_fuel(vstd::arithmetic::power::pow, 4);
    assert(vstd::arithmetic::power::pow(10, 3) == 1000);
    lemma_fixed_digits(level as nat, 3, 1000);
    let data = seq!['N' as u8] + fixed_digits(level as nat, 3);
    assert(data.skip(1) =~= fixed_digits(level as nat, 3));
}

/// The fields of a preset snapshot as the radio sends them.
pub open spec fn preset_fields(s: PresetView) -> Seq<(u8, Seq<u8>)> {
    seq![
        ('T' as u8, fixed_digits((s.tx_hz / 100) as nat, 7)),
        ('R' as u8, fixed_digits((s.rx_hz / 100) as nat, 7)),
        ('M' as u8, seq![s.mod_tx_rx.code()]),
        ('N' as u8, seq![s.mod_tx_only.code()]),
        ('C' as u8, seq![
            if s.on_scan_list {
                '1' as u8
            } else {
                '0' as u8
            },
        ]),
        ('P' as u8, seq![ascii_digit(s.preset as int)]),
        ('#' as u8, seq![s.power.code()]),
    ]
}

/// A preset snapshot reads back as the radio sent it, in whatever order the
/// fields come. Frequencies are sent in units of 100 Hz and seven digits.
pub proof fn law_preset_read_back(s: PresetView, order: Seq<(u8, Seq<u8>)>)
    requires
        s.preset <= 9,
        s.tx_hz % 100 == 0 && s.tx_hz < 1_000_000_000,
        s.rx_hz % 100 == 0 && s.rx_hz < 1_000_000_000,
        proper_fields(order),
        forall|x: (u8, Seq<u8>)| order.contains(x) <==> preset_fields(s).contains(x),
    ensures
        PresetSnapshot::decoded(payload(order)) == Some(s),
{
    let fs = preset_fields(s);
    reveal_with_fuel(vstd::arithmetic::power::pow, 8);
    assert(vstd::arithmetic::power::pow(10, 7) == 10_000_000);
    lemma_fixed_digits((s.tx_hz / 100) as nat, 7, 10_000_000);
    lemma_fixed_digits((s.rx_hz / 100) as nat, 7, 10_000_000);
    assert forall|i: int| 0 <= i < fs.len() implies !(48 <= (#[trigger] fs[i]).0 <= 57)
        && all_digits(fs[i].1) by {}
    assert(proper_fields(fs));
    law_field_order(order, fs);
    law_field_found(fs, 0, 7);
    law_field_found(fs, 1, 7);
    law_field_found(fs, 2, 1);
    law_field_found(fs, 3, 1);
    law_field_found(fs, 4, 1);
    law_field_found(fs, 5, 1);
    law_field_found(fs, 6, 1);
    assert(fs[0].1.take(7) =~= fs[0].1);
    assert(fs[1].1.take(7) =~= fs[1].1);
    let got = PresetSnapshot::decoded(payload(fs))->0;
    assert(got.tx_hz == s.tx_hz && got.rx_hz == s.rx_hz);
    assert(got.mod_tx_rx == s.mod_tx_rx && got.mod_tx_only == s.mod_tx_only);
    assert(got.on_scan_list == s.on_scan_list && got.preset == s.preset && got.power == s.power);
}

/// The fields of a general status as the radio sends them; `extra` are the
/// digits of the options-extra byte behind the last.
pub open spec fn general_fields(g: GeneralStatus, extra: Seq<u8>) -> Seq<(u8, Seq<u8>)> {
    seq![
        ('X' as u8, seq![g.text_mode.code()]),
        ('J' as u8, seq![
            if g.speaker_on {
                '1' as u8
            } else {
                '0' as u8
            },
        ]),
        ('L' as u8, seq![g.lamp.code()]),
        ('d' as u8, seq![ascii_digit(g.options_byte as int)]),
        ('F' as u8, seq![
            if g.overtemp {
                '1' as u8
            } else {
                '0' as u8
            },
        ] + extra),
    ]
}

/// A general status reads back as the radio sent it, in whatever order the
/// fields come.
pub proof fn law_general_read_back(g: GeneralStatus, extra: Seq<u8>, order: Seq<(u8, Seq<u8>)>)
    requires
        g.options_byte <= 9,
        all_digits(extra),
        proper_fields(order),
        forall|x: (u8, Seq<u8>)| order.contains(x) <==> general_fields(g, extra).contains(x),
    ensures
        GeneralStatus::decoded(payload(order)) == Some(g),
{
    let fs = general_fields(g, extra);
    assert(all_digits(fs[4].1)) by {
        let s = fs[4].1;
        assert forall|i: int| 0 <= i < s.len() implies 48 <= #[trigger] s[i] <= 57 by {
            if i > 0 {
                assert(s[i] == extra[i - 1]);
            }
        }
    }
    assert forall|i: int| 0 <= i < fs.len() implies !(48 <= (#[trigger] fs[i]).0 <= 57)
        && all_digits(fs[i].1) by {}
    assert(proper_fields(fs));
    law_field_order(order, fs);
    law_field_found(fs, 0, 1);
    law_field_found(fs, 1, 1);
    law_field_found(fs, 2, 1);
    law_field_found(fs, 3, 1);
    law_field_found(fs, 4, 1);
}

/// The replies of one letter and one digit: what each means, and that nothing
/// else means anything.
pub proof fn law_flag_replies(data: Seq<u8>)
    ensures
        ({
            let is = |a: u8, b: u8| data.len() == 2 && data[0] == a && data[1] == b;
            &&& SynthLock::decoded(data) == Some(SynthLock(true)) <==> is('A' as u8, '1' as u8)
            &&& SynthLock::decoded(data) == Some(SynthLock(false)) <==> is('A' as u8, '0' as u8)
            &&& Mode::decoded(data) == Some(Mode::Receive) <==> is('U' as u8, '0' as u8)
            &&& Mode::decoded(data) == Some(Mode::Transmit) <==> is('U' as u8, '1' as u8)
            &&& Mode::decoded(data) == Some(Mode::Beacon) <==> is('*' as u8, '1' as u8)
            &&& SquelchStatus::decoded(data) == Some(SquelchStatus::Closed) <==> is(
                '[' as u8,
                '0' as u8,
            )
            &&& SquelchStatus::decoded(data) == Some(SquelchStatus::Broken) <==> is(
                '[' as u8,
                '1' as u8,
            )
        }),
{
    if data.len() == 2 {
        assert(data =~= seq![data[0], data[1]]);
    }
}

/// A signal strength is `N` and three digits, which denote it; what they denote
/// beyond 255 counts as 255; nothing else is one.
pub proof fn law_rssi_reading(data: Seq<u8>)
    ensures
        ({
            let proper = data.len() == 4 && data[0] == 'N' as u8 && 48 <= data[1] <= 57 && 48
                <= data[2] <= 57 && 48 <= data[3] <= 57;
            let v = 100 * (data[1] - 48) + 10 * (data[2] - 48) + (data[3] - 48);
            &&& Rssi::decoded(data) is Some <==> proper
            &&& proper ==> Rssi::decoded(data) == Some(
                Rssi(
                    if v > 255 {
                        255u8
                    } else {
                        v as u8
                    },
                ),
            )
        }),
{
    if data.len() == 4 {
        let d = data.skip(1);
        assert(d[0] == data[1] && d[1] == data[2] && d[2] == data[3]);
        reveal_with_fuel(digits_value, 4);
        assert(d.drop_last() =~= seq![d[0], d[1]]);
        assert(d.drop_last().drop_last() =~= seq![d[0]]);
        assert(d.drop_last().drop_last().drop_last() =~= seq![]);
        if Rssi::decoded(data) is Some {
            assert(48 <= d[0] <= 57 && 48 <= d[1] <= 57 && 48 <= d[2] <= 57);
        }
    }
}

/// An inquiry is `?` and two digits, which denote the number that the radio
/// knows it by.
pub proof fn law_inquiry_digits(k: Inquiry)
    ensures
        k.wire().len() == 3,
        k.wire()[0] == '?' as u8,
        10 * (k.wire()[1] - 48) + (k.wire()[2] - 48) == k.number(),
        k.number() == match k {
            Inquiry::SynthLock => 1u8,
            Inquiry::ScanDetect => 2,
            Inquiry::Rssi => 3,
            Inquiry::CalStatus => 4,
            Inquiry::PowerRails => 5,
            Inquiry::VFwd => 6,
            Inquiry::VRfd => 7,
            Inquiry::SwVersion => 8,
            Inquiry::SquelchLevel => 9,
            Inquiry::PresetSnapshot => 10,
            Inquiry::GeneralStatus => 11,
            Inquiry::Mode => 12,
            Inquiry::SquelchStatus => 13,
            Inquiry::WarpValue => 14,
            Inquiry::PowerTable => 16,
            Inquiry::TuningFilter => 17,
            Inquiry::Tone3090 => 19,
            Inquiry::AviationMode => 89,
            Inquiry::RxFilterBw => 90,
            Inquiry::Debug => 99,
        },
{
}

/// A preset snapshot is read from under its letters: the transmit frequency from
/// the seven digits behind the first `T`, the receive frequency from those
/// behind the first `R`, both in units of 100 Hz, and the rest from the digit
/// behind its letter. A snapshot that lacks one of them, or has a digit without
/// a meaning, is none.
pub proof fn law_preset_letters(data: Seq<u8>)
    ensures
        ({
            let digit = |letter: char| field(data, letter as u8, 1)->0[0];
            let there = |letter: char, n: nat| field(data, letter as u8, n) is Some;
            let whole = there('T', 7) && there('R', 7) && there('M', 1) && there('N', 1) && there(
                'C',
                1,
            ) && there('P', 1) && there('#', 1);
            let known = digit('M') <= 49 && digit('N') <= 49 && digit('#') <= 50;
            &&& PresetSnapshot::decoded(data) is Some <==> whole && known
            &&& PresetSnapshot::decoded(data) matches Some(s) ==> {
                &&& s.tx_hz == 100 * digits_value(field(data, 'T' as u8, 7)->0)
                &&& s.rx_hz == 100 * digits_value(field(data, 'R' as u8, 7)->0)
                &&& s.mod_tx_rx == (if digit('M') == 48 {
                    ModMode::Am
                } else {
                    ModMode::Fm
                })
                &&& s.mod_tx_only == (if digit('N') == 48 {
                    ModMode::Am
                } else {
                    ModMode::Fm
                })
                &&& s.on_scan_list <==> digit('C') == 49
                &&& 48 + s.preset == digit('P')
                &&& s.power == (if digit('#') == 48 {
                    PowerLevel::Lo
                } else if digit('#') == 49 {
                    PowerLevel::Med
                } else {
                    PowerLevel::Hi
                })
            }
        }),
{
    lemma_field_digits(data, 'T' as u8, 7);
    lemma_field_digits(data, 'R' as u8, 7);
    lemma_field_digits(data, 'M' as u8, 1);
    lemma_field_digits(data, 'N' as u8, 1);
    lemma_field_digits(data, 'C' as u8, 1);
    lemma_field_digits(data, 'P' as u8, 1);
    lemma_field_digits(data, '#' as u8, 1);
}

/// A general status is read from the digits behind its letters.
pub proof fn law_general_letters(data: Seq<u8>)
    ensures
        ({
            let digit = |letter: char| field(data, letter as u8, 1)->0[0];
            let there = |letter: char| field(data, letter as u8, 1) is Some;
            let whole = there('X') && there('J') && there('L') && there('d') && there('F');
            let known = digit('X') <= 49 && digit('L') <= 51;
            &&& GeneralStatus::decoded(data) is Some <==> whole && known
            &&& GeneralStatus::decoded(data) matches Some(g) ==> {
                &&& g.text_mode == (if digit('X') == 48 {
                    TextMode::Pt
                } else {
                    TextMode::Ct
                })
                &&& g.speaker_on <==> digit('J') == 49
                &&& g.lamp == (if digit('L') == 48 {
                    LampLevel::Off
                } else if digit('L') == 49 {
                    LampLevel::Lo
                } else if digit('L') == 50 {
                    LampLevel::Med
                } else {
                    LampLevel::Hi
                })
                &&& 48 + g.options_byte == digit('d')
                &&& g.overtemp <==> digit('F') == 49
            }
        }),
{
    lemma_field_digits(data, 'X' as u8, 1);
    lemma_field_digits(data, 'J' as u8, 1);
    lemma_field_digits(data, 'L' as u8, 1);
    lemma_field_digits(data, 'd' as u8, 1);
    lemma_field_digits(data, 'F' as u8, 1);
}

/// What is found behind a letter stands right behind the letter's first place,
/// has the length asked for, and is all digits.
proof fn lemma_field_digits(data: Seq<u8>, prefix: u8, n: nat)
    requires
        0 < n <= 7,
    ensures
        field(data, prefix, n) matches Some(s) ==> s.len() == n && all_digits(s) && 48 <= s[0] <= 57
            && digits_value(s) < 10_000_000,
{
    data.index_of_first_ensures(prefix);
    if let Some(s) = field(data, prefix, n) {
        lemma_digits_bound(s);
    }
}

/// What is found behind a letter: it stands right behind the first place where
/// the letter is, and is so many digits long; nothing is found only where the
/// letter is missing or fewer digits stand there.
pub proof fn law_field_place(data: Seq<u8>, prefix: u8, n: nat, i: int)
    requires
        0 <= i < data.len(),
        data[i] == prefix,
        forall|j: int| 0 <= j < i ==> data[j] != prefix,
    ensures
        ({
            let fits = i + 1 + n <= data.len() && forall|k: int|
                i < k <= i + n ==> 48 <= #[trigger] data[k] <= 57;
            field(data, prefix, n) == (if fits {
                Some(data.subrange(i + 1, i + 1 + n))
            } else {
                None
            })
        }),
{
    data.index_of_first_ensures(prefix);
    assert(data.index_of_first(prefix) == Some(i));
    if i + 1 + n <= data.len() {
        let s = data.subrange(i + 1, i + 1 + n);
        if all_digits(s) {
            assert forall|k: int| i < k <= i + n implies 48 <= #[trigger] data[k] <= 57 by {
                assert(s[k - i - 1] == data[k]);
            }
        } else if forall|k: int| i < k <= i + n ==> 48 <= #[trigger] data[k] <= 57 {
            assert forall|k: int| 0 <= k < s.len() implies 48 <= #[trigger] s[k] <= 57 by {
                assert(s[k] == data[i + 1 + k]);
            }
        }
    }
}

} // verus!
