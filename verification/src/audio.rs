//! Audio frames: channel counts, sample bytes, and the tone settings.
use vstd::prelude::*;
use crate::single::{encodable_tone, is_encodable_tone, Single};

verus! {

/// Desired sample rate; the device may settle for another.
pub const PREFERRED_SAMPLE_RATE: u32 = 48_000;

pub const CHANNELS: u32 = 1;

/// Target length of a period in milliseconds.
pub const PERIOD_MS: u32 = 10;

/// The sample rate that a client is told.
pub open spec fn told_rate(actual: u32) -> u32 {
    if actual > 0 {
        actual
    } else {
        PREFERRED_SAMPLE_RATE
    }
}

/// The sample rate that a client is told: the device's, or the preferred one
/// while that is not known.
pub fn announced_rate(actual: u32) -> (r: u32)
    ensures
        r == told_rate(actual),
{
    if actual > 0 {
        actual
    } else {
        PREFERRED_SAMPLE_RATE
    }
}

/// The number of frames in a period.
pub open spec fn frames_in_period(rate: u32) -> int {
    rate * PERIOD_MS / 1000
}

/// The number of frames in a period.
pub fn period_frames(rate: u32) -> (r: u32)
    requires
        rate * PERIOD_MS <= u32::MAX,
    ensures
        r == frames_in_period(rate),
{
    rate * PERIOD_MS / 1000
}

// ---------- Channels ----------

/// The sum of samples.
pub open spec fn total(s: Seq<i16>) -> int
    decreases s.len(),
{
    if s.len() == 0 {
        0
    } else {
        total(s.drop_last()) + s.last()
    }
}

/// The mean of samples, rounded towards zero.
pub open spec fn mean(s: Seq<i16>) -> int {
    if total(s) >= 0 {
        total(s) / s.len() as int
    } else {
        -((-total(s)) / s.len() as int)
    }
}

/// The samples of a frame.
pub open spec fn frame_of(data: Seq<i16>, channels: int, i: int) -> Seq<i16> {
    data.subrange(i * channels, (i + 1) * channels)
}

/// One channel out of interleaved ones: the mean of each whole frame.
pub open spec fn mono(data: Seq<i16>, channels: int) -> Seq<i16> {
    Seq::new(
        (data.len() / channels as nat) as nat,
        |i: int| mean(frame_of(data, channels, i)) as i16,
    )
}

proof fn lemma_total_bound(s: Seq<i16>)
    ensures
        -32768 * s.len() <= total(s) <= 32767 * s.len(),
    decreases s.len(),
{
    if s.len() > 0 {
        lemma_total_bound(s.drop_last());
    }
}

proof fn lemma_mean_bound(s: Seq<i16>)
    requires
        s.len() > 0,
    ensures
        -32768 <= mean(s) <= 32767,
{
    lemma_total_bound(s);
    let n = s.len() as int;
    let t = total(s);
    if t >= 0 {
        assert(0 <= t / n <= 32767) by (nonlinear_arith)
            requires
                0 <= t <= 32767 * n,
                n > 0,
        ;
    } else {
        assert(0 <= (-t) / n <= 32768) by (nonlinear_arith)
            requires
                0 <= -t <= 32768 * n,
                n > 0,
        ;
    }
}

fn frame_mean(data: &[i16], start: usize, channels: usize) -> (r: i16)
    requires
        0 < channels <= 65536,
        start + channels <= data@.len(),
    ensures
        r == mean(data@.subrange(start as int, start + channels)),
{
    let ghost frame = data@.subrange(start as int, start + channels);
    let len: usize = data.len();
    let mut sum: i64 = 0;
    let mut k: usize = 0;
    while k < channels
        invariant
            k <= channels <= 65536,
            start + channels <= data@.len(),
            len == data@.len(),
            frame == data@.subrange(start as int, start + channels),
            sum == total(frame.take(k as int)),
            -32768 * k <= sum <= 32767 * k,
        decreases channels - k,
    {
        proof {
            assert(frame.take(k + 1).drop_last() =~= frame.take(k as int));
            assert(frame.take(k + 1).last() == data@[start + k]);
        }
        sum = sum + data[start + k] as i64;
        k = k + 1;
    }
    proof {
        assert(frame.take(k as int) =~= frame);
        lemma_mean_bound(frame);
    }
    if sum >= 0 {
        (sum as u64 / channels as u64) as i16
    } else {
        let q: u64 = (-sum) as u64 / channels as u64;
        (-(q as i64)) as i16
    }
}

/// Mix interleaved channels down to one. Samples behind the last whole frame
/// are dropped.
pub fn downmix(data: &[i16], channels: usize) -> (r: Vec<i16>)
    requires
        0 < channels <= 65536,
    ensures
        r@ == mono(data@, channels as int),
{
    let mut out: Vec<i16> = Vec::new();
    let len: usize = data.len();
    let frames: usize = len / channels;
    let mut i: usize = 0;
    while i < frames
        invariant
            0 < channels <= 65536,
            i <= frames,
            len == data@.len(),
            frames == data@.len() / channels as nat,
            out@ == mono(data@, channels as int).take(i as int),
        decreases frames - i,
    {
        proof {
            assert((i + 1) * channels <= frames * channels <= data@.len()) by (nonlinear_arith)
                requires
                    i < frames,
                    frames == data@.len() / channels as nat,
                    channels > 0,
            ;
            assert(i * channels + channels == (i + 1) * channels) by (nonlinear_arith);
            assert(0 <= i * channels) by (nonlinear_arith);
        }
        let m: i16 = frame_mean(data, i * channels, channels);
        out.push(m);
        assert(out@ =~= mono(data@, channels as int).take(i + 1));
        i = i + 1;
    }
    assert(mono(data@, channels as int).take(i as int) =~= mono(data@, channels as int));
    out
}

/// Every sample once for each channel.
pub open spec fn spread(data: Seq<i16>, channels: nat) -> Seq<i16>
    decreases data.len(),
{
    if data.len() == 0 {
        seq![]
    } else {
        spread(data.drop_last(), channels) + Seq::new(channels, |k: int| data.last())
    }
}

/// Expand one channel to as many as the device has.
pub fn expand(data: &[i16], channels: usize) -> (r: Vec<i16>)
    ensures
        r@ == spread(data@, channels as nat),
{
    let mut out: Vec<i16> = Vec::new();
    let mut i: usize = 0;
    assert(data@.take(0) =~= seq![]);
    while i < data.len()
        invariant
            i <= data@.len(),
            out@ == spread(data@.take(i as int), channels as nat),
        decreases data.len() - i,
    {
        let s: i16 = data[i];
        let ghost before = out@;
        let mut k: usize = 0;
        while k < channels
            invariant
                k <= channels,
                out@ == before + Seq::new(k as nat, |j: int| s),
            decreases channels - k,
        {
            out.push(s);
            assert(out@ =~= before + Seq::new((k + 1) as nat, |j: int| s));
            k = k + 1;
        }
        proof {
            assert(data@.take(i + 1).drop_last() =~= data@.take(i as int));
            assert(data@.take(i + 1).last() == s);
            assert(Seq::new(channels as nat, |j: int| s) =~= Seq::new(
                channels as nat,
                |j: int| data@.take(i + 1).last(),
            ));
        }
        i = i + 1;
    }
    assert(data@.take(i as int) =~= data@);
    out
}

/// Where a sample and its copies are in an expanded stream.
proof fn lemma_spread(data: Seq<i16>, channels: nat, i: int, k: int)
    requires
        0 <= i < data.len(),
        0 <= k < channels,
    ensures
        spread(data, channels).len() == data.len() * channels,
        i * channels + k < spread(data, channels).len(),
        spread(data, channels)[i * channels + k] == data[i],
    decreases data.len(),
{
    let front = data.drop_last();
    lemma_spread_len(data, channels);
    lemma_spread_len(front, channels);
    assert(front.len() * channels + channels == data.len() * channels) by (nonlinear_arith)
        requires
            front.len() == data.len() - 1,
    ;
    if i < front.len() {
        lemma_spread(front, channels, i, k);
        assert(i * channels + k < front.len() * channels) by (nonlinear_arith)
            requires
                i < front.len(),
                0 <= k < channels,
        ;
    } else {
        assert(i == front.len());
    }
}

proof fn lemma_spread_len(data: Seq<i16>, channels: nat)
    ensures
        spread(data, channels).len() == data.len() * channels,
    decreases data.len(),
{
    if data.len() > 0 {
        let front = data.drop_last();
        lemma_spread_len(front, channels);
        assert(front.len() * channels + channels == data.len() * channels) by (nonlinear_arith)
            requires
                front.len() == data.len() - 1,
        ;
    }
}

/// Expanding and mixing down again gives the samples back.
pub proof fn law_expand_then_downmix(data: Seq<i16>, channels: nat)
    requires
        0 < channels,
    ensures
        mono(spread(data, channels), channels as int) == data,
{
    let s = spread(data, channels);
    lemma_spread_len(data, channels);
    assert(s.len() / channels == data.len()) by (nonlinear_arith)
        requires
            s.len() == data.len() * channels,
            channels > 0,
    ;
    assert forall|i: int| 0 <= i < data.len() implies #[trigger] mono(s, channels as int)[i]
        == data[i] by {
        let f = frame_of(s, channels as int, i);
        assert((i + 1) * channels <= data.len() * channels) by (nonlinear_arith)
            requires
                i < data.len(),
        ;
        assert(i * channels + channels == (i + 1) * channels) by (nonlinear_arith);
        assert(0 <= i * channels) by (nonlinear_arith)
            requires
                0 <= i,
        ;
        assert(f.len() == channels);
        assert forall|k: int| 0 <= k < channels implies #[trigger] f[k] == data[i] by {
            lemma_spread(data, channels, i, k);
        }
        lemma_constant_mean(f, data[i]);
    }
    assert(mono(s, channels as int) =~= data);
}

proof fn lemma_constant_mean(f: Seq<i16>, v: i16)
    requires
        f.len() > 0,
        forall|k: int| 0 <= k < f.len() ==> #[trigger] f[k] == v,
    ensures
        mean(f) == v,
{
    lemma_constant_total(f, v);
    let n = f.len() as int;
    let w = v as int;
    if total(f) >= 0 {
        assert(w * n / n == w) by (nonlinear_arith)
            requires
                n > 0,
        ;
    } else {
        assert(-(w * n) == (-w) * n) by (nonlinear_arith);
        assert((-w) * n / n == -w) by (nonlinear_arith)
            requires
                n > 0,
        ;
    }
}

proof fn lemma_constant_total(f: Seq<i16>, v: i16)
    requires
        forall|k: int| 0 <= k < f.len() ==> #[trigger] f[k] == v,
    ensures
        total(f) == v * f.len(),
    decreases f.len(),
{
    if f.len() > 0 {
        let t = f.drop_last();
        assert forall|k: int| 0 <= k < t.len() implies #[trigger] t[k] == v by {
            assert(t[k] == f[k]);
        }
        lemma_constant_total(t, v);
        assert(f[f.len() - 1] == v);
        assert(v * t.len() + v == v * f.len()) by (nonlinear_arith)
            requires
                t.len() == f.len() - 1,
        ;
    }
}

// ---------- Sample bytes ----------

/// A sample as an unsigned number of two bytes.
pub open spec fn two_bytes(s: i16) -> int {
    if s >= 0 {
        s as int
    } else {
        s + 65536
    }
}

/// The sample of two bytes, the lower one first.
pub open spec fn sample_of(lo: u8, hi: u8) -> i16 {
    let u = lo as int + 256 * hi as int;
    (if u < 32768 {
        u
    } else {
        u - 65536
    }) as i16
}

/// Samples as bytes, the lower one first.
pub open spec fn sample_bytes(s: Seq<i16>) -> Seq<u8> {
    Seq::new(
        2 * s.len(),
        |i: int|
            if i % 2 == 0 {
                (two_bytes(s[i / 2]) % 256) as u8
            } else {
                (two_bytes(s[i / 2]) / 256) as u8
            },
    )
}

/// The samples of bytes.
pub open spec fn byte_samples(b: Seq<u8>) -> Seq<i16> {
    Seq::new(b.len() / 2, |i: int| sample_of(b[2 * i], b[2 * i + 1]))
}

/// Samples as bytes, the lower one first.
pub fn to_le_bytes(samples: &[i16]) -> (r: Vec<u8>)
    ensures
        r@ == sample_bytes(samples@),
{
    let mut out: Vec<u8> = Vec::new();
    let mut i: usize = 0;
    while i < samples.len()
        invariant
            i <= samples@.len(),
            out@ == sample_bytes(samples@).take(2 * i),
        decreases samples.len() - i,
    {
        let s: i32 = samples[i] as i32;
        let u: u32 = if s >= 0 {
            s as u32
        } else {
            (s + 65536) as u32
        };
        out.push((u % 256) as u8);
        out.push((u / 256) as u8);
        assert(out@ =~= sample_bytes(samples@).take(2 * (i + 1)));
        i = i + 1;
    }
    assert(sample_bytes(samples@).take(2 * i) =~= sample_bytes(samples@));
    out
}

/// The samples of a client's frame. A frame that is empty or ends in the middle
/// of a sample is ignored.
pub fn from_le_bytes(bytes: &[u8]) -> (r: Option<Vec<i16>>)
    ensures
        match r {
            Some(v) => bytes@.len() > 0 && bytes@.len() % 2 == 0 && v@ == byte_samples(bytes@),
            None => bytes@.len() == 0 || bytes@.len() % 2 != 0,
        },
{
    if bytes.len() == 0 || bytes.len() % 2 != 0 {
        return None;
    }
    let mut out: Vec<i16> = Vec::new();
    let len: usize = bytes.len();
    let n: usize = len / 2;
    let mut i: usize = 0;
    while i < n
        invariant
            i <= n,
            len == bytes@.len(),
            n == bytes@.len() / 2,
            out@ == byte_samples(bytes@).take(i as int),
        decreases n - i,
    {
        let u: i32 = bytes[2 * i] as i32 + 256 * bytes[2 * i + 1] as i32;
        let s: i32 = if u < 32768 {
            u
        } else {
            u - 65536
        };
        out.push(s as i16);
        assert(out@ =~= byte_samples(bytes@).take(i + 1));
        i = i + 1;
    }
    assert(byte_samples(bytes@).take(i as int) =~= byte_samples(bytes@));
    Some(out)
}

/// Samples survive the trip as bytes, and so do bytes the trip as samples.
pub proof fn law_sample_bytes_round_trip(s: Seq<i16>, b: Seq<u8>)
    requires
        b.len() % 2 == 0,
    ensures
        byte_samples(sample_bytes(s)) == s,
        sample_bytes(byte_samples(b)) == b,
{
    assert(byte_samples(sample_bytes(s)) =~= s);
    assert(sample_bytes(byte_samples(b)) =~= b);
}

// ---------- Tone ----------

/// A sample with a tone's value added, within the range of a sample.
pub open spec fn mixed(sample: i16, tone: i32) -> int {
    if sample + tone > 32767 {
        32767
    } else if sample + tone < -32768 {
        -32768
    } else {
        sample + tone
    }
}

/// Add a tone's value to a sample, within the range of a sample.
pub fn mix_sample(sample: i16, tone: i32) -> (r: i16)
    ensures
        r == mixed(sample, tone),
{
    let sum: i64 = sample as i64 + tone as i64;
    if sum > 32767 {
        32767
    } else if sum < -32768 {
        -32768
    } else {
        sum as i16
    }
}

/// Whether samples are others with a tone added, value by value.
pub open spec fn tone_added(samples: Seq<i16>, tones: Seq<i32>, r: Seq<i16>) -> bool {
    &&& r.len() == samples.len()
    &&& forall|i: int|
        0 <= i < samples.len() ==> #[trigger] r[i] == (if i < tones.len() {
            mixed(samples[i], tones[i])
        } else {
            samples[i] as int
        })
}

/// Add a tone to samples, value by value. Samples behind the end of the tone
/// stay as they are.
pub fn mix_tone(samples: &[i16], tones: &[i32]) -> (r: Vec<i16>)
    ensures
        tone_added(samples@, tones@, r@),
{
    let mut out: Vec<i16> = Vec::with_capacity(samples.len());
    let mut i: usize = 0;
    while i < samples.len()
        invariant
            i <= samples@.len(),
            out@.len() == i,
            forall|j: int|
                0 <= j < i ==> #[trigger] out@[j] == (if j < tones@.len() {
                    mixed(samples@[j], tones@[j])
                } else {
                    samples@[j] as int
                }),
        decreases samples@.len() - i,
    {
        if i < tones.len() {
            out.push(mix_sample(samples[i], tones[i]));
        } else {
            out.push(samples[i]);
        }
        i = i + 1;
    }
    out
}

/// A tone's frequency: in Hz, and in hundredths of a Hz.
#[derive(Debug, Clone, Copy, PartialEq, Eq, Structural)]
pub struct Tone {
    pub hz: Single,
    pub centihz: u32,
}

/// Settings of the tone that is mixed into outgoing audio. A tone is about a
/// tenth of full scale unless set otherwise.
#[derive(Debug, Clone, Copy, PartialEq, Eq, Structural)]
pub struct CtcssMixer {
    enabled: bool,
    freq_centihz: u32,
    amplitude: u16,
}

/// What a [`CtcssMixer`] stands for.
pub struct MixerView {
    pub enabled: bool,
    pub freq_centihz: u32,
    pub amplitude: u16,
}

impl View for CtcssMixer {
    type V = MixerView;

    closed spec fn view(&self) -> MixerView {
        MixerView {
            enabled: self.enabled,
            freq_centihz: self.freq_centihz,
            amplitude: self.amplitude,
        }
    }
}

/// The settings once a tone, or none, is asked for.
pub open spec fn tone_switched(m: MixerView, tone: Option<Tone>) -> MixerView {
    match tone {
        Some(t) => if encodable_tone(t.hz) {
            MixerView { enabled: true, freq_centihz: t.centihz, ..m }
        } else {
            MixerView { enabled: false, ..m }
        },
        None => MixerView { enabled: false, ..m },
    }
}

/// The settings once an amplitude is asked for.
pub open spec fn amplitude_set(m: MixerView, amp: u16) -> MixerView {
    MixerView {
        amplitude: if amp > 32767 {
            32767
        } else {
            amp
        },
        ..m
    }
}

impl CtcssMixer {
    /// The amplitude is never beyond full scale.
    #[verifier::type_invariant]
    pub closed spec fn in_scale(self) -> bool {
        self.amplitude <= 32767
    }

    pub fn new() -> (r: CtcssMixer)
        ensures
            r@ == (MixerView { enabled: false, freq_centihz: 0, amplitude: 3200 }),
    {
        CtcssMixer { enabled: false, freq_centihz: 0, amplitude: 3200 }
    }

    /// Switch the tone on, or off where there is none or it cannot be encoded.
    pub fn set(&mut self, tone: Option<Tone>)
        ensures
            final(self)@ == tone_switched(old(self)@, tone),
    {
        proof {
            use_type_invariant(&*self);
        }
        match tone {
            Some(t) => {
                if is_encodable_tone(t.hz) {
                    self.freq_centihz = t.centihz;
                    self.enabled = true;
                } else {
                    self.enabled = false;
                }
            },
            None => {
                self.enabled = false;
            },
        }
    }

    pub fn set_amplitude(&mut self, amp: u16)
        ensures
            final(self)@ == amplitude_set(old(self)@, amp),
    {
        self.amplitude = if amp > 32767 {
            32767
        } else {
            amp
        };
    }

    /// Whether the tone is on, its frequency in hundredths of a Hz, and its
    /// amplitude.
    pub fn get(&self) -> (r: (bool, u32, u16))
        ensures
            r == (self@.enabled, self@.freq_centihz, self@.amplitude),
            r.2 <= 32767,
    {
        proof {
            use_type_invariant(self);
        }
        (self.enabled, self.freq_centihz, self.amplitude)
    }
}

/// The sum of samples grows by each of them, and the order they come in does
/// not matter.
pub proof fn law_total_adds(a: Seq<i16>, b: Seq<i16>, v: i16)
    ensures
        total(Seq::<i16>::empty()) == 0,
        total(a.push(v)) == total(a) + v,
        total(a + b) == total(a) + total(b),
    decreases b.len(),
{
    assert(a.push(v).drop_last() =~= a);
    if b.len() == 0 {
        assert(a + b =~= a);
    } else {
        law_total_adds(a, b.drop_last(), v);
        assert((a + b).drop_last() =~= a + b.drop_last());
        assert((a + b).last() == b.last());
    }
}

/// The mean of samples is their sum over their number, rounded towards zero: as
/// many times the mean as there are samples comes nearer to the sum than one
/// more step would, and not past it.
pub proof fn law_mean(s: Seq<i16>)
    requires
        s.len() > 0,
    ensures
        ({
            let n = s.len() as int;
            &&& total(s) >= 0 ==> 0 <= n * mean(s) <= total(s) < n * mean(s) + n
            &&& total(s) < 0 ==> n * mean(s) - n < total(s) <= n * mean(s) <= 0
        }),
{
    let n = s.len() as int;
    let t = if total(s) >= 0 {
        total(s)
    } else {
        -total(s)
    };
    vstd::arithmetic::div_mod::lemma_fundamental_div_mod(t, n);
    vstd::arithmetic::div_mod::lemma_mod_bound(t, n);
    let q = t / n;
    assert(q >= 0) by (nonlinear_arith)
        requires
            q == t / n,
            t >= 0,
            n > 0,
    ;
    assert(n * q >= 0 && n * (-q) == -(n * q)) by (nonlinear_arith)
        requires
            n > 0,
            q >= 0,
    ;
}

/// Mixing down takes whole frames, in order: each sample is the mean of the
/// frame at its place, which is as many neighbouring samples as there are
/// channels.
pub proof fn law_downmix_frames(data: Seq<i16>, channels: int, i: int, k: int)
    requires
        0 < channels,
        0 <= i < data.len() / channels as nat,
        0 <= k < channels,
    ensures
        mono(data, channels).len() == data.len() / channels as nat,
        frame_of(data, channels, i).len() == channels,
        frame_of(data, channels, i)[k] == data[i * channels + k],
        mono(data, channels)[i] == mean(frame_of(data, channels, i)),
{
    let frames = (data.len() / channels as nat) as int;
    assert((i + 1) * channels <= frames * channels <= data.len()) by (nonlinear_arith)
        requires
            0 <= i < frames,
            frames == data.len() / channels as nat,
            channels > 0,
    ;
    assert(i * channels + channels == (i + 1) * channels) by (nonlinear_arith);
    assert(0 <= i * channels) by (nonlinear_arith)
        requires
            0 <= i,
            0 < channels,
    ;
    lemma_mean_bound(frame_of(data, channels, i));
}

/// Expanding repeats each sample once for each channel, in place.
pub proof fn law_expand_repeats(data: Seq<i16>, channels: nat, i: int, k: int)
    requires
        0 <= i < data.len(),
        0 <= k < channels,
    ensures
        spread(data, channels).len() == data.len() * channels,
        spread(data, channels)[i * channels + k] == data[i],
{
    lemma_spread(data, channels, i, k);
}

/// The bytes of a sample, the lower one first, denote it: as two bytes' worth of
/// a number, from which 65536 is taken where the sample is negative.
pub proof fn law_sample_bytes_denote(s: Seq<i16>, i: int)
    requires
        0 <= i < s.len(),
    ensures
        ({
            let b = sample_bytes(s);
            &&& b.len() == 2 * s.len()
            &&& b[2 * i] + 256 * b[2 * i + 1] == (if s[i] >= 0 {
                s[i] as int
            } else {
                s[i] + 65536
            })
        }),
{
}

/// A tone is added to each sample, and what would leave the range of a sample
/// stays at the end of the range that it would leave by. Silence changes
/// nothing.
pub proof fn law_tone_added(samples: Seq<i16>, tones: Seq<i32>, r: Seq<i16>, i: int)
    requires
        tone_added(samples, tones, r),
        0 <= i < samples.len(),
    ensures
        r.len() == samples.len(),
        i >= tones.len() ==> r[i] == samples[i],
        i < tones.len() && -32768 <= samples[i] + tones[i] <= 32767 ==> r[i] == samples[i]
            + tones[i],
        i < tones.len() && samples[i] + tones[i] > 32767 ==> r[i] == 32767,
        i < tones.len() && samples[i] + tones[i] < -32768 ==> r[i] == -32768,
        i < tones.len() && tones[i] == 0 ==> r[i] == samples[i],
{
}

/// A tone is on exactly when one between 30 and 300 Hz was asked for last, at its
/// own frequency; the amplitude is what was asked for, up to full scale, and
/// neither setting touches the other.
pub proof fn law_tone_settings(m: MixerView, tone: Option<Tone>, amp: u16)
    ensures
        ({
            let t = tone_switched(m, tone);
            let a = amplitude_set(m, amp);
            &&& t.enabled <==> (tone matches Some(x) && 0x41f0_0000 < x.hz.0 && x.hz.0 < 0x4396_0000)
            &&& t.enabled ==> t.freq_centihz == tone->0.centihz
            &&& !t.enabled ==> t.freq_centihz == m.freq_centihz
            &&& t.amplitude == m.amplitude
            &&& a.amplitude <= 32767
            &&& amp <= 32767 ==> a.amplitude == amp
            &&& amp > 32767 ==> a.amplitude == 32767
            &&& a.enabled == m.enabled && a.freq_centihz == m.freq_centihz
        }),
{
}

/// Clients are told the device's rate, or 48 kHz while it is not known, and a
/// period is a hundredth of a second, whole frames only.
pub proof fn law_rates(rate: u32)
    ensures
        rate > 0 ==> told_rate(rate) == rate,
        told_rate(0) == 48_000,
        100 * frames_in_period(rate) <= rate < 100 * frames_in_period(rate) + 100,
{
}

/// A sample with a tone is their sum where that is a sample, and else the sample
/// next to it; so more tone never gives less.
pub proof fn law_mixed(sample: i16, tone: i32, more: i32)
    ensures
        i16::MIN <= mixed(sample, tone) <= i16::MAX,
        i16::MIN <= sample + tone <= i16::MAX ==> mixed(sample, tone) == sample + tone,
        sample + tone > i16::MAX ==> mixed(sample, tone) == i16::MAX,
        sample + tone < i16::MIN ==> mixed(sample, tone) == i16::MIN,
        tone <= more ==> mixed(sample, tone) <= mixed(sample, more),
{
}

} // verus!
