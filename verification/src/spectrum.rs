//! Spectrum frames: pacing, bin order, wire form.
use std::collections::VecDeque;
use vstd::prelude::*;

verus! {

/// Settings of the spectrum capture. A gain is a double-precision number, by
/// its bit pattern; the library hands it on.
#[derive(Debug, Clone)]
pub struct SdrConfig {
    /// Device arguments, such as `driver=sdrplay`.
    pub device_args: String,
    pub center_hz: u64,
    pub sample_rate: u32,
    /// None = automatic gain.
    pub gain_db: Option<u64>,
    pub antenna: Option<String>,
    pub fft_size: usize,
    /// Target spectrum frames per second.
    pub update_rate_hz: u32,
}

impl Default for SdrConfig {
    fn default() -> (r: SdrConfig)
        ensures
            r.device_args@ == "driver=sdrplay"@,
            r.center_hz == 251_950_000,
            r.sample_rate == 2_048_000,
            r.gain_db is None,
            r.antenna is None,
            r.fft_size == 1024,
            r.update_rate_hz == 30,
    {
        SdrConfig {
            device_args: "driver=sdrplay".to_string(),
            center_hz: 251_950_000,
            sample_rate: 2_048_000,
            gain_db: None,
            antenna: None,
            fft_size: 1024,
            update_rate_hz: 30,
        }
    }
}

/// A spectrum snapshot. Bin 0 is the lowest frequency of the span, the last bin
/// the highest. Magnitudes are 0-255.
#[derive(Debug, Clone)]
pub struct SpectrumFrame {
    pub bins: Vec<u8>,
    pub center_hz: u64,
    pub sample_rate: u32,
    pub timestamp_ms: u64,
}

/// A number as so many bytes, the lowest first.
pub open spec fn le_bytes(n: nat, count: nat) -> Seq<u8>
    decreases count,
{
    if count == 0 {
        seq![]
    } else {
        seq![(n % 256) as u8] + le_bytes(n / 256, (count - 1) as nat)
    }
}

/// The number that bytes denote, the lowest first.
pub open spec fn le_value(b: Seq<u8>) -> nat
    decreases b.len(),
{
    if b.len() == 0 {
        0
    } else {
        b[0] as nat + 256 * le_value(b.drop_first())
    }
}

fn push_le(out: &mut Vec<u8>, n: u64, count: u8)
    ensures
        final(out)@ == old(out)@ + le_bytes(n as nat, count as nat),
    decreases count,
{
    if count > 0 {
        out.push((n % 256) as u8);
        push_le(out, n / 256, count - 1);
        assert(out@ =~= old(out)@ + (seq![(n % 256) as u8] + le_bytes(
            (n / 256) as nat,
            (count - 1) as nat,
        )));
    } else {
        assert(out@ =~= old(out)@ + le_bytes(n as nat, 0));
    }
}

impl SpectrumFrame {
    /// The frame on the wire: centre frequency (8 bytes), sample rate (4 bytes),
    /// number of bins (4 bytes), all with the lowest byte first; then the bins.
    pub open spec fn wire(self) -> Seq<u8> {
        le_bytes(self.center_hz as nat, 8) + le_bytes(self.sample_rate as nat, 4) + le_bytes(
            self.bins@.len(),
            4,
        ) + self.bins@
    }

    pub fn to_wire(&self) -> (r: Vec<u8>)
        requires
            self.bins@.len() <= u32::MAX,
        ensures
            r@ == self.wire(),
    {
        let mut out: Vec<u8> = Vec::with_capacity(16);
        push_le(&mut out, self.center_hz, 8);
        push_le(&mut out, self.sample_rate as u64, 4);
        push_le(&mut out, self.bins.len() as u64, 4);
        out.extend_from_slice(self.bins.as_slice());
        assert(out@ =~= self.wire());
        out
    }
}

proof fn lemma_le_round_trip(n: nat, count: nat, bound: nat)
    requires
        n < bound,
        bound == vstd::arithmetic::power::pow(256, count),
    ensures
        le_bytes(n, count).len() == count,
        le_value(le_bytes(n, count)) == n,
    decreases count,
{
    reveal(vstd::arithmetic::power::pow);
    if count > 0 {
        let less = vstd::arithmetic::power::pow(256, (count - 1) as nat);
        assert(bound == 256 * less);
        let rest = le_bytes(n / 256, (count - 1) as nat);
        lemma_le_round_trip(n / 256, (count - 1) as nat, less as nat);
        assert(le_bytes(n, count).drop_first() =~= rest);
    }
}

/// A frame's header is 16 bytes and gives back what went in; behind it come the
/// bins as they are.
pub proof fn law_frame_header(f: SpectrumFrame)
    requires
        f.bins@.len() <= u32::MAX,
    ensures
        f.wire().len() == 16 + f.bins@.len(),
        le_value(f.wire().subrange(0, 8)) == f.center_hz,
        le_value(f.wire().subrange(8, 12)) == f.sample_rate,
        le_value(f.wire().subrange(12, 16)) == f.bins@.len(),
        f.wire().skip(16) == f.bins@,
{
    reveal_with_fuel(vstd::arithmetic::power::pow, 9);
    assert(vstd::arithmetic::power::pow(256, 4) == 0x1_0000_0000);
    assert(vstd::arithmetic::power::pow(256, 8) == 0x1_0000_0000_0000_0000);
    lemma_le_round_trip(f.center_hz as nat, 8, 0x1_0000_0000_0000_0000);
    lemma_le_round_trip(f.sample_rate as nat, 4, 0x1_0000_0000);
    lemma_le_round_trip(f.bins@.len(), 4, 0x1_0000_0000);
    let w = f.wire();
    assert(w.subrange(0, 8) =~= le_bytes(f.center_hz as nat, 8));
    assert(w.subrange(8, 12) =~= le_bytes(f.sample_rate as nat, 4));
    assert(w.subrange(12, 16) =~= le_bytes(f.bins@.len(), 4));
    assert(w.skip(16) =~= f.bins@);
}

// ---------- Pacing ----------

/// How many samples make up one update; no updates at all counts as one a
/// second.
pub open spec fn update_samples(sample_rate: u32, update_rate_hz: u32) -> u32 {
    sample_rate / (if update_rate_hz == 0 {
        1u32
    } else {
        update_rate_hz
    })
}

/// As many samples make up one update as fit: so many updates a second take no
/// more samples than come, and would take more with one sample more each.
pub proof fn law_update_rate(sample_rate: u32, update_rate_hz: u32)
    ensures
        ({
            let n = update_samples(sample_rate, update_rate_hz);
            &&& update_rate_hz > 0 ==> n * update_rate_hz <= sample_rate && sample_rate < (n + 1)
                * update_rate_hz
            &&& update_rate_hz == 0 ==> n == sample_rate
        }),
{
    if update_rate_hz > 0 {
        let n = update_samples(sample_rate, update_rate_hz) as int;
        let d = update_rate_hz as int;
        vstd::arithmetic::div_mod::lemma_fundamental_div_mod(sample_rate as int, d);
        vstd::arithmetic::div_mod::lemma_mod_bound(sample_rate as int, d);
        assert(n * d == d * n && (n + 1) * d == d * n + d) by (nonlinear_arith);
    }
}

/// How many samples make up one update.
pub fn samples_per_update(sample_rate: u32, update_rate_hz: u32) -> (r: u32)
    ensures
        r == update_samples(sample_rate, update_rate_hz),
{
    let rate: u32 = if update_rate_hz == 0 {
        1
    } else {
        update_rate_hz
    };
    sample_rate / rate
}

/// What a [`SampleWindow`] stands for.
#[verifier::ext_equal]
pub struct WindowView<T> {
    /// How many samples the window holds once it is full.
    pub size: nat,
    /// How many samples make up one update.
    pub per_update: nat,
    /// The latest samples, oldest first.
    pub samples: Seq<T>,
    /// How many samples have come since the last update.
    pub since: nat,
}

/// The window's samples after one more.
pub open spec fn window_samples<T>(w: WindowView<T>, sample: T) -> Seq<T> {
    (if w.samples.len() >= w.size && w.samples.len() > 0 {
        w.samples.skip(1)
    } else {
        w.samples
    }).push(sample)
}

/// Whether one more sample makes an update due: enough have come, and the
/// window is full.
pub open spec fn window_due<T>(w: WindowView<T>, sample: T) -> bool {
    w.since + 1 >= w.per_update && window_samples(w, sample).len() == w.size
}

/// The window after one more sample.
pub open spec fn window_next<T>(w: WindowView<T>, sample: T) -> WindowView<T> {
    WindowView {
        samples: window_samples(w, sample),
        since: if window_due(w, sample) {
            0
        } else if w.since >= usize::MAX {
            usize::MAX as nat
        } else {
            w.since + 1
        },
        ..w
    }
}

/// A window that has taken no sample yet.
pub open spec fn new_window<T>(size: usize, per_update: usize) -> WindowView<T> {
    WindowView { size: size as nat, per_update: per_update as nat, samples: seq![], since: 0 }
}

/// The latest samples, and when the next update is due.
pub struct SampleWindow<T> {
    size: usize,
    per_update: usize,
    history: VecDeque<T>,
    since: usize,
}

impl<T> View for SampleWindow<T> {
    type V = WindowView<T>;

    closed spec fn view(&self) -> WindowView<T> {
        WindowView {
            size: self.size as nat,
            per_update: self.per_update as nat,
            samples: self.history@,
            since: self.since as nat,
        }
    }
}

impl<T> SampleWindow<T> {
    pub fn new(size: usize, per_update: usize) -> (r: SampleWindow<T>)
        ensures
            r@ == new_window::<T>(size, per_update),
    {
        let r = SampleWindow { size, per_update, history: VecDeque::new(), since: 0 };
        assert(r@.samples =~= seq![]);
        r
    }

    /// Take one more sample. Says whether an update is due.
    pub fn push(&mut self, sample: T) -> (r: bool)
        ensures
            r == window_due(old(self)@, sample),
            final(self)@ == window_next(old(self)@, sample),
    {
        if self.history.len() >= self.size {
            let _ = self.history.pop_front();
            proof {
                if old(self)@.samples.len() > 0 {
                    assert(self.history@ =~= old(self)@.samples.skip(1));
                }
            }
        }
        self.history.push_back(sample);
        assert(self.history@ =~= window_samples(old(self)@, sample));
        let come: usize = self.since.saturating_add(1);
        if come >= self.per_update && self.history.len() == self.size {
            self.since = 0;
            true
        } else {
            self.since = come;
            false
        }
    }

    pub fn len(&self) -> (r: usize)
        ensures
            r == self@.samples.len(),
    {
        self.history.len()
    }

    /// The sample at a place in the window, oldest first.
    pub fn get(&self, i: usize) -> (r: &T)
        requires
            i < self@.samples.len(),
        ensures
            *r == self@.samples[i as int],
    {
        &self.history[i]
    }
}

/// The window after a run of samples.
pub open spec fn window_run<T>(w: WindowView<T>, samples: Seq<T>) -> WindowView<T>
    decreases samples.len(),
{
    if samples.len() == 0 {
        w
    } else {
        window_next(window_run(w, samples.drop_last()), samples.last())
    }
}

/// The window always holds the latest samples, in order, and never more than
/// its size: after a run of at least that many it holds exactly the last of
/// them.
pub proof fn law_window_holds_latest<T>(w: WindowView<T>, samples: Seq<T>)
    requires
        0 < w.size,
        w.samples.len() == 0,
    ensures
        window_run(w, samples).size == w.size,
        window_run(w, samples).per_update == w.per_update,
        window_run(w, samples).samples == (if samples.len() <= w.size {
            samples
        } else {
            samples.skip(samples.len() - w.size)
        }),
    decreases samples.len(),
{
    if samples.len() == 0 {
        assert(w.samples =~= samples);
    } else {
        let front = samples.drop_last();
        law_window_holds_latest(w, front);
        let v = window_run(w, front);
        assert(front.push(samples.last()) =~= samples);
        if samples.len() > w.size {
            assert(window_samples(v, samples.last()) =~= samples.skip(samples.len() - w.size));
        }
    }
}

/// Updates are not more frequent than asked for: one comes only when at least
/// as many samples as make up an update have come since the last one, and the
/// window is full then.
pub proof fn law_updates_are_paced<T>(w: WindowView<T>, sample: T)
    requires
        window_due(w, sample),
    ensures
        w.since + 1 >= w.per_update,
        window_next(w, sample).since == 0,
        window_next(w, sample).samples.len() == w.size,
{
}

/// Whether the sample at a place of a run makes an update due.
pub open spec fn due_at_sample<T>(w: WindowView<T>, samples: Seq<T>, i: int) -> bool {
    window_due(window_run(w, samples.take(i)), samples[i])
}

/// Updates come exactly as often as asked for. Of the samples that a new window
/// takes, the first to make an update due is the one that fills the window, or
/// the one that completes an update where that takes longer; from then on
/// every sample that completes another update makes one due, and no other does.
pub proof fn law_update_times<T>(size: usize, per_update: usize, samples: Seq<T>, i: int)
    requires
        0 < size,
        0 <= i < samples.len(),
    ensures
        ({
            let first = if size >= per_update {
                size as int
            } else {
                per_update as int
            };
            let every = if per_update == 0 {
                1int
            } else {
                per_update as int
            };
            due_at_sample(new_window::<T>(size, per_update), samples, i) <==> i + 1 >= first && (i
                + 1 - first) % every == 0
        }),
{
    let w = new_window::<T>(size, per_update);
    lemma_since(w, samples.take(i));
    law_window_holds_latest(w, samples.take(i));
    law_window_holds_latest(w, samples.take(i + 1));
    let v = window_run(w, samples.take(i));
    assert(samples.take(i + 1).drop_last() =~= samples.take(i));
    assert(samples.take(i + 1).last() == samples[i]);
    assert(window_samples(v, samples[i]) == window_run(w, samples.take(i + 1)).samples);
    let first = if size >= per_update {
        size as int
    } else {
        per_update as int
    };
    let every = if per_update == 0 {
        1int
    } else {
        per_update as int
    };
    if i >= first {
        lemma_next_rest(i - first, every);
    } else if i + 1 == first {
        vstd::arithmetic::div_mod::lemma_small_mod(0, every as nat);
    }
}

/// The remainder after one more.
proof fn lemma_next_rest(k: int, n: int)
    requires
        0 <= k,
        0 < n,
    ensures
        0 <= k % n < n,
        (k + 1) % n == (if k % n + 1 == n {
            0
        } else {
            k % n + 1
        }),
{
    vstd::arithmetic::div_mod::lemma_mod_bound(k, n);
    vstd::arithmetic::div_mod::lemma_fundamental_div_mod(k, n);
    let q = k / n;
    let r = k % n;
    if r + 1 == n {
        assert(k + 1 == (q + 1) * n + 0) by (nonlinear_arith)
            requires
                k == n * q + r,
                r + 1 == n,
        ;
        vstd::arithmetic::div_mod::lemma_fundamental_div_mod_converse(k + 1, n, q + 1, 0);
    } else {
        assert(k + 1 == q * n + (r + 1)) by (nonlinear_arith)
            requires
                k == n * q + r,
        ;
        vstd::arithmetic::div_mod::lemma_fundamental_div_mod_converse(k + 1, n, q, r + 1);
    }
}

/// How many samples have come since the last update.
proof fn lemma_since<T>(w: WindowView<T>, samples: Seq<T>)
    requires
        0 < w.size <= usize::MAX,
        w.per_update <= usize::MAX,
        w.samples.len() == 0,
        w.since == 0,
    ensures
        ({
            let first = if w.size >= w.per_update {
                w.size as int
            } else {
                w.per_update as int
            };
            let every = if w.per_update == 0 {
                1int
            } else {
                w.per_update as int
            };
            window_run(w, samples).since == if samples.len() < first {
                samples.len() as int
            } else {
                (samples.len() - first) % every
            }
        }),
    decreases samples.len(),
{
    if samples.len() > 0 {
        let front = samples.drop_last();
        lemma_since(w, front);
        law_window_holds_latest(w, front);
        law_window_holds_latest(w, samples);
        let v = window_run(w, front);
        assert(window_samples(v, samples.last()) == window_run(w, samples).samples);
        let first = if w.size >= w.per_update {
            w.size as int
        } else {
            w.per_update as int
        };
        let every = if w.per_update == 0 {
            1int
        } else {
            w.per_update as int
        };
        if front.len() >= first {
            lemma_next_rest(front.len() - first, every);
        } else if front.len() + 1 == first {
            vstd::arithmetic::div_mod::lemma_small_mod(0, every as nat);
        }
    }
}

// ---------- Bin order ----------

/// Transform output in the order of frequency. The transform gives the centre
/// frequency first, then the ones above it and, from the middle on, the ones
/// below it; those come first in order.
pub open spec fn shifted<T>(s: Seq<T>) -> Seq<T> {
    s.skip((s.len() + 1) as int / 2) + s.take((s.len() + 1) as int / 2)
}

/// How far from the centre frequency bin `k` of a transform of `n` samples
/// lies, in steps of the sample rate over `n`: the second half stands for the
/// frequencies below the centre.
pub open spec fn bin_offset(k: int, n: int) -> int {
    if 2 * k < n {
        k
    } else {
        k - n
    }
}

/// Bring transform output into the order of frequency.
pub fn fft_shift(bins: &[u8]) -> (r: Vec<u8>)
    ensures
        r@ == shifted(bins@),
{
    let mid: usize = bins.len() - bins.len() / 2;
    let mut out: Vec<u8> = Vec::with_capacity(bins.len());
    out.extend_from_slice(vstd::slice::slice_subrange(bins, mid, bins.len()));
    out.extend_from_slice(vstd::slice::slice_subrange(bins, 0, mid));
    assert(out@ =~= shifted(bins@));
    out
}

/// The order of frequency, for every number of bins: each frequency is one step
/// above the one before it, from the lowest of the span to the highest, and the
/// centre frequency stands in the middle.
pub proof fn law_shift<T>(s: Seq<T>, i: int)
    requires
        0 <= i < s.len(),
    ensures
        ({
            let n = s.len() as int;
            let k = (i + (n + 1) / 2) % n;
            &&& shifted(s).len() == n
            &&& shifted(s)[i] == s[k]
            &&& bin_offset(k, n) == i - n / 2
            &&& shifted(s)[n / 2] == s[0]
        }),
{
    let n = s.len() as int;
    let m = (n + 1) / 2;
    if i < n - m {
        vstd::arithmetic::div_mod::lemma_small_mod((i + m) as nat, n as nat);
    } else {
        vstd::arithmetic::div_mod::lemma_small_mod((i + m - n) as nat, n as nat);
        vstd::arithmetic::div_mod::lemma_mod_add_multiples_vanish(i + m - n, n);
    }
}

/// Of an even number of bins, bringing them into order twice undoes it.
pub proof fn law_shift_twice<T>(s: Seq<T>)
    requires
        s.len() % 2 == 0,
    ensures
        shifted(shifted(s)) == s,
{
    assert(shifted(shifted(s)) =~= s);
}

// ---------- Retuning ----------

/// A request to the capture.
#[derive(Debug, Clone, Copy, PartialEq, Eq, Structural)]
pub enum SdrCmd {
    SetCenter(u64),
    SetGain(Option<u64>),
    Shutdown,
}

/// The centre frequency after a request.
pub open spec fn centre_then(center: u64, cmd: SdrCmd, accepted: bool) -> u64 {
    match cmd {
        SdrCmd::SetCenter(hz) => if accepted {
            hz
        } else {
            center
        },
        _ => center,
    }
}

/// The centre moves to where it was asked to, and only when it was asked to and
/// the device has taken it.
pub proof fn law_centre_follows(center: u64, hz: u64, gain: Option<u64>, accepted: bool)
    ensures
        centre_then(center, SdrCmd::SetCenter(hz), true) == hz,
        centre_then(center, SdrCmd::SetCenter(hz), false) == center,
        centre_then(center, SdrCmd::SetGain(gain), accepted) == center,
        centre_then(center, SdrCmd::Shutdown, accepted) == center,
{
}

/// The centre frequency after a request: a new one counts once the device has
/// taken it.
pub fn center_after(center: u64, cmd: SdrCmd, accepted: bool) -> (r: u64)
    ensures
        r == centre_then(center, cmd, accepted),
{
    match cmd {
        SdrCmd::SetCenter(hz) => if accepted {
            hz
        } else {
            center
        },
        _ => center,
    }
}

/// The settings with which a failed capture starts anew: the viewer stays where
/// it was tuned last.
pub fn retry_config(cfg: SdrConfig, center: u64) -> (r: SdrConfig)
    ensures
        r == (SdrConfig { center_hz: center, ..cfg }),
{
    let mut next = cfg;
    next.center_hz = center;
    next
}

} // verus!
