use hammerhead::audio::{
    announced_rate, downmix, expand, from_le_bytes, mix_sample, mix_tone, period_frames, to_le_bytes,
    CtcssMixer, Tone,
};
use hammerhead::commands::{TuneJob, TuneRequest};
use hammerhead::dsp::{apply_filter_req, FilterConfig, FilterReq};
use hammerhead::freq::Step;
use hammerhead::latency::{
    interval_summary, intervals, percentile, progress_line, summarize, BurstWatch, RunClock,
};
use hammerhead::lifecycle::{LifeAction, Lifecycle};
use hammerhead::command::OpCommand;
use hammerhead::probe::{
    describe_response, hex_ascii, refuse_dangerous_command, try_typed_decode, Probe,
};
use hammerhead::response::Response;
use hammerhead::single::{is_channel_tone, is_encodable_tone, nominal_step, Single};
use hammerhead::spectrum::{
    center_after, fft_shift, retry_config, samples_per_update, SampleWindow, SdrCmd, SdrConfig,
    SpectrumFrame,
};
use hammerhead::text::{contains_part, eq_ignore_case};

fn single(v: f32) -> Single {
    Single(v.to_bits())
}

// ---------- Numbers ----------

#[test]
fn steps_by_closeness() {
    for (centre, step) in [(25.0f32, Step::Khz25), (12.5, Step::Khz12_5), (5.0, Step::Khz5)] {
        let bits = centre.to_bits();
        for b in bits - 30_000..=bits + 30_000 {
            let k = f32::from_bits(b);
            let expected = if (k - centre).abs() < 0.01 { Some(step) } else { None };
            assert_eq!(nominal_step(Single(b)), expected, "{k}");
        }
    }
    for other in [0.0f32, -25.0, 8.33, 6.25, f32::NAN, f32::INFINITY, 50.0] {
        assert_eq!(nominal_step(single(other)), None);
    }
}

#[test]
fn tones_by_range() {
    for v in [
        f32::NAN,
        f32::NEG_INFINITY,
        -100.0,
        -0.0,
        0.0,
        29.999,
        30.0,
        30.000_002,
        162.2,
        299.999,
        300.0,
        1e30,
        f32::INFINITY,
    ] {
        assert_eq!(is_channel_tone(single(v)), (30.0..300.0).contains(&v), "{v}");
        assert_eq!(is_encodable_tone(single(v)), v > 30.0 && v < 300.0, "{v}");
    }
}

// ---------- Audio ----------

#[test]
fn rates_and_periods() {
    assert_eq!(announced_rate(0), 48_000);
    assert_eq!(announced_rate(44_100), 44_100);
    assert_eq!(period_frames(48_000), 480);
    assert_eq!(period_frames(44_100), 441);
}

#[test]
fn channels_mix_and_spread() {
    assert_eq!(downmix(&[1, 2, 3, 4], 1), [1, 2, 3, 4]);
    assert_eq!(downmix(&[1, 2, -3, -4, 9], 2), [1, -3]);
    assert_eq!(downmix(&[-32768, -32768, 32767, 32767], 2), [-32768, 32767]);
    assert_eq!(downmix(&vec![-32768; 65_536], 65_536), [-32768]);
    assert_eq!(downmix(&vec![32767; 65_536], 65_536), [32767]);
    assert_eq!(expand(&[5, -6], 3), [5, 5, 5, -6, -6, -6]);
    let mono: Vec<i16> = vec![0, -1, 1, i16::MIN, i16::MAX, 1234];
    for ch in 1..5 {
        assert_eq!(downmix(&expand(&mono, ch), ch), mono);
    }
}

#[test]
fn samples_as_bytes() {
    let s: Vec<i16> = vec![0, 1, -1, i16::MIN, i16::MAX, 0x1234];
    let b = to_le_bytes(&s);
    let expected: Vec<u8> = s.iter().flat_map(|v| v.to_le_bytes()).collect();
    assert_eq!(b, expected);
    assert_eq!(from_le_bytes(&b), Some(s));
    assert_eq!(from_le_bytes(&[]), None);
    assert_eq!(from_le_bytes(&[1, 2, 3]), None);
}

#[test]
fn tone_settings() {
    let mut m = CtcssMixer::new();
    assert_eq!(m.get(), (false, 0, 3200));
    m.set(Some(Tone { hz: single(162.2), centihz: 16220 }));
    assert_eq!(m.get(), (true, 16220, 3200));
    m.set_amplitude(40_000);
    assert_eq!(m.get(), (true, 16220, 32767));
    m.set(Some(Tone { hz: single(300.0), centihz: 30000 }));
    assert_eq!(m.get(), (false, 16220, 32767));
    m.set(Some(Tone { hz: single(67.0), centihz: 6700 }));
    m.set(None);
    m.set_amplitude(5);
    assert_eq!(m.get(), (false, 6700, 5));
    assert_eq!(mix_sample(100, -300), -200);
    assert_eq!(mix_sample(32_000, 1_000), 32_767);
    assert_eq!(mix_sample(-32_000, -1_000), -32_768);
    assert_eq!(
        mix_tone(&[0, 100, 32_000, -32_000, 7], &[3200, -300, 1_000, -1_000]),
        [3200, -200, 32_767, -32_768, 7]
    );
    assert!(mix_tone(&[], &[1, 2]).is_empty());
}

#[test]
fn filter_requests() {
    let mut c = FilterConfig::new_voice_defaults();
    assert_eq!((c.hp_fc, c.lp_fc, c.gate_db, c.generation), (3000, 30000, 400, 1));
    assert!(c.hp_enabled && c.lp_enabled && !c.gate_enabled);
    let none = FilterReq {
        hp_enabled: None,
        lp_enabled: None,
        gate_enabled: None,
        hp_fc: None,
        lp_fc: None,
        gate_db: None,
    };
    apply_filter_req(&mut c, none);
    assert_eq!(c, FilterConfig::new_voice_defaults());
    apply_filter_req(&mut c, FilterReq { hp_fc: Some(-5), lp_fc: Some(i64::MAX), ..none });
    assert_eq!((c.hp_fc, c.lp_fc, c.generation), (200, 200_000, 2));
    apply_filter_req(
        &mut c,
        FilterReq { gate_enabled: Some(true), gate_db: Some(555), hp_enabled: Some(false), ..none },
    );
    assert_eq!((c.gate_enabled, c.gate_db, c.hp_enabled, c.generation), (true, 555, false, 3));
    c.generation = u64::MAX;
    c.bump();
    assert_eq!(c.generation, 0);
}

// ---------- Spectrum ----------

#[test]
fn spectrum_defaults() {
    let c = SdrConfig::default();
    assert_eq!(c.device_args, "driver=sdrplay");
    assert_eq!((c.center_hz, c.sample_rate, c.fft_size), (251_950_000, 2_048_000, 1024));
    assert_eq!(samples_per_update(c.sample_rate, c.update_rate_hz), 68_266);
    assert_eq!(samples_per_update(1000, 0), 1000);
    assert_eq!(retry_config(c, 99).center_hz, 99);
    assert_eq!(center_after(5, SdrCmd::SetCenter(7), true), 7);
    assert_eq!(center_after(5, SdrCmd::SetCenter(7), false), 5);
    assert_eq!(center_after(5, SdrCmd::SetGain(None), true), 5);
}

#[test]
fn window_paces_updates() {
    let mut w: SampleWindow<u32> = SampleWindow::new(4, 3);
    let due: Vec<u32> = (0..13).filter(|&i| w.push(i)).collect();
    assert_eq!(due, [3, 6, 9, 12]);
    assert_eq!(w.len(), 4);
    let held: Vec<u32> = (0..4).map(|i| *w.get(i)).collect();
    assert_eq!(held, [9, 10, 11, 12]);
}

#[test]
fn bins_in_order_of_frequency() {
    assert_eq!(fft_shift(&[0, 1, 2, 3]), [2, 3, 0, 1]);
    assert_eq!(fft_shift(&fft_shift(&[0, 1, 2, 3])), [0, 1, 2, 3]);
    // Of three bins, the last one lies below the centre frequency.
    assert_eq!(fft_shift(&[0, 1, 2]), [2, 0, 1]);
    assert_eq!(fft_shift(&[0, 1, 2, 3, 4]), [3, 4, 0, 1, 2]);
    assert_eq!(fft_shift(&[9]), [9]);
    assert!(fft_shift(&[]).is_empty());
}

#[test]
fn frames_on_the_wire() {
    let f = SpectrumFrame {
        bins: vec![7, 8, 9],
        center_hz: 0x0102_0304_0506_0708,
        sample_rate: 2_048_000,
        timestamp_ms: 1,
    };
    let mut expected = 0x0102_0304_0506_0708u64.to_le_bytes().to_vec();
    expected.extend(2_048_000u32.to_le_bytes());
    expected.extend(3u32.to_le_bytes());
    expected.extend([7, 8, 9]);
    assert_eq!(f.to_wire(), expected);
}

// ---------- Probe ----------

#[test]
fn probe_refuses() {
    for bad in ["B", "BZ", "*1", "*1x", "I", "K", "K9"] {
        assert!(refuse_dangerous_command(bad).unwrap_err().starts_with("REFUSED: "));
    }
    for fine in ["", "?01", "Z", "*0", "*", "b", "+", "L2"] {
        assert!(refuse_dangerous_command(fine).is_ok());
    }
}

#[test]
fn probe_describes() {
    assert_eq!(hex_ascii(b"?01\x06"), "[3f 30 31 06] \"?01.\"");
    assert_eq!(hex_ascii(b""), "[] \"\"");
    let d = |r: Response| describe_response(&r);
    assert_eq!(d(Response::Ack { data: vec![] }), "ACK (bare, 0x06)");
    assert_eq!(
        d(Response::Ack { data: b"A1".to_vec() }),
        "ACK (0x06) with data \"41 31\" -> ascii \"A1\""
    );
    assert_eq!(d(Response::Nak { data: vec![] }), "NAK (bare, 0x15)");
    assert_eq!(
        d(Response::Nak { data: b"x".to_vec() }),
        "NAK (0x15) with preceding bytes \"x\""
    );
    assert_eq!(
        d(Response::Ht { data: vec![] }),
        "HT (bare, 0x09 — first remote command after keypad mode)"
    );
    assert_eq!(
        d(Response::Ht { data: b"A1".to_vec() }),
        "HT (0x09) with data \"41 31\" -> ascii \"A1\" — first remote command after keypad mode"
    );
}

#[test]
fn probe_decodes() {
    let t = |c: &[u8], d: &[u8]| try_typed_decode(c, d);
    assert_eq!(t(b"?01", b"A1").unwrap(), "SynthLock: locked=true (LOCKED)");
    assert_eq!(t(b"?01", b"A0").unwrap(), "SynthLock: locked=false (UNLOCKED)");
    assert_eq!(t(b"?03", b"N042").unwrap(), "Rssi: 42/255");
    assert_eq!(
        t(b"?10", b"T2519505R0300001M1N0C1P3#2").unwrap(),
        format!(
            "PresetSnapshot: preset=P3, tx={:.4} MHz, rx={:.4} MHz, mod_tx_rx=Fm, \
             mod_tx_only=Am, power=Hi, scan_list=true",
            251.9505f64, 30.0001f64
        )
    );
    assert_eq!(
        t(b"?11", b"X0J1L2d2F0000").unwrap(),
        "GeneralStatus: text=Pt, speaker=true, lamp=Med, options_byte=2 \
         (ebn30=true, ebn400=false), overtemp=false"
    );
    assert_eq!(t(b"?12", b"U1").unwrap(), "Mode: Transmit");
    assert_eq!(t(b"?13", b"[0").unwrap(), "SquelchStatus: Closed");
    assert_eq!(t(b"?08", b"V1"), None);
    assert_eq!(t(b"?01", b""), None);
    assert_eq!(t(b"?01", b"A7"), None);
}

// ---------- Latency ----------

#[test]
fn percentiles() {
    let v: Vec<u64> = (1..=100).collect();
    assert_eq!(percentile(&v, 50), 51);
    assert_eq!(percentile(&v, 99), 100);
    assert_eq!(percentile(&v, 100), 100);
    assert_eq!(percentile(&[], 50), 0);
    assert_eq!(percentile(&[7], 99), 7);
}

#[test]
fn summaries() {
    let s = summarize(vec![30, 10, 20]).unwrap();
    assert_eq!((s.min, s.p50, s.p95, s.p99, s.max, s.pass), (10, 20, 30, 30, 30, true));
    let slow = summarize(vec![80_000]).unwrap();
    assert!(!slow.pass);
    assert_eq!(summarize(vec![]), None);
    assert_eq!(intervals(&[1_000, 4_999, 4_000]), [3, 0]);
    assert_eq!(interval_summary(&[5]), None);
    let s = interval_summary(&[0, 9_000, 11_000, 19_000]).unwrap();
    assert_eq!((s.min, s.p50, s.max), (2, 8, 9));
}

#[test]
fn bursts_are_heard_once() {
    let ms = 1_000_000u64;
    let mut w = BurstWatch::new(0);
    assert_eq!(w.heard(1), None);
    assert!(!w.poll(499 * ms));
    assert!(w.poll(500 * ms));
    assert!(!w.poll(501 * ms));
    assert_eq!(w.heard(530 * ms), Some(30 * ms));
    assert_eq!(w.heard(531 * ms), None);
    assert!(w.poll(1_000 * ms));
    assert_eq!(w.heard(2_000 * ms), None);
    assert_eq!(w.heard(1_999 * ms), Some(999 * ms));
}

#[test]
fn runs_end_and_report() {
    let s = 1_000_000_000u64;
    let mut c = RunClock::new(5, 10, 600);
    assert!(!c.is_over(600 * s));
    assert!(c.is_over(600 * s + 5));
    assert_eq!(c.report(30 * s), None);
    assert_eq!(c.report(30 * s + 10), Some(30));
    assert_eq!(c.report(31 * s), None);
    assert_eq!(c.report(61 * s), Some(60));
    assert!(!RunClock::new(0, 0, u64::MAX).is_over(u64::MAX - 1));
    assert_eq!(progress_line(30, 7), format!("[{:>4}s] detections so far: {}", 30, 7));
    assert_eq!(progress_line(12345, 0), "[12345s] detections so far: 0");
}

// ---------- A probe session ----------

#[test]
fn probe_session() {
    let mut p = Probe::start("?01".into()).ok().unwrap();
    assert_eq!(p.bytes(), b"?01");
    assert_eq!(
        p.intro("/dev/ttyUSB0", 2),
        [
            "Port:    /dev/ttyUSB0",
            "Command: \"?01\" (3 bytes: [3f 30 31] \"?01\")",
            "Waiting 2 s for response...\n",
        ]
    );
    assert_eq!(
        p.summary()[2],
        "  (nothing — check cable, radio power, red/white orientation, port path)"
    );
    assert_eq!(p.received(7, b"A"), ["<- RX  t=   7 ms  +1 bytes:  [41] \"A\""]);
    assert_eq!(
        p.received(1234, b"1\x06\x15"),
        [
            "<- RX  t=1234 ms  +3 bytes:  [31 06 15] \"1..\"",
            "   ** Response: ACK (0x06) with data \"41 31\" -> ascii \"A1\"",
            "   ** Decoded : SynthLock: locked=true (LOCKED)",
            "   ** Response: NAK (bare, 0x15)",
        ]
    );
    assert_eq!(
        p.summary(),
        [
            "\n========== SUMMARY ==========",
            "Total bytes received: 4",
            "  hex:   41 31 06 15",
            "  ascii: \"A1\\u{6}\\u{15}\"",
        ]
    );
    p.received(2000, &[b'x'; 300]);
    assert!(p.summary()[4].starts_with("WARNING: parser overflow"));
    assert!(Probe::start("B".into()).err().unwrap().starts_with("REFUSED"));
}

// ---------- Life ----------

#[test]
fn life_in_order() {
    let mut l = Lifecycle::new();
    let mut seen = vec![];
    while let Some(a) = l.next() {
        seen.push(a);
        l.done();
    }
    assert_eq!(
        seen,
        [
            LifeAction::Send(OpCommand::Receive),
            LifeAction::Serve,
            LifeAction::StopScanner,
            LifeAction::StopArbiter,
            LifeAction::Send(OpCommand::Receive),
            LifeAction::StopPoller,
            LifeAction::CloseRadio,
        ]
    );
}

// ---------- Text ----------

#[test]
fn texts_compare_and_search() {
    assert!(eq_ignore_case("None", "nONE"));
    assert!(!eq_ignore_case("none", "nones"));
    assert!(!eq_ignore_case("[", "{"));
    assert!(!eq_ignore_case("É", "é"));
    assert!(eq_ignore_case("É", "É"));
    assert!(contains_part("nbfm", "fm"));
    assert!(contains_part("aam", "am"));
    assert!(contains_part("fm", "fm"));
    assert!(contains_part("", ""));
    assert!(!contains_part("m", "fm"));
    assert!(!contains_part("f m", "fm"));
}

#[test]
fn quoted_texts() {
    let shown = |mode: &str| {
        let request = TuneRequest {
            rx_hz: 251_950_000,
            tx_hz: 251_950_000,
            mode: None,
            step: Some(mode.into()),
        };
        TuneJob::start(request).err().unwrap().message
    };
    assert_eq!(shown("a ~!"), "unknown step \"a ~!\"; use 25k/12.5k/5k");
    assert_eq!(shown(""), "unknown step \"\"; use 25k/12.5k/5k");
    assert_eq!(shown("a\"\\"), "unknown step \"a\\\"\\\\\"; use 25k/12.5k/5k");
    assert_eq!(shown("\n"), "unknown step \"\\n\"; use 25k/12.5k/5k");
}
