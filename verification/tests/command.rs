use hammerhead::command::{LampLevel, ModMode, OpCommand, PowerLevel, PresetId, TextMode, ToneSquelch};
use hammerhead::freq::{Band, Freq, Step};

#[test]
fn single_character_commands() {
    assert_eq!(OpCommand::Zap.encode(), b"Z");
    assert_eq!(OpCommand::ChannelInit.encode(), b"I");
    assert_eq!(OpCommand::Calibrate.encode(), b"K");
    assert_eq!(OpCommand::StorePreset.encode(), b"Q");
    assert_eq!(OpCommand::ReleaseKeypad.encode(), b"+");
    assert_eq!(OpCommand::Transmit.encode(), b"B");
    assert_eq!(OpCommand::Receive.encode(), b"E");
}

#[test]
fn lamp_levels() {
    assert_eq!(OpCommand::Lamp(LampLevel::Off).encode(), b"L0");
    assert_eq!(OpCommand::Lamp(LampLevel::Lo).encode(), b"L1");
    assert_eq!(OpCommand::Lamp(LampLevel::Med).encode(), b"L2");
    assert_eq!(OpCommand::Lamp(LampLevel::Hi).encode(), b"L3");
}

#[test]
fn speaker_toggle() {
    assert_eq!(OpCommand::Speaker(false).encode(), b"J0");
    assert_eq!(OpCommand::Speaker(true).encode(), b"J1");
}

#[test]
fn squelch_is_three_digits() {
    assert_eq!(OpCommand::Squelch(0).encode(), b"$000");
    assert_eq!(OpCommand::Squelch(7).encode(), b"$007");
    assert_eq!(OpCommand::Squelch(42).encode(), b"$042");
    assert_eq!(OpCommand::Squelch(255).encode(), b"$255");
}

#[test]
fn preset_bounds() {
    for n in 0..=9 {
        let p = PresetId::new(n).unwrap();
        assert_eq!(OpCommand::Preset(p).encode(), format!("P{n}").as_bytes());
    }
    assert!(PresetId::new(10).is_none());
}

#[test]
fn modulation_both_directions() {
    assert_eq!(OpCommand::ModTxRx(ModMode::Am).encode(), b"M0");
    assert_eq!(OpCommand::ModTxRx(ModMode::Fm).encode(), b"M1");
    assert_eq!(OpCommand::ModTxOnly(ModMode::Am).encode(), b"N0");
    assert_eq!(OpCommand::ModTxOnly(ModMode::Fm).encode(), b"N1");
}

#[test]
fn text_mode() {
    assert_eq!(OpCommand::Text(TextMode::Pt).encode(), b"X0");
    assert_eq!(OpCommand::Text(TextMode::Ct).encode(), b"X1");
}

#[test]
fn power_levels() {
    assert_eq!(OpCommand::Power(PowerLevel::Lo).encode(), b"#0");
    assert_eq!(OpCommand::Power(PowerLevel::Med).encode(), b"#1");
    assert_eq!(OpCommand::Power(PowerLevel::Hi).encode(), b"#2");
}

#[test]
fn scan_and_beacon() {
    assert_eq!(OpCommand::Scan(false).encode(), b"S0");
    assert_eq!(OpCommand::Scan(true).encode(), b"S1");
    assert_eq!(OpCommand::Beacon(false).encode(), b"*0");
    assert_eq!(OpCommand::Beacon(true).encode(), b"*1");
}

#[test]
fn scan_list_membership() {
    assert_eq!(OpCommand::ScanListMember(false).encode(), b"C0");
    assert_eq!(OpCommand::ScanListMember(true).encode(), b"C1");
}

#[test]
fn tone_squelch() {
    assert_eq!(OpCommand::ToneSquelch(ToneSquelch::Off).encode(), b">0");
    assert_eq!(OpCommand::ToneSquelch(ToneSquelch::RxOnly).encode(), b">1");
    assert_eq!(OpCommand::ToneSquelch(ToneSquelch::TxOnly).encode(), b">2");
    assert_eq!(OpCommand::ToneSquelch(ToneSquelch::Both).encode(), b">3");
}

#[test]
fn frequency_commands() {
    let f = Freq::new(251_950_000, Band::Base, Step::Khz25).unwrap();
    assert_eq!(OpCommand::SetRx(f).encode(), b"R251950");
    assert_eq!(OpCommand::SetTx(f).encode(), b"T251950");

    let lvhf = Freq::new(51_950_000, Band::Lvhf, Step::Khz25).unwrap();
    assert_eq!(OpCommand::SetRx(lvhf).encode(), b"R051950");

    let uhf400 = Freq::new(412_500_000, Band::Uhf400, Step::Khz25).unwrap();
    assert_eq!(OpCommand::SetTx(uhf400).encode(), b"T412500");
}

#[test]
fn encode_into_accumulates() {
    let mut buf = Vec::new();
    OpCommand::Preset(PresetId::new(3).unwrap()).encode_into(&mut buf);
    OpCommand::Transmit.encode_into(&mut buf);
    assert_eq!(buf, b"P3B");
}

fn digits(b: &[u8]) -> u32 {
    assert!(b.iter().all(|c| c.is_ascii_digit()));
    std::str::from_utf8(b).unwrap().parse().unwrap()
}

#[test]
fn squelch_always_4_bytes() {
    for n in 0u8..=255 {
        let e = OpCommand::Squelch(n).encode();
        assert_eq!(e.len(), 4);
        assert_eq!(e[0], b'$');
        assert_eq!(digits(&e[1..]), n as u32);
    }
}

#[test]
fn preset_round_trip() {
    for n in 0u8..=9 {
        let p = PresetId::new(n).unwrap();
        let e = OpCommand::Preset(p).encode();
        assert_eq!(e.len(), 2);
        assert_eq!(e[0], b'P');
        assert_eq!(e[1], b'0' + n);
        assert_eq!(p.get(), n);
    }
}

#[test]
fn base_freq_encodes_to_seven_ascii_digits() {
    for khz in (115_000u32..=173_995u32).step_by(25) {
        let hz = (khz / 25) * 25 * 1000;
        let f = Freq::new(hz, Band::Base, Step::Khz25).unwrap();
        let e = OpCommand::SetRx(f).encode();
        assert_eq!(e.len(), 7);
        assert_eq!(e[0], b'R');
        assert_eq!(digits(&e[1..]), hz / 1000);
    }
}

#[test]
fn lvhf_always_leading_zero() {
    for khz in (30_000u32..=90_000u32).step_by(25) {
        let hz = (khz / 25) * 25 * 1000;
        let f = Freq::new(hz, Band::Lvhf, Step::Khz25).unwrap();
        let e = OpCommand::SetRx(f).encode();
        assert_eq!(e[0], b'R');
        assert_eq!(e[1], b'0', "LVHF must encode with leading '0' band marker");
    }
}

#[test]
fn uhf400_always_leading_four() {
    for khz in (400_000u32..=420_000u32).step_by(25) {
        let hz = (khz / 25) * 25 * 1000;
        let f = Freq::new(hz, Band::Uhf400, Step::Khz25).unwrap();
        let e = OpCommand::SetRx(f).encode();
        assert_eq!(e[0], b'R');
        assert_eq!(e[1], b'4', "UHF-400 must encode with leading '4' band marker");
    }
}

#[test]
fn no_two_commands_share_bytes() {
    let f = Freq::new(251_950_000, Band::Base, Step::Khz25).unwrap();
    let mut all = vec![
        OpCommand::Zap,
        OpCommand::ChannelInit,
        OpCommand::Calibrate,
        OpCommand::StorePreset,
        OpCommand::ReleaseKeypad,
        OpCommand::Transmit,
        OpCommand::Receive,
        OpCommand::SetRx(f),
        OpCommand::SetTx(f),
    ];
    for on in [false, true] {
        all.push(OpCommand::Speaker(on));
        all.push(OpCommand::ScanListMember(on));
        all.push(OpCommand::Scan(on));
        all.push(OpCommand::Beacon(on));
    }
    for n in 0..=255u8 {
        all.push(OpCommand::Squelch(n));
    }
    for (i, a) in all.iter().enumerate() {
        for b in &all[i + 1..] {
            assert_ne!(a.encode(), b.encode());
            assert!(!b.encode().starts_with(&a.encode()));
        }
    }
}
