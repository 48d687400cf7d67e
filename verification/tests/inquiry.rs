use hammerhead::command::{LampLevel, ModMode, PowerLevel, TextMode};
use hammerhead::inquiry::{
    extract_digits_after, parse_ascii_digits, strip_prefix, GeneralStatus, Inquiry, Mode,
    PresetSnapshot, Rssi, SquelchStatus, SynthLock,
};

#[test]
fn inquiry_encodes_two_digit_zero_padded() {
    assert_eq!(Inquiry::SynthLock.encode(), *b"?01");
    assert_eq!(Inquiry::Rssi.encode(), *b"?03");
    assert_eq!(Inquiry::PresetSnapshot.encode(), *b"?10");
    assert_eq!(Inquiry::AviationMode.encode(), *b"?89");
    assert_eq!(Inquiry::Debug.encode(), *b"?99");
}

#[test]
fn synth_lock_decoder() {
    assert_eq!(SynthLock::from_bytes(b"A0"), Some(SynthLock(false)));
    assert_eq!(SynthLock::from_bytes(b"A1"), Some(SynthLock(true)));
    assert_eq!(SynthLock::from_bytes(b"A2"), None);
    assert_eq!(SynthLock::from_bytes(b""), None);
}

#[test]
fn rssi_decoder() {
    assert_eq!(Rssi::from_bytes(b"N000"), Some(Rssi(0)));
    assert_eq!(Rssi::from_bytes(b"N128"), Some(Rssi(128)));
    assert_eq!(Rssi::from_bytes(b"N255"), Some(Rssi(255)));
    assert_eq!(Rssi::from_bytes(b"N999"), Some(Rssi(255))); // saturates
    assert_eq!(Rssi::from_bytes(b"N12"), None);
    assert_eq!(Rssi::from_bytes(b"X128"), None);
}

#[test]
fn mode_decoder() {
    assert_eq!(Mode::from_bytes(b"U0"), Some(Mode::Receive));
    assert_eq!(Mode::from_bytes(b"U1"), Some(Mode::Transmit));
    assert_eq!(Mode::from_bytes(b"*1"), Some(Mode::Beacon));
    assert_eq!(Mode::from_bytes(b"U2"), None);
}

#[test]
fn squelch_status_decoder() {
    assert_eq!(SquelchStatus::from_bytes(b"[0"), Some(SquelchStatus::Closed));
    assert_eq!(SquelchStatus::from_bytes(b"[1"), Some(SquelchStatus::Broken));
    assert_eq!(SquelchStatus::from_bytes(b"[2"), None);
}

#[test]
fn preset_snapshot_decoder() {
    // Synthetic: preset 3, TX=251.950 MHz, RX=251.950 MHz, FM both,
    // on scan list, high power.
    let wire = b"T2519500R2519500M1N1C1P3#2";
    let snap = PresetSnapshot::from_bytes(wire).unwrap();
    assert_eq!(snap.tx_hz, 251_950_000);
    assert_eq!(snap.rx_hz, 251_950_000);
    assert_eq!(snap.mod_tx_rx, ModMode::Fm);
    assert_eq!(snap.mod_tx_only, ModMode::Fm);
    assert!(snap.on_scan_list);
    assert_eq!(snap.preset.get(), 3);
    assert_eq!(snap.power, PowerLevel::Hi);
}

#[test]
fn preset_snapshot_field_order_insensitive() {
    // Same data, arbitrary order (the parser scans by prefix).
    let wire = b"#0P7C0N0M0R1500000T1500000";
    let snap = PresetSnapshot::from_bytes(wire).unwrap();
    assert_eq!(snap.preset.get(), 7);
    assert_eq!(snap.tx_hz, 150_000_000);
    assert_eq!(snap.power, PowerLevel::Lo);
}

#[test]
fn preset_snapshot_rejects_missing_field() {
    // Missing P field.
    let wire = b"T2519500R2519500M1N1C1#2";
    assert!(PresetSnapshot::from_bytes(wire).is_none());
}

#[test]
fn general_status_decoder() {
    // PT, speaker on, lamp med, no options (d0), temp OK.
    let wire = b"X0J1L2d0F0000";
    let g = GeneralStatus::from_bytes(wire).unwrap();
    assert_eq!(g.text_mode, TextMode::Pt);
    assert!(g.speaker_on);
    assert_eq!(g.lamp, LampLevel::Med);
    assert_eq!(g.options_byte, 0);
    assert!(!g.overtemp);
    assert!(!g.has_ebn30());
    assert!(!g.has_ebn400());
}

#[test]
fn general_status_decodes_ebn30_installed() {
    let wire = b"X0J0L0d2F0001";
    let g = GeneralStatus::from_bytes(wire).unwrap();
    assert!(g.has_ebn30());
    assert!(!g.has_ebn400());
}

#[test]
fn general_status_decodes_overtemp() {
    let wire = b"X1J1L3d6F1255";
    let g = GeneralStatus::from_bytes(wire).unwrap();
    assert_eq!(g.text_mode, TextMode::Ct);
    assert_eq!(g.lamp, LampLevel::Hi);
    assert!(g.overtemp);
    assert!(g.has_ebn30());
    assert!(g.has_ebn400());
}

#[test]
fn general_status_rejects_garbage() {
    assert!(GeneralStatus::from_bytes(b"").is_none());
    assert!(GeneralStatus::from_bytes(b"X9J0L0d0F0000").is_none()); // bad X
    assert!(GeneralStatus::from_bytes(b"X0J0Z0d0F0000").is_none()); // missing L
}

#[test]
fn inquiry_numbers_and_names() {
    assert_eq!(Inquiry::PowerTable.encode(), *b"?16");
    assert_eq!(Inquiry::Tone3090.encode(), *b"?19");
    assert_eq!(Inquiry::RxFilterBw.code(), 90);
    assert_eq!(Inquiry::RxFilterBw.name(), format!("{:?}", Inquiry::RxFilterBw));
    assert_eq!(Inquiry::GeneralStatus.name(), "GeneralStatus");
}

#[test]
fn digit_fields() {
    assert_eq!(extract_digits_after(b"P7M1", b'M', 1), Some(&b"1"[..]));
    assert_eq!(extract_digits_after(b"P7M", b'M', 1), None);
    assert_eq!(extract_digits_after(b"P7Mx", b'M', 1), None);
    assert_eq!(extract_digits_after(b"P7", b'M', 1), None);
    assert_eq!(strip_prefix(b"N128", b'N'), Some(&b"128"[..]));
    assert_eq!(strip_prefix(b"N128", b'M'), None);
    assert_eq!(strip_prefix(b"", b'M'), None);
    assert_eq!(parse_ascii_digits(b"0042"), Some(42));
    assert_eq!(parse_ascii_digits(b"4294967295"), Some(u32::MAX));
    assert_eq!(parse_ascii_digits(b"4294967296"), None);
    assert_eq!(parse_ascii_digits(b""), None);
    assert_eq!(parse_ascii_digits(b"4x"), None);
}

#[test]
fn preset_snapshot_rejects_bad_digits() {
    assert!(PresetSnapshot::from_bytes(b"T2519500R2519500M2N1C1P3#2").is_none());
    assert!(PresetSnapshot::from_bytes(b"T2519500R2519500M1N1C1P3#3").is_none());
    let s = PresetSnapshot::from_bytes(b"T2519500R2519500M1N0C5P3#1").unwrap();
    assert!(!s.on_scan_list);
    assert_eq!(s.mod_tx_only, ModMode::Am);
}
