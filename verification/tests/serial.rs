use hammerhead::command::{LampLevel, OpCommand, PresetId};
use hammerhead::inquiry::Inquiry;
use hammerhead::poller::{
    decode_telemetry, default_schedules, inquiry_update, next_due_inquiry, BackoffMode, Control,
    InquiryMap, PollErrorKind, PollPlan, TelemetryUpdate,
};
use hammerhead::radio::{display_bytes, read_error, time_left, Dispatcher, DEFAULT_TIMEOUT};
use hammerhead::response::Response;
use hammerhead::serial::{choose_port, usual_port, FlowControl, Parity, SerialConfig};
use hammerhead::transport::{MockTransport, RadioError, TransportError};
use std::time::Duration;

const ACK: u8 = 0x06;
const NAK: u8 = 0x15;

fn ms(n: u64) -> u64 {
    Duration::from_millis(n).as_nanos() as u64
}

// ---------- Mock transport ----------

#[test]
fn write_then_read_round_trip() {
    let mut m = MockTransport::new().expect_write(b"Z").respond(b"ACK");
    m.write_all(b"Z").unwrap();
    let mut buf = [0u8; 16];
    let n = m.read(&mut buf).unwrap().unwrap();
    assert_eq!(&buf[..n], b"ACK");
    assert_eq!(m.sent(), b"Z");
}

#[test]
fn strict_write_mismatch_errors() {
    let mut m = MockTransport::new().expect_write(b"P3");
    let err = m.write_all(b"P4").unwrap_err();
    assert!(matches!(err, TransportError::MockWriteMismatch { .. }));
    assert_eq!(
        err.message(),
        "mock write mismatch: expected [80, 51], got [80, 52]"
    );
}

#[test]
fn lax_mode_accepts_any_write() {
    let mut m = MockTransport::new().lax().respond(b"ACK");
    m.write_all(b"anything").unwrap();
    m.write_all(b"else").unwrap();
    assert_eq!(m.sent(), b"anythingelse");
}

#[test]
fn lax_reads_pass_over_expectations() {
    let mut m = MockTransport::new().lax().expect_write(b"P3").respond(b"ACK");
    m.write_all(b"P3").unwrap();
    let mut buf = [0u8; 8];
    assert_eq!(m.read(&mut buf).unwrap(), Some(3));
    assert_eq!(&buf[..3], b"ACK");
    let mut m = MockTransport::new()
        .lax()
        .expect_write(b"A")
        .expect_write(b"B")
        .respond(b"1")
        .expect_write(b"C")
        .respond(b"2")
        .expect_write(b"D");
    assert_eq!(m.read(&mut buf).unwrap(), Some(1));
    assert_eq!(buf[0], b'1');
    assert_eq!(m.read(&mut buf).unwrap(), Some(1));
    assert_eq!(buf[0], b'2');
    assert!(matches!(m.read(&mut buf), Err(TransportError::Closed)));
    let mut m = MockTransport::new().expect_write(b"P3").respond(b"ACK");
    assert!(matches!(m.read(&mut buf), Err(TransportError::Closed)));
}

#[test]
fn read_across_multiple_reads() {
    let mut m = MockTransport::new().respond(b"ACKACK");
    let mut buf = [0u8; 3];
    let n = m.read(&mut buf).unwrap().unwrap();
    assert_eq!(n, 3);
    assert_eq!(&buf[..], b"ACK");
    let n = m.read(&mut buf).unwrap().unwrap();
    assert_eq!(n, 3);
    assert_eq!(&buf[..], b"ACK");
}

#[test]
fn interleaved_write_and_read() {
    let mut m = MockTransport::new()
        .expect_write(b"?03")
        .respond(b"N128ACK")
        .expect_write(b"L2")
        .respond(b"ACK");
    m.write_all(b"?03").unwrap();
    let mut buf = [0u8; 16];
    let n = m.read(&mut buf).unwrap().unwrap();
    assert_eq!(&buf[..n], b"N128ACK");
    m.write_all(b"L2").unwrap();
    let n = m.read(&mut buf).unwrap().unwrap();
    assert_eq!(&buf[..n], b"ACK");
}

#[test]
fn exhausted_read_returns_closed() {
    let mut m = MockTransport::new().respond(b"X");
    let mut buf = [0u8; 4];
    let _ = m.read(&mut buf).unwrap();
    let err = m.read(&mut buf).unwrap_err();
    assert!(matches!(err, TransportError::Closed));
    assert_eq!(err.message(), "transport closed");
}

#[test]
fn silent_mock_blocks() {
    let mut m = MockTransport::default().lax().silent();
    let mut buf = [7u8; 4];
    assert!(m.read(&mut buf).unwrap().is_none());
    assert_eq!(buf, [7u8; 4]);
}

#[test]
fn strict_mock_wants_a_script() {
    let mut m = MockTransport::new().respond(b"X").expect_write(b"Z");
    assert!(matches!(m.write_all(b"Z"), Err(TransportError::MockExhausted)));
    m.reset_script();
    let err = m.write_all(b"Z").unwrap_err();
    assert_eq!(err.message(), "mock script exhausted (test bug)");
}

#[test]
fn transport_error_sentences() {
    assert_eq!(TransportError::Io("gone".into()).message(), "I/O error: gone");
    assert_eq!(
        TransportError::Serial("busy".into()).message(),
        "serial port error: busy"
    );
    assert_eq!(
        RadioError::Transport(TransportError::Closed).message(),
        "transport error: transport closed"
    );
    assert_eq!(RadioError::Timeout(ms(500)).message(), "no response within 500ms");
    assert_eq!(
        RadioError::Fault.message(),
        "three consecutive NAKs — protocol fault"
    );
    assert_eq!(RadioError::Closed.message(), "radio handle closed");
}

// ---------- Dispatcher ----------

fn mock_with_responses(responses: &[&[u8]]) -> MockTransport {
    let mut m = MockTransport::new().lax();
    for r in responses {
        m = m.respond(r);
    }
    m
}

fn exchange(
    d: &mut Dispatcher,
    m: &mut MockTransport,
    bytes: &[u8],
    timeout: u64,
) -> Result<Response, RadioError> {
    d.begin();
    m.write_all(bytes).map_err(RadioError::Transport)?;
    loop {
        let mut buf = [0u8; 3];
        match m.read(&mut buf) {
            Err(e) => return Err(read_error(e)),
            Ok(None) => return Err(RadioError::Timeout(timeout)),
            Ok(Some(n)) => {
                if let Some(r) = d.on_bytes(&buf[..n]) {
                    return r;
                }
            }
        }
    }
}

fn send(d: &mut Dispatcher, m: &mut MockTransport, cmd: OpCommand) -> Result<Response, RadioError> {
    exchange(d, m, &cmd.encode(), DEFAULT_TIMEOUT)
}

#[test]
fn send_op_command_ack() {
    let mut m = mock_with_responses(&[&[ACK]]);
    let r = send(&mut Dispatcher::new(), &mut m, OpCommand::Lamp(LampLevel::Med)).unwrap();
    assert!(r.is_ack());
    assert_eq!(m.sent(), b"L2");
}

#[test]
fn query_returns_data_then_ack() {
    let mut m = mock_with_responses(&[b"A1\x06"]);
    let r = exchange(
        &mut Dispatcher::new(),
        &mut m,
        &Inquiry::SynthLock.encode(),
        DEFAULT_TIMEOUT,
    )
    .unwrap();
    assert!(r.is_ack());
    assert_eq!(r.data(), b"A1");
}

#[test]
fn timeout_fires_when_radio_silent() {
    let mut m = MockTransport::new().lax().silent();
    let cmd = OpCommand::Preset(PresetId::new(0).unwrap()).encode();
    let err = exchange(&mut Dispatcher::new(), &mut m, &cmd, ms(100)).unwrap_err();
    assert!(matches!(err, RadioError::Timeout(_)));
}

#[test]
fn three_naks_fault() {
    let mut m = mock_with_responses(&[&[NAK], &[NAK], &[NAK]]);
    let mut d = Dispatcher::new();
    let r1 = send(&mut d, &mut m, OpCommand::Zap).unwrap();
    assert!(r1.is_nak());
    let r2 = send(&mut d, &mut m, OpCommand::Zap).unwrap();
    assert!(r2.is_nak());
    let e = send(&mut d, &mut m, OpCommand::Zap).unwrap_err();
    assert!(matches!(e, RadioError::Fault));
}

#[test]
fn ack_between_naks_resets_fault_counter() {
    let mut m = mock_with_responses(&[&[NAK], &[NAK], &[ACK], &[NAK], &[NAK]]);
    let mut d = Dispatcher::new();
    assert!(send(&mut d, &mut m, OpCommand::Zap).unwrap().is_nak());
    assert!(send(&mut d, &mut m, OpCommand::Zap).unwrap().is_nak());
    assert!(send(&mut d, &mut m, OpCommand::Zap).unwrap().is_ack());
    assert!(send(&mut d, &mut m, OpCommand::Zap).unwrap().is_nak());
    assert!(send(&mut d, &mut m, OpCommand::Zap).unwrap().is_nak());
}

#[test]
fn closed_transport_closes_the_radio() {
    let mut m = MockTransport::new().lax();
    let err = send(&mut Dispatcher::new(), &mut m, OpCommand::Zap).unwrap_err();
    assert!(matches!(err, RadioError::Closed));
    assert!(matches!(
        Dispatcher::new().on_bytes(b""),
        Some(Err(RadioError::Closed))
    ));
    assert!(matches!(
        read_error(TransportError::Io("x".into())),
        RadioError::Transport(TransportError::Io(_))
    ));
}

#[test]
fn serializes_concurrent_senders() {
    let mut m = mock_with_responses(&[b"A1\x06", b"N128\x06"]);
    let mut d = Dispatcher::new();
    let ra = exchange(&mut d, &mut m, &Inquiry::SynthLock.encode(), DEFAULT_TIMEOUT).unwrap();
    let rb = exchange(&mut d, &mut m, &Inquiry::Rssi.encode(), DEFAULT_TIMEOUT).unwrap();
    assert_eq!(ra.data(), b"A1");
    assert_eq!(rb.data(), b"N128");
}

#[test]
fn stale_bytes_do_not_reach_the_next_command() {
    let mut d = Dispatcher::new();
    d.begin();
    assert!(d.on_bytes(b"JUNK").is_none());
    d.begin();
    let r = d.on_bytes(b"A1\x06\x15").unwrap().unwrap();
    assert_eq!(r.data(), b"A1");
}

#[test]
fn deadlines() {
    assert_eq!(time_left(100, 40), Some(60));
    assert_eq!(time_left(100, 100), None);
    assert_eq!(time_left(100, 140), None);
    assert_eq!(display_bytes(b"?01\x06"), "\"?01.\" (4 bytes)");
}

// ---------- Poller ----------

#[test]
fn decode_rssi_ack() {
    let resp = Response::Ack {
        data: b"N128".to_vec(),
    };
    let update = decode_telemetry(Inquiry::Rssi, &resp).unwrap();
    match update {
        TelemetryUpdate::Rssi(r) => assert_eq!(r.0, 128),
        _ => panic!("wrong variant"),
    }
}

#[test]
fn decode_nak_becomes_decode_error() {
    let resp = Response::Nak { data: vec![] };
    let update = decode_telemetry(Inquiry::Rssi, &resp).unwrap();
    assert!(matches!(update, TelemetryUpdate::Error { .. }));
}

#[test]
fn default_schedule_includes_expected_inquiries() {
    let s = default_schedules();
    assert!(s.contains_key(&Inquiry::Rssi));
    assert!(s.contains_key(&Inquiry::SquelchStatus));
    assert!(s.contains_key(&Inquiry::GeneralStatus));
    assert!(s.contains_key(&Inquiry::Mode));
    assert!(s.contains_key(&Inquiry::PresetSnapshot));
    assert!(s.contains_key(&Inquiry::SynthLock));
    assert_eq!(s.get(&Inquiry::Rssi), Some(ms(500)));
}

#[test]
fn next_due_picks_earliest() {
    let mut schedules = InquiryMap::new();
    schedules.insert(Inquiry::Rssi, ms(100));
    schedules.insert(Inquiry::SynthLock, ms(5000));
    let now = 1_000;
    let mut last = InquiryMap::new();
    last.insert(Inquiry::Rssi, now);
    last.insert(Inquiry::SynthLock, now);
    let (_, inq) = next_due_inquiry(&schedules, &last, BackoffMode::Normal, now).unwrap();
    assert_eq!(inq, Inquiry::Rssi);
}

#[test]
fn idle_backoff_multiplies_period() {
    let mut schedules = InquiryMap::new();
    schedules.insert(Inquiry::Rssi, ms(100));
    let now = 1_000;
    let mut last = InquiryMap::new();
    last.insert(Inquiry::Rssi, now);
    let (due_normal, _) = next_due_inquiry(&schedules, &last, BackoffMode::Normal, now).unwrap();
    let (due_idle, _) = next_due_inquiry(&schedules, &last, BackoffMode::Idle, now).unwrap();
    let diff = due_idle - due_normal;
    assert!(diff >= ms(850) as u128 && diff <= ms(950) as u128);
}

#[test]
fn poller_emits_rssi_on_schedule() {
    let mut m = MockTransport::new().lax();
    for _ in 0..20 {
        m = m.respond(b"N128\x06");
    }
    let mut d = Dispatcher::new();
    let mut plan = PollPlan::new(0);
    for inq in [
        Inquiry::SquelchStatus,
        Inquiry::GeneralStatus,
        Inquiry::Mode,
        Inquiry::PresetSnapshot,
        Inquiry::SynthLock,
    ] {
        plan.apply_control(Control::SetCadence(inq, None), 0);
    }
    let (due, inq) = plan.next(0).unwrap();
    assert!(due <= ms(600) as u128);
    plan.fired(inq, ms(600));
    let result = exchange(&mut d, &mut m, &inq.encode(), ms(100));
    match inquiry_update(inq, result) {
        TelemetryUpdate::Rssi(r) => assert_eq!(r.0, 128),
        other => panic!("expected Rssi, got {other:?}"),
    }
    assert_eq!(plan.next(ms(600)), Some((ms(1100) as u128, Inquiry::Rssi)));
}

#[test]
fn paused_and_empty_plans_poll_nothing() {
    let mut plan = PollPlan::new(0);
    plan.apply_control(Control::SetBackoff(BackoffMode::Paused), 0);
    assert_eq!(plan.next(ms(9000)), None);
    plan.apply_control(Control::SetBackoff(BackoffMode::Normal), 0);
    assert!(plan.next(0).is_some());
    for inq in [
        Inquiry::Rssi,
        Inquiry::SquelchStatus,
        Inquiry::GeneralStatus,
        Inquiry::Mode,
        Inquiry::PresetSnapshot,
        Inquiry::SynthLock,
    ] {
        plan.apply_control(Control::SetCadence(inq, None), 0);
    }
    assert_eq!(plan.next(0), None);
    plan.apply_control(Control::SetCadence(Inquiry::SwVersion, Some(ms(10))), ms(3));
    assert_eq!(plan.next(ms(3)), Some((ms(13) as u128, Inquiry::SwVersion)));
    plan.apply_control(Control::SetCadence(Inquiry::SwVersion, Some(ms(20))), ms(5));
    assert_eq!(plan.next(ms(5)), Some((ms(23) as u128, Inquiry::SwVersion)));
}

#[test]
fn failed_inquiries_become_errors() {
    let kind = |r| match inquiry_update(Inquiry::Mode, r) {
        TelemetryUpdate::Error { inquiry, kind } => {
            assert_eq!(inquiry, Inquiry::Mode);
            kind
        }
        other => panic!("expected an error, got {other:?}"),
    };
    assert!(matches!(kind(Err(RadioError::Timeout(1))), PollErrorKind::Timeout));
    assert!(matches!(kind(Err(RadioError::Fault)), PollErrorKind::Fault));
    match kind(Err(RadioError::Closed)) {
        PollErrorKind::Transport(s) => assert_eq!(s, "radio handle closed"),
        other => panic!("{other:?}"),
    }
    match kind(Err(RadioError::Transport(TransportError::Io("x".into())))) {
        PollErrorKind::Transport(s) => assert_eq!(s, "I/O error: x"),
        other => panic!("{other:?}"),
    }
    match kind(Ok(Response::Ack { data: b"U9".to_vec() })) {
        PollErrorKind::Decode { raw } => assert_eq!(raw, b"U9"),
        other => panic!("{other:?}"),
    }
    assert!(decode_telemetry(Inquiry::SwVersion, &Response::Ack { data: vec![1] }).is_none());
}

// ---------- Port ----------

#[test]
fn serial_settings() {
    let c = SerialConfig::urc200("/dev/x".to_string());
    assert_eq!(c.path, "/dev/x");
    assert_eq!((c.baud, c.data_bits, c.stop_bits), (1200, 8, 1));
    assert_eq!((c.parity, c.flow_control), (Parity::Off, FlowControl::Off));
    assert_eq!(c.open_timeout, ms(100));
}

#[test]
fn port_choice() {
    assert_eq!(choose_port(Some("/dev/a".into()), Some(1)), "/dev/a");
    assert_eq!(choose_port(None, Some(4)), "/dev/ttyACM0");
    assert_eq!(choose_port(None, None), "/dev/ttyUSB0");
    assert_eq!(usual_port(5).as_deref(), Some("/dev/ttyACM1"));
    assert_eq!(usual_port(6), None);
}
