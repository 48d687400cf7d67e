use hammerhead::response::{DispatchOutcome, NakCounter, Response, ResponseParser, ACK, HT, MAX_DATA_LEN, NAK};

#[test]
fn parses_bare_ack() {
    let mut p = ResponseParser::new();
    let out = p.feed_slice(&[ACK]);
    assert_eq!(out, vec![Response::Ack { data: vec![] }]);
}

#[test]
fn parses_bare_nak() {
    let mut p = ResponseParser::new();
    let out = p.feed_slice(&[NAK]);
    assert_eq!(out, vec![Response::Nak { data: vec![] }]);
}

#[test]
fn parses_bare_ht() {
    let mut p = ResponseParser::new();
    let out = p.feed_slice(&[HT]);
    assert_eq!(out, vec![Response::Ht { data: vec![] }]);
}

#[test]
fn parses_real_hardware_synth_lock_first_call() {
    // Confirmed wire dump from a real URC-200 V2: "?01" -> "A1" + 0x09 (HT)
    // on the first command after keypad→remote transition.
    let mut p = ResponseParser::new();
    let out = p.feed_slice(b"A1\x09");
    assert_eq!(out, vec![Response::Ht { data: b"A1".to_vec() }]);
}

#[test]
fn parses_real_hardware_synth_lock_second_call() {
    // Once in remote mode: "?01" -> "A1" + 0x06 (ACK).
    let mut p = ResponseParser::new();
    let out = p.feed_slice(b"A1\x06");
    assert_eq!(out, vec![Response::Ack { data: b"A1".to_vec() }]);
}

#[test]
fn parses_data_then_ack_for_rssi() {
    // ?03: "Nxxx", RSSI 0-255, followed by ACK.
    let mut p = ResponseParser::new();
    let out = p.feed_slice(b"N128\x06");
    assert_eq!(out, vec![Response::Ack { data: b"N128".to_vec() }]);
}

#[test]
fn parses_multiple_responses_in_stream() {
    let mut p = ResponseParser::new();
    // bare ACK, data+ACK, bare NAK
    let out = p.feed_slice(b"\x06A1\x06\x15");
    assert_eq!(
        out,
        vec![
            Response::Ack { data: vec![] },
            Response::Ack { data: b"A1".to_vec() },
            Response::Nak { data: vec![] },
        ]
    );
}

#[test]
fn single_byte_feed_produces_event_on_terminator() {
    let mut p = ResponseParser::new();
    assert!(p.feed(b'A').is_none());
    assert!(p.feed(b'1').is_none());
    let ev = p.feed(ACK).unwrap();
    assert_eq!(ev, Response::Ack { data: b"A1".to_vec() });
}

#[test]
fn reset_clears_partial_buffer() {
    let mut p = ResponseParser::new();
    p.feed_slice(b"PARTIAL");
    p.reset();
    let out = p.feed_slice(&[ACK]);
    assert_eq!(out, vec![Response::Ack { data: vec![] }]);
}

#[test]
fn overflow_flag_latches_on_long_junk() {
    let mut p = ResponseParser::new();
    let junk = vec![b'X'; MAX_DATA_LEN + 10];
    let out = p.feed_slice(&junk);
    assert!(out.is_empty());
    assert!(p.overflowed());
}

#[test]
fn nak_counter_ok_on_ack() {
    let mut c = NakCounter::new();
    assert_eq!(
        c.observe(&Response::Ack { data: vec![] }),
        DispatchOutcome::Accepted
    );
}

#[test]
fn nak_counter_retries_once_then_twice() {
    let mut c = NakCounter::new();
    assert_eq!(
        c.observe(&Response::Nak { data: vec![] }),
        DispatchOutcome::Retry { after: 1 }
    );
    assert_eq!(
        c.observe(&Response::Nak { data: vec![] }),
        DispatchOutcome::Retry { after: 2 }
    );
}

#[test]
fn nak_counter_faults_on_third_nak() {
    let mut c = NakCounter::new();
    c.observe(&Response::Nak { data: vec![] });
    c.observe(&Response::Nak { data: vec![] });
    assert_eq!(
        c.observe(&Response::Nak { data: vec![] }),
        DispatchOutcome::Fault
    );
}

#[test]
fn nak_counter_resets_on_ack_between_naks() {
    let mut c = NakCounter::new();
    c.observe(&Response::Nak { data: vec![] });
    c.observe(&Response::Nak { data: vec![] });
    c.observe(&Response::Ack { data: vec![] });
    assert_eq!(c.consecutive(), 0);
    assert_eq!(
        c.observe(&Response::Nak { data: vec![] }),
        DispatchOutcome::Retry { after: 1 }
    );
}

#[test]
fn nak_counter_resets_on_ht() {
    let mut c = NakCounter::new();
    c.observe(&Response::Nak { data: vec![] });
    c.observe(&Response::Ht { data: vec![] });
    assert_eq!(c.consecutive(), 0);
}

#[test]
fn overflow_survives_reset() {
    let mut p = ResponseParser::new();
    p.feed_slice(&vec![b'X'; MAX_DATA_LEN + 1]);
    assert!(p.overflowed());
    p.reset();
    assert!(p.overflowed());
    assert_eq!(p.feed_slice(b"A1\x06"), vec![Response::Ack { data: b"A1".to_vec() }]);
}

#[test]
fn longest_reply_does_not_overflow() {
    let mut p = ResponseParser::default();
    let mut wire = vec![b'X'; MAX_DATA_LEN];
    wire.push(ACK);
    assert_eq!(p.feed_slice(&wire), vec![Response::Ack { data: vec![b'X'; MAX_DATA_LEN] }]);
    assert!(!p.overflowed());
}

#[test]
fn chunks_do_not_matter() {
    let wire = b"\x06A1\x06\x15N128\x09";
    let mut whole = ResponseParser::new();
    let expected = whole.feed_slice(wire);
    for cut in 0..=wire.len() {
        let mut p = ResponseParser::new();
        let mut got = p.feed_slice(&wire[..cut]);
        got.extend(p.feed_slice(&wire[cut..]));
        assert_eq!(got, expected);
    }
}

#[test]
fn nak_counter_keeps_faulting() {
    let mut c = NakCounter::default();
    let nak = Response::Nak { data: vec![] };
    for _ in 0..300 {
        c.observe(&nak);
    }
    assert_eq!(c.consecutive(), 255);
    assert_eq!(c.observe(&nak), DispatchOutcome::Fault);
    c.reset();
    assert_eq!(c.observe(&nak), DispatchOutcome::Retry { after: 1 });
}

#[test]
fn response_accessors() {
    let r = Response::Ht { data: b"A1".to_vec() };
    assert!(r.is_ht() && !r.is_ack() && !r.is_nak());
    assert_eq!(r.data(), b"A1");
}
