use hammerhead::channels::{
    check_group, csv_refusal, db_refusal, deleted, looked_up, send_and_tag, Channel, ChannelAction,
    ChannelTune,
    NewChannel, OwnedNewChannel,
};
use hammerhead::command::{ModMode, OpCommand};
use hammerhead::commands::{
    dispatch, parse_mod, parse_on_off, route_command, CommandReply, Route, TuneJob, TuneRequest,
};
use hammerhead::csv_import::{
    assemble, import_reply, mhz_text, normalize_mode, parse_csv, read_rows, step_text, tone_text,
    CsvEntry, CsvRows, Profile, RowNumbers,
};
use hammerhead::freq::{Band, Freq, Step};
use hammerhead::inquiry::{Inquiry, SquelchStatus};
use hammerhead::poller::{decode_telemetry, PollErrorKind, TelemetryUpdate};
use hammerhead::response::Response;
use hammerhead::scan::{
    default_dwell, default_settle, mode_to_urc, scan_session, start_reply, tunable_channels,
    ScanAction, ScanClientMsg, ScanConfig, ScanEvent, ScanIncoming, ScanReply, ScanSessionAction,
    Scanner,
};
use hammerhead::single::Single;
use hammerhead::telemetry::WsEvent;
use hammerhead::transport::{RadioError, TransportError};

fn ack() -> Result<Response, RadioError> {
    Ok(Response::Ack { data: vec![] })
}

fn nak() -> Result<Response, RadioError> {
    Ok(Response::Nak { data: vec![] })
}

fn single(v: f32) -> Single {
    Single(v.to_bits())
}

// ---------- Commands ----------

#[test]
fn words_become_commands() {
    let ok = |r: Route| route_command(r).unwrap().encode();
    assert_eq!(ok(Route::Preset(7)), b"P7");
    assert_eq!(ok(Route::Lamp("OFF".into())), b"L0");
    assert_eq!(ok(Route::Lamp("low".into())), b"L1");
    assert_eq!(ok(Route::Lamp("medium".into())), b"L2");
    assert_eq!(ok(Route::Lamp("3".into())), b"L3");
    assert_eq!(ok(Route::Speaker("On".into())), b"J1");
    assert_eq!(ok(Route::Speaker("false".into())), b"J0");
    assert_eq!(ok(Route::Squelch(255)), b"$255");
    assert_eq!(ok(Route::Mod("AM".into())), b"M0");
    assert_eq!(ok(Route::ModTxOnly("fm".into())), b"N1");
    assert_eq!(ok(Route::Text("Voice".into())), b"X0");
    assert_eq!(ok(Route::Text("cipher".into())), b"X1");
    assert_eq!(ok(Route::Power("lo".into())), b"#0");
    assert_eq!(ok(Route::Power("1".into())), b"#1");
    assert_eq!(ok(Route::Power("HIGH".into())), b"#2");
    assert_eq!(ok(Route::Scan("1".into())), b"S1");
    assert_eq!(ok(Route::ScanListMember("off".into())), b"C0");
    assert_eq!(ok(Route::Store), b"Q");
}

#[test]
fn nonsense_is_refused() {
    let hint = |r: Route| {
        let e = route_command(r).unwrap_err();
        assert_eq!(e.status, 400);
        e.message
    };
    assert_eq!(hint(Route::Preset(10)), "preset must be 0..=9");
    assert_eq!(hint(Route::Lamp("dim".into())), "lamp must be off/lo/med/hi");
    assert_eq!(hint(Route::Speaker("".into())), "speaker must be on/off");
    assert_eq!(hint(Route::Squelch(256)), "squelch must be 0..=255");
    assert_eq!(hint(Route::Mod("ssb".into())), "mod must be am/fm");
    assert_eq!(hint(Route::ModTxOnly("ssb".into())), "mod_tx_only must be am/fm");
    assert_eq!(hint(Route::Text("x".into())), "text must be pt/ct");
    assert_eq!(hint(Route::Power("3".into())), "power must be lo/med/hi");
    assert_eq!(hint(Route::Scan("x".into())), "scan must be on/off");
    assert_eq!(
        hint(Route::ScanListMember("x".into())),
        "scan_list_member must be on/off"
    );
}

#[test]
fn words_in_other_alphabets() {
    assert_eq!(parse_on_off("ΟN"), None);
    // The Kelvin sign is not ASCII; its lowercase is a plain k.
    assert_eq!("\u{212A}".to_lowercase(), "k");
    assert_eq!(parse_mod("A\u{212A}"), None);
    assert_eq!(parse_on_off("TRUE"), Some(true));
}

#[test]
fn replies_carry_status() {
    let (code, r) = dispatch(Ok(Response::Ack { data: b"A1".to_vec() })).unwrap();
    assert_eq!(code, 200);
    assert_eq!(r, CommandReply { ok: true, response_kind: "ack", data: Some("A1".into()) });
    let (code, r) = dispatch(Ok(Response::Ht { data: vec![] })).unwrap();
    assert_eq!((code, r.ok, r.response_kind, r.data), (200, true, "ht", None));
    let (code, r) = dispatch(nak()).unwrap();
    assert_eq!((code, r.ok, r.response_kind, r.data), (409, false, "nak", None));
    let (_, r) = dispatch(Ok(Response::Ack { data: vec![0xff, b'a'] })).unwrap();
    assert_eq!(r.data.as_deref(), Some("\u{fffd}a"));
}

#[test]
fn failed_exchanges_are_unavailable() {
    let said = |e| {
        let r = dispatch(Err(e)).unwrap_err();
        assert_eq!(r.status, 503);
        r.message
    };
    assert_eq!(said(RadioError::Timeout(500_000_000)), "radio timeout after 500ms");
    assert_eq!(said(RadioError::Timeout(1_500_000_000)), "radio timeout after 1.5s");
    assert_eq!(said(RadioError::Fault), "radio protocol fault (3 NAKs)");
    assert_eq!(
        said(RadioError::Transport(TransportError::Closed)),
        "transport: transport closed"
    );
    assert_eq!(said(RadioError::Closed), "radio handle closed");
}

fn request(rx_hz: u32, tx_hz: u32, mode: Option<&str>, step: Option<&str>) -> TuneRequest {
    TuneRequest {
        rx_hz,
        tx_hz,
        mode: mode.map(|s| s.to_string()),
        step: step.map(|s| s.to_string()),
    }
}

#[test]
fn tuning_runs_in_order() {
    let mut job = TuneJob::start(request(251_950_000, 252_950_000, Some("FM"), Some("25k"))).unwrap();
    let mut sent = vec![];
    while let Some(c) = job.next().unwrap() {
        sent.push(c.encode());
        job.record(ack()).unwrap();
    }
    assert_eq!(sent, [&b"R251950"[..], b"T252950", b"M1"]);
    let (status, reply) = job.finish();
    assert_eq!(status, 200);
    assert!(reply.rx.ok && reply.tx.ok && reply.mode.unwrap().ok);
}

#[test]
fn refused_tuning_is_a_conflict() {
    let mut job = TuneJob::start(request(251_950_000, 251_950_000, None, None)).unwrap();
    job.record(ack()).unwrap();
    job.record(nak()).unwrap();
    assert_eq!(job.next().unwrap(), None);
    let (status, reply) = job.finish();
    assert_eq!(status, 409);
    assert!(reply.rx.ok);
    assert_eq!(reply.tx.response_kind, "nak");
    assert!(reply.mode.is_none());
}

#[test]
fn bad_tunings_are_refused() {
    let said = |r: TuneRequest| {
        let e = TuneJob::start(r).err().unwrap();
        assert_eq!(e.status, 400);
        e.message
    };
    assert_eq!(
        said(request(251_950_000, 251_950_000, None, Some("1k"))),
        "unknown step \"1k\"; use 25k/12.5k/5k"
    );
    assert_eq!(
        said(request(100_000_000, 10_000_000, None, None)),
        "rx_hz 100000000 / tx_hz 10000000 not in any supported band"
    );
    assert_eq!(
        said(request(251_951_000, 251_950_000, None, None)),
        "rx_hz invalid: 251951000 Hz is not on the Khz5 grid"
    );
    assert_eq!(
        said(request(251_950_000, 410_000_000, None, None)),
        "tx_hz invalid: 410000000 Hz is outside Base band"
    );
    assert_eq!(
        said(request(100_000_000, 251_950_000, None, None)),
        "rx_hz invalid: 100000000 Hz is outside Base band"
    );
}

#[test]
fn unknown_mode_is_found_out_last() {
    let mut job = TuneJob::start(request(251_950_000, 251_950_000, Some("ssb"), Some("12_5k"))).unwrap();
    job.record(ack()).unwrap();
    job.record(ack()).unwrap();
    let e = job.next().unwrap_err();
    assert_eq!((e.status, e.message.as_str()), (400, "mode must be am/fm"));
}

#[test]
fn failed_tuning_names_the_part() {
    for (answered, message) in [
        (0, "rx: radio handle closed"),
        (1, "tx: radio handle closed"),
        (2, "mode: radio handle closed"),
    ] {
        let mut job = TuneJob::start(request(251_950_000, 251_950_000, Some("am"), None)).unwrap();
        for _ in 0..answered {
            assert!(job.next().unwrap().is_some());
            job.record(ack()).unwrap();
        }
        assert!(job.next().unwrap().is_some());
        let e = job.record(Err(RadioError::Closed)).unwrap_err();
        assert_eq!((e.status, e.message.as_str()), (503, message));
        // No command follows a failed exchange.
        for _ in 0..3 {
            assert_eq!(job.next(), Err(e.clone()));
        }
    }
    let mut job = TuneJob::start(request(251_950_000, 251_950_000, None, None)).unwrap();
    let e = job.record(Err(RadioError::Fault)).unwrap_err();
    assert_eq!(e.message, "rx: three consecutive NAKs — protocol fault");
}

// ---------- Channels ----------

fn channel(id: i64, name: &str, rx_hz: u32, tx_hz: u32, mode: Option<&str>) -> Channel {
    Channel {
        id,
        group_name: "G".into(),
        name: name.into(),
        rx_hz,
        tx_hz,
        mode: mode.map(|s| s.to_string()),
        step_khz: None,
        notes: None,
        ctcss_hz: None,
    }
}

#[test]
fn channel_tuning() {
    let mut ch = channel(3, "Tower", 128_500_000, 128_500_000, Some("AM"));
    ch.step_khz = Some(single(25.0));
    ch.ctcss_hz = Some(single(100.0));
    let mut job = ChannelTune::start(ch).unwrap();
    let mut sent = vec![];
    while let ChannelAction::Send(c) = job.next().unwrap() {
        sent.push(c.encode());
        job.record(if sent.len() == 2 { nak() } else { ack() }).unwrap();
    }
    assert_eq!(sent, [&b"R128500"[..], b"T128500", b"M0"]);
    for _ in 0..3 {
        assert_eq!(job.next(), Ok(ChannelAction::Done));
    }
    let done = job.finish();
    assert_eq!(done.channel.id, 3);
    assert_eq!(done.rx.response_kind, "ack");
    assert_eq!((done.tx.ok, done.tx.response_kind), (false, "nak"));
    assert!(done.mode.unwrap().ok);
}

#[test]
fn channel_tone_comes_once_and_last() {
    for tone in [Some(single(100.0)), None] {
        let mut ch = channel(3, "Tower", 128_500_000, 128_500_000, None);
        ch.ctcss_hz = tone;
        let mut job = ChannelTune::start(ch).unwrap();
        for _ in 0..2 {
            assert!(matches!(job.next(), Ok(ChannelAction::Send(_))));
            job.record(ack()).unwrap();
        }
        assert_eq!(job.next(), Ok(ChannelAction::SetTone(tone)));
        assert_eq!(job.next(), Ok(ChannelAction::Done));
    }
}

#[test]
fn failed_channel_tuning_leaves_the_tone() {
    for answered in 0..2 {
        let mut ch = channel(3, "Tower", 128_500_000, 128_500_000, None);
        ch.ctcss_hz = Some(single(100.0));
        let mut job = ChannelTune::start(ch).unwrap();
        for _ in 0..answered {
            job.next().unwrap();
            job.record(ack()).unwrap();
        }
        job.next().unwrap();
        let e = job.record(Err(RadioError::Closed)).unwrap_err();
        assert_eq!(e.status, 503);
        assert_eq!(e.message, ["rx: radio handle closed", "tx: radio handle closed"][answered]);
        for _ in 0..4 {
            assert_eq!(job.next(), Err(e.clone()));
        }
    }
}

#[test]
fn channel_refusals() {
    let e = ChannelTune::start(channel(1, "HF", 14_000_000, 14_100_000, None)).err().unwrap();
    assert_eq!(e.status, 400);
    assert_eq!(
        e.message,
        "channel HF freqs (14000000 / 14100000) not in any URC-200 band"
    );
    let mut ch = channel(1, "X", 128_505_000, 128_505_000, None);
    ch.step_khz = Some(single(12.5));
    let e = ChannelTune::start(ch).err().unwrap();
    assert_eq!(e.message, "rx: 128505000 Hz is not on the Khz12_5 grid");
    let mut ch = channel(1, "X", 128_505_000, 14_000_000, None);
    ch.step_khz = Some(single(8.33));
    let e = ChannelTune::start(ch).err().unwrap();
    assert_eq!(e.message, "tx: 14000000 Hz is outside Base band");
    let mut job = ChannelTune::start(channel(1, "X", 128_505_000, 128_505_000, Some("usb"))).unwrap();
    job.record(ack()).unwrap();
    job.record(ack()).unwrap();
    let e = job.next().unwrap_err();
    assert_eq!((e.status, e.message.as_str()), (400, "unknown mode \"usb\""));
    assert_eq!(job.next(), Err(e));
    let mut job = ChannelTune::start(channel(1, "X", 128_505_000, 128_505_000, Some("am"))).unwrap();
    job.record(ack()).unwrap();
    job.record(ack()).unwrap();
    let e = job.record(Err(RadioError::Timeout(500_000_000))).unwrap_err();
    assert_eq!((e.status, e.message.as_str()), (503, "mode: timeout after 500ms"));
}

#[test]
fn sent_commands_are_tagged() {
    let r = send_and_tag(nak());
    assert_eq!((r.status.ok, r.status.response_kind), (false, "nak"));
    assert!(r.as_err().is_ok());
    let r = send_and_tag(Err(RadioError::Timeout(2_000_000)));
    assert_eq!(r.status.response_kind, "timeout");
    assert_eq!(r.as_err().unwrap_err(), "timeout after 2ms");
    let r = send_and_tag(Err(RadioError::Closed));
    assert_eq!(r.status.response_kind, "error");
    assert_eq!(r.as_err().unwrap_err(), "radio handle closed");
}

#[test]
fn library_answers() {
    assert_eq!(check_group("").unwrap_err().message, "group query param required");
    assert!(check_group("Aviation").is_ok());
    assert_eq!(csv_refusal("x").message, "csv: x");
    let e = db_refusal("locked");
    assert_eq!((e.status, e.message.as_str()), (500, "db: locked"));
    assert_eq!(looked_up(Ok(None)).unwrap_err().status, 404);
    assert_eq!(looked_up(Err("x".into())).unwrap_err().message, "db: x");
    assert_eq!(looked_up(Ok(Some(channel(9, "a", 1, 2, None)))).unwrap().id, 9);
    assert!(deleted(Ok(true)).is_ok());
    assert_eq!(deleted(Ok(false)).unwrap_err().message, "no such channel");
    assert_eq!(deleted(Err("x".into())).unwrap_err().status, 500);
    let n = NewChannel {
        group_name: "G",
        name: "n",
        rx_hz: 1,
        tx_hz: 2,
        mode: Some("fm"),
        step_khz: None,
        notes: None,
    };
    let o = OwnedNewChannel::from_new(&n);
    assert_eq!((o.group_name.as_str(), o.name.as_str()), ("G", "n"));
    assert_eq!(o.mode.as_deref(), Some("fm"));
    assert!(o.ctcss_hz.is_none() && o.notes.is_none());
}

// ---------- CSV ----------

fn mhz(raw: &str) -> Option<u32> {
    let v: f64 = mhz_text(raw)?.parse().ok()?;
    if !(0.0..=10_000.0).contains(&v) {
        return None;
    }
    Some((v * 1_000_000.0).round() as u32)
}

fn numbers(rows: &CsvRows) -> Vec<RowNumbers> {
    let single_of = |t: &Option<String>| t.as_ref().and_then(|t| t.parse().ok()).map(single);
    rows.entries
        .iter()
        .map(|e| match e {
            CsvEntry::Row(r) => RowNumbers {
                rx_hz: mhz(&r.rx),
                tx_hz: mhz(&r.tx),
                step_khz: single_of(&r.step),
                ctcss_hz: single_of(&r.ctcss),
            },
            CsvEntry::Unreadable(_) => RowNumbers {
                rx_hz: None,
                tx_hz: None,
                step_khz: None,
                ctcss_hz: None,
            },
        })
        .collect()
}

#[test]
fn satcom_sheet() {
    let body = "Channel,Downlink,Uplink,Name,Bandwidth KHz,Comment\n\
                1,250.350,291.350, Alpha ,25, wide \n\
                2,SHF,300,Beta,25,\n\
                3,\"1,234.5\",300.1,Gamma,12.5 kHz,\n\
                4,250.1,DIG,Delta,,\n\
                5,250.1,250.2,,,\n";
    let rows = parse_csv(body).unwrap();
    assert_eq!(rows.profile, Profile::Satcom);
    let n = numbers(&rows);
    let got = assemble(rows, "SATCOM", &n);
    assert_eq!(got.profile.as_str(), "satcom");
    assert_eq!(
        got.skipped,
        ["Beta: rx \"SHF\" not a MHz value", "Delta: tx \"DIG\" not a MHz value"]
    );
    assert_eq!(got.channels.len(), 2);
    let a = &got.channels[0];
    assert_eq!((a.group_name.as_str(), a.name.as_str()), ("SATCOM", "Alpha"));
    assert_eq!((a.rx_hz, a.tx_hz), (250_350_000, 291_350_000));
    assert_eq!(a.step_khz, Some(single(25.0)));
    assert_eq!(a.notes.as_deref(), Some("wide"));
    assert_eq!(a.mode, None);
    let g = &got.channels[1];
    assert_eq!(g.rx_hz, 1_234_500_000);
    assert_eq!(g.step_khz, Some(single(12.5)));
    assert_eq!(g.notes, None);
}

#[test]
fn ham_sheet() {
    let body = "Receive Frequency,Transmit Frequency,Operating Mode,NAME,Step,CTCSS\n\
                146.94,146.34,FM Narrow,Rptr,5 kHz,162.2 Hz\n\
                121.5,121.5,am,Guard,25,None\n\
                144.2,144.2,USB,Call,,300\n";
    let rows = parse_csv(body).unwrap();
    assert_eq!(rows.profile, Profile::HamFull);
    let n = numbers(&rows);
    let got = assemble(rows, "Ham", &n);
    assert!(got.skipped.is_empty());
    let c = &got.channels;
    assert_eq!(c[0].mode.as_deref(), Some("fm"));
    assert_eq!(c[0].ctcss_hz, Some(single(162.2)));
    assert_eq!(c[1].mode.as_deref(), Some("am"));
    assert_eq!(c[1].ctcss_hz, None);
    assert_eq!(c[2].mode, None);
    assert_eq!(c[2].ctcss_hz, None);
    assert_eq!(c[2].step_khz, None);
}

#[test]
fn canonical_sheet_and_duplicate_headers() {
    let body = "name,rx_mhz,tx,mode,notes,rx_mhz\nA,1.0,2.0,fm,hi,3.0\nB,4.0\n";
    let rows = parse_csv(body).unwrap();
    assert_eq!(rows.profile, Profile::Canonical);
    let n = numbers(&rows);
    let got = assemble(rows, "G", &n);
    assert_eq!(got.channels[0].rx_hz, 3_000_000);
    assert_eq!(got.skipped, ["B: rx \"\" not a MHz value"]);
    let reply = import_reply(Ok(1), got.skipped, "G".into(), got.profile).unwrap();
    assert_eq!((reply.imported, reply.skipped.len(), reply.profile), (1, 1, "canonical"));
    let e = import_reply(Err("full".into()), vec![], "G".into(), Profile::Satcom).unwrap_err();
    assert_eq!((e.status, e.message.as_str()), (500, "db: full"));
}

#[test]
fn unknown_sheet() {
    assert_eq!(
        parse_csv("a,b\n1,2\n").unwrap_err(),
        "could not auto-detect CSV profile; headers were: [\"a\", \"b\"]. \
         Supported: satcom (Downlink/Uplink/Name), ham_full (Receive Frequency/Transmit Frequency/Name), \
         canonical (name/rx_mhz/tx_mhz)"
    );
    assert!(parse_csv("").unwrap_err().contains("headers were: []"));
}

#[test]
fn unreadable_records_are_reported() {
    let headers: Vec<String> = ["Name", "RX", "TX"].iter().map(|s| s.to_string()).collect();
    let records = vec![
        Ok(vec!["A".to_string(), "1".to_string(), "2".to_string()]),
        Err("broken".to_string()),
        Ok(vec![" ".to_string(), "1".to_string(), "2".to_string()]),
    ];
    let rows = read_rows(&headers, &records).unwrap();
    assert_eq!(rows.entries.len(), 2);
    let n = numbers(&rows);
    let got = assemble(rows, "G", &n);
    assert_eq!(got.channels.len(), 1);
    assert_eq!(got.skipped, ["row 3: broken"]);
}

#[test]
fn number_texts() {
    assert_eq!(step_text(" 12.5 kHz "), Some("12.5".into()));
    assert_eq!(step_text("  "), None);
    assert_eq!(step_text("wide"), Some("".into()));
    assert_eq!(tone_text("162.2 Hz"), Some("162.2".into()));
    assert_eq!(tone_text("NONE"), None);
    assert_eq!(tone_text("Off"), None);
    assert_eq!(tone_text(""), None);
    assert_eq!(mhz_text("\u{3000}1,250.5 "), Some("1250.5".into()));
    assert_eq!(mhz_text(""), None);
    assert_eq!(normalize_mode("NFM"), Some("fm".into()));
    assert_eq!(normalize_mode("Amplitude/AM"), Some("am".into()));
    assert_eq!(normalize_mode("usb"), None);
}

// ---------- Scanner ----------

fn config(settle_ms: u64, dwell_ms: u64, stop_on_hit: bool) -> ScanConfig {
    ScanConfig { group: Some("G".into()), dwell_ms, settle_ms, stop_on_hit }
}

fn three() -> Vec<Channel> {
    vec![
        channel(1, "one", 128_500_000, 128_500_000, Some("am")),
        channel(2, "hf", 14_000_000, 14_000_000, None),
        channel(3, "two", 251_950_000, 10_000_000, None),
        channel(4, "odd", 10_000_000, 251_950_000, None),
    ]
}

const MS: u64 = 1_000_000;

/// Runs beats until something is told, answering every command at once with ACK.
fn run(s: &mut Scanner, now: &mut u64, sent: &mut Vec<Vec<u8>>) -> Vec<ScanEvent> {
    for _ in 0..1000 {
        *now += 50 * MS;
        let mut a = s.tick(*now);
        loop {
            match a {
                ScanAction::Rest => break,
                ScanAction::Send(c) => {
                    sent.push(c.encode());
                    a = s.sent(ack(), *now);
                }
                ScanAction::Emit(e) => return e,
            }
        }
    }
    vec![]
}

#[test]
fn scan_walks_tunable_channels() {
    assert_eq!((default_dwell(), default_settle()), (3000, 200));
    let mut s = Scanner::new();
    let started = s.start(config(200, 3000, false), Ok(three()), 0);
    assert_eq!(started.reply, Ok(3));
    assert_eq!(started.event, ScanEvent::Started { total: 3, group: Some("G".into()) });
    let (mut now, mut sent) = (0, vec![]);
    let first = run(&mut s, &mut now, &mut sent);
    assert_eq!(
        first,
        [ScanEvent::Tuned {
            channel_id: 1,
            name: "one".into(),
            rx_hz: 128_500_000,
            tx_hz: 128_500_000,
            idx: 0,
            total: 3
        }]
    );
    assert_eq!(sent, [&b"R128500"[..], b"T128500", b"M0"]);
    assert_eq!(s.catch_up(), [started.event, first[0].clone()]);
    sent.clear();
    let second = run(&mut s, &mut now, &mut sent);
    assert!(matches!(&second[0], ScanEvent::Tuned { channel_id: 3, idx: 1, .. }));
    assert_eq!(sent, [&b"R251950"[..], b"T251950"]);
    sent.clear();
    let third = run(&mut s, &mut now, &mut sent);
    assert!(matches!(&third[0], ScanEvent::Tuned { channel_id: 1, .. }));
    assert_eq!(sent.len(), 3);
}

#[test]
fn scan_snapshot_is_current() {
    let mut s = Scanner::new();
    assert!(s.catch_up().is_empty());
    let (mut now, mut sent) = (0, vec![]);
    let started = s.start(config(200, 1000, false), Ok(three()), now).event;
    assert_eq!(s.catch_up(), [started.clone()]);
    let first = run(&mut s, &mut now, &mut sent);
    assert_eq!(s.catch_up(), [started.clone(), first[0].clone()]);
    // A hit, a skip and a start that fails leave what was tuned last.
    s.telemetry(&TelemetryUpdate::Squelch(SquelchStatus::Broken));
    assert!(matches!(run(&mut s, &mut now, &mut sent)[0], ScanEvent::Hit { .. }));
    s.skip(now);
    s.start(config(0, 0, false), Ok(vec![]), now);
    s.start(config(0, 0, false), Err("locked".into()), now);
    assert_eq!(s.catch_up(), [started.clone(), first[0].clone()]);
    let second = run(&mut s, &mut now, &mut sent);
    assert_eq!(s.catch_up(), [started, second[0].clone()]);
    // A new scan has tuned nothing yet.
    let mut one = three();
    one.truncate(1);
    let again = s.start(config(200, 1000, false), Ok(one), now).event;
    assert_eq!(again, ScanEvent::Started { total: 1, group: Some("G".into()) });
    assert_eq!(s.catch_up(), [again]);
    s.stop();
    assert!(s.catch_up().is_empty());
}

#[test]
fn scan_settles_after_tuning() {
    // The radio takes its time over each of the three commands of a tuning.
    let mut s = Scanner::new();
    s.start(config(200, 1000, false), Ok(three()), 0);
    s.telemetry(&TelemetryUpdate::Squelch(SquelchStatus::Broken));
    let mut now = 50 * MS;
    assert!(matches!(s.tick(now), ScanAction::Send(_)));
    for _ in 0..2 {
        now += 150 * MS;
        assert!(matches!(s.sent(ack(), now), ScanAction::Send(_)));
    }
    now += 150 * MS;
    assert!(matches!(s.sent(ack(), now), ScanAction::Emit(_)));
    for wait in [0, 50, 199] {
        assert!(matches!(s.tick(now + wait * MS), ScanAction::Rest));
    }
    match s.tick(now + 200 * MS) {
        ScanAction::Emit(e) => assert!(matches!(e[0], ScanEvent::Hit { channel_id: 1, .. })),
        other => panic!("{other:?}"),
    }
}

#[test]
fn scan_dwells_on_hits() {
    let mut s = Scanner::new();
    s.start(config(200, 1000, false), Ok(three()), 0);
    let (mut now, mut sent) = (0, vec![]);
    run(&mut s, &mut now, &mut sent);
    s.telemetry(&TelemetryUpdate::Squelch(SquelchStatus::Broken));
    let hit = run(&mut s, &mut now, &mut sent);
    assert_eq!(
        hit,
        [ScanEvent::Hit { channel_id: 1, name: "one".into(), rx_hz: 128_500_000 }]
    );
    for _ in 0..100 {
        now += 50 * MS;
        assert!(matches!(s.tick(now), ScanAction::Rest));
    }
    s.telemetry(&TelemetryUpdate::Squelch(SquelchStatus::Closed));
    let quiet = now;
    let next = run(&mut s, &mut now, &mut sent);
    assert!(matches!(&next[0], ScanEvent::Tuned { channel_id: 3, .. }));
    assert!(now - quiet >= 1000 * MS);
}

#[test]
fn scan_stops_on_hit() {
    let mut s = Scanner::new();
    s.start(config(0, 1000, true), Ok(three()), 0);
    s.telemetry(&TelemetryUpdate::Squelch(SquelchStatus::Broken));
    let (mut now, mut sent) = (0, vec![]);
    run(&mut s, &mut now, &mut sent);
    let end = run(&mut s, &mut now, &mut sent);
    assert_eq!(
        end,
        [
            ScanEvent::Hit { channel_id: 1, name: "one".into(), rx_hz: 128_500_000 },
            ScanEvent::Stopped { reason: "first_hit:one".into() },
        ]
    );
    assert!(s.catch_up().is_empty());
    assert!(s.stop().is_none());
}

#[test]
fn scan_commands() {
    let mut s = Scanner::new();
    let r = s.start(config(0, 0, false), Ok(vec![channel(2, "hf", 1, 2, None)]), 0);
    assert_eq!(r.reply.unwrap_err(), "no tunable channels in that group");
    assert_eq!(r.event, ScanEvent::Stopped { reason: "empty_list".into() });
    let r = s.start(config(0, 0, false), Err("locked".into()), 0);
    assert_eq!(r.reply.unwrap_err(), "db: locked");
    assert_eq!(r.event, ScanEvent::Stopped { reason: "db: locked".into() });
    s.start(config(0, 0, false), Ok(three()), 0);
    s.skip(5);
    match s.tick(10) {
        ScanAction::Send(c) => assert_eq!(c.encode(), b"R251950"),
        other => panic!("{other:?}"),
    }
    assert!(s.is_waiting());
    assert!(matches!(s.sent(Err(RadioError::Closed), 15), ScanAction::Rest));
    assert_eq!(s.stop(), Some(ScanEvent::Stopped { reason: "user_stop".into() }));
    assert!(matches!(s.tick(20), ScanAction::Rest));
    s.start(config(0, 0, false), Ok(three()), 0);
    s.shutdown();
    assert!(s.catch_up().is_empty());
}

#[test]
fn scan_helpers() {
    let ids: Vec<i64> = tunable_channels(three()).iter().map(|c| c.id).collect();
    assert_eq!(ids, [1, 3, 4]);
    assert_eq!(mode_to_urc("am"), Some(ModMode::Am));
    assert_eq!(mode_to_urc("fm"), Some(ModMode::Fm));
    assert_eq!(mode_to_urc("FM"), None);
}

#[test]
fn scan_sessions() {
    assert!(matches!(
        scan_session(ScanIncoming::Client(ScanClientMsg::Stop)),
        ScanSessionAction::Stop
    ));
    assert!(matches!(
        scan_session(ScanIncoming::Client(ScanClientMsg::Skip)),
        ScanSessionAction::Skip
    ));
    assert!(matches!(
        scan_session(ScanIncoming::Client(ScanClientMsg::Start(config(1, 2, true)))),
        ScanSessionAction::Start(c) if c.dwell_ms == 2
    ));
    assert!(matches!(
        scan_session(ScanIncoming::BadJson("eof".into())),
        ScanSessionAction::Answer(ScanReply::Error { message }) if message == "bad json: eof"
    ));
    assert!(matches!(scan_session(ScanIncoming::EventsLagged), ScanSessionAction::Nothing));
    assert!(matches!(scan_session(ScanIncoming::EventsClosed), ScanSessionAction::Leave));
    assert!(matches!(scan_session(ScanIncoming::Other), ScanSessionAction::Nothing));
    assert!(matches!(scan_session(ScanIncoming::Disconnected), ScanSessionAction::Leave));
    let ev = ScanEvent::Stopped { reason: "x".into() };
    assert!(matches!(
        scan_session(ScanIncoming::Event(ev.clone())),
        ScanSessionAction::Tell(e) if e == ev
    ));
    assert_eq!(start_reply(Ok(4)), ScanReply::StartAck { total: 4 });
    assert_eq!(start_reply(Err("no".into())), ScanReply::StartErr { message: "no".into() });
}

// ---------- Telemetry ----------

#[test]
fn telemetry_events() {
    let event = |inq, data: &[u8]| {
        let resp = Response::Ack { data: data.to_vec() };
        WsEvent::from_update(decode_telemetry(inq, &resp).unwrap())
    };
    assert_eq!(event(Inquiry::Rssi, b"N128"), WsEvent::Rssi { value: 128 });
    assert_eq!(event(Inquiry::SquelchStatus, b"[1"), WsEvent::Squelch { broken: true });
    assert_eq!(event(Inquiry::SynthLock, b"A0"), WsEvent::SynthLock { locked: false });
    assert_eq!(event(Inquiry::Mode, b"*1"), WsEvent::Mode { mode: "beacon" });
    assert_eq!(
        event(Inquiry::GeneralStatus, b"X1J1L3d6F1255"),
        WsEvent::General {
            text_mode: "ct",
            speaker_on: true,
            lamp: "hi",
            overtemp: true,
            options_byte: 6,
            ebn30: true,
            ebn400: true,
        }
    );
    assert_eq!(
        event(Inquiry::PresetSnapshot, b"T2519500R1285000M1N0C1P3#1"),
        WsEvent::Preset {
            preset: 3,
            tx_hz: 251_950_000,
            rx_hz: 128_500_000,
            mod_tx_rx: "fm",
            mod_tx_only: "am",
            power: "med",
            on_scan_list: true,
        }
    );
}

#[test]
fn telemetry_errors() {
    let kinds = [
        PollErrorKind::Timeout,
        PollErrorKind::Fault,
        PollErrorKind::Decode { raw: vec![78, 49] },
        PollErrorKind::Transport("say \"no\"".into()),
    ];
    for kind in kinds {
        let expected = format!("{kind:?}");
        let e = WsEvent::from_update(TelemetryUpdate::Error { inquiry: Inquiry::Rssi, kind });
        assert_eq!(e, WsEvent::Error { inquiry: "Rssi".into(), kind: expected });
    }
}

#[test]
fn requests_never_reach_reserved_commands() {
    let f = Freq::new(251_950_000, Band::Base, Step::Khz5).unwrap();
    let words = ["on", "off", "lo", "med", "hi", "am", "fm", "pt", "ct", "1", "2", "3", "0", "x"];
    for w in words {
        for route in [
            Route::Lamp(w.into()),
            Route::Speaker(w.into()),
            Route::Mod(w.into()),
            Route::ModTxOnly(w.into()),
            Route::Text(w.into()),
            Route::Power(w.into()),
            Route::Scan(w.into()),
            Route::ScanListMember(w.into()),
        ] {
            if let Ok(c) = route_command(route) {
                assert_ne!(c, OpCommand::Transmit);
                assert_ne!(c, OpCommand::Beacon(true));
                assert_ne!(c, OpCommand::ChannelInit);
                assert_ne!(c, OpCommand::Calibrate);
                assert_ne!(c, OpCommand::SetTx(f));
            }
        }
    }
}
