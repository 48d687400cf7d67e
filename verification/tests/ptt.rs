use hammerhead::command::OpCommand;
use hammerhead::control::{
    grant_messages, ClientMsg, ControlAction, ControlSession, Incoming, ServerMsg,
};
use hammerhead::ptt::{
    Grant, OwnerSnapshot, PttAction, PttArbiter, PttEvent, PttMsg, ReleaseReason,
    HEARTBEAT_TIMEOUT, WATCHDOG_TICK,
};
use hammerhead::response::Response;
use hammerhead::transport::RadioError;

/// Drives an arbiter against a radio that answers from a list, then with ACK.
struct Rig {
    arbiter: PttArbiter,
    now: u64,
    sent: Vec<OpCommand>,
    answers: Vec<Result<Response, RadioError>>,
    events: Vec<PttEvent>,
}

fn ack() -> Result<Response, RadioError> {
    Ok(Response::Ack { data: vec![] })
}

impl Rig {
    fn new() -> Rig {
        Rig { arbiter: PttArbiter::new(), now: 0, sent: vec![], answers: vec![], events: vec![] }
    }

    fn give(&mut self, msg: PttMsg) -> Option<Grant> {
        let mut action = self.arbiter.handle(msg, self.now);
        loop {
            match action {
                PttAction::Rest | PttAction::Exit => return None,
                PttAction::Send(c) => {
                    self.sent.push(c);
                    let answer = if self.answers.is_empty() { ack() } else { self.answers.remove(0) };
                    action = self.arbiter.sent(answer, self.now);
                }
                PttAction::Deny(g) => return Some(g),
                PttAction::Acquired(o) => {
                    self.events.push(PttEvent::Acquired(o));
                    return Some(Grant::Granted);
                }
                PttAction::Released(previous, reason) => {
                    self.events.push(PttEvent::Released { previous, reason });
                    return None;
                }
            }
        }
    }

    fn start(&mut self, client: &str, label: &str) -> Grant {
        let msg = PttMsg::Start { client: client.to_string(), label: label.to_string() };
        self.give(msg).unwrap()
    }

    fn wait(&mut self, ms: u64) {
        for _ in 0..ms * 1_000_000 / WATCHDOG_TICK {
            self.now += WATCHDOG_TICK;
            self.give(PttMsg::Tick);
        }
    }

    fn released(&self) -> (&str, ReleaseReason) {
        match self.events.last() {
            Some(PttEvent::Released { previous, reason }) => (previous.label.as_str(), *reason),
            _ => panic!("expected Released"),
        }
    }
}

const KEY: [OpCommand; 2] = [OpCommand::Zap, OpCommand::Transmit];
const KEY_UNKEY: [OpCommand; 4] = [
    OpCommand::Zap,
    OpCommand::Transmit,
    OpCommand::Zap,
    OpCommand::Receive,
];

#[test]
fn start_grants_when_idle() {
    let mut r = Rig::new();
    let g = r.start("c1", "alice");
    assert!(matches!(g, Grant::Granted));
    let owner = r.arbiter.query_owner().unwrap();
    assert_eq!(owner.label, "alice");
    assert_eq!(r.sent, KEY);
}

#[test]
fn second_start_denied_while_held() {
    let mut r = Rig::new();
    let g1 = r.start("c1", "alice");
    assert!(matches!(g1, Grant::Granted));
    let g2 = r.start("c2", "bob");
    match g2 {
        Grant::DeniedLockedBy(who) => assert_eq!(who, "alice"),
        other => panic!("expected DeniedLockedBy, got {other:?}"),
    }
    assert_eq!(r.sent, KEY);
}

#[test]
fn stop_releases_and_unkeys() {
    let mut r = Rig::new();
    r.start("c1", "alice");
    r.give(PttMsg::Stop("c1".into()));
    let (label, reason) = r.released();
    assert_eq!(label, "alice");
    assert!(matches!(reason, ReleaseReason::UserStop));
    assert!(r.arbiter.query_owner().is_none());
    assert_eq!(r.sent, KEY_UNKEY);
}

#[test]
fn heartbeat_timeout_forces_unkey() {
    let mut r = Rig::new();
    r.start("c1", "alice");
    r.wait(HEARTBEAT_TIMEOUT / 1_000_000 + 100);
    let (_, reason) = r.released();
    assert!(matches!(reason, ReleaseReason::HeartbeatTimeout));
    assert!(r.arbiter.query_owner().is_none());
    assert_eq!(r.sent, KEY_UNKEY);
}

#[test]
fn watchdog_waits_for_the_whole_lease() {
    let mut r = Rig::new();
    r.start("c1", "alice");
    r.wait(400);
    assert!(r.arbiter.query_owner().is_some());
    r.wait(50);
    assert!(r.arbiter.query_owner().is_none());
}

#[test]
fn heartbeat_keeps_ownership_alive() {
    let mut r = Rig::new();
    r.start("c1", "alice");
    for _ in 0..5 {
        r.wait(100);
        r.give(PttMsg::Heartbeat("c1".into()));
    }
    assert!(r.arbiter.query_owner().is_some());
}

#[test]
fn socket_close_releases() {
    let mut r = Rig::new();
    r.start("c1", "alice");
    r.give(PttMsg::ClientGone("c1".into()));
    assert!(r.arbiter.query_owner().is_none());
    assert!(matches!(r.released().1, ReleaseReason::SocketClose));
}

#[test]
fn shutdown_while_keyed_unkeys_within_500ms() {
    let mut r = Rig::new();
    r.start("c1", "alice");
    let t0 = std::time::Instant::now();
    r.give(PttMsg::Shutdown);
    let elapsed = t0.elapsed();
    assert!(
        elapsed < std::time::Duration::from_millis(500),
        "unkey took {elapsed:?}, expected < 500ms"
    );
    assert_eq!(r.sent.last(), Some(&OpCommand::Receive));
    assert!(matches!(r.released().1, ReleaseReason::ServerShutdown));
}

#[test]
fn shutdown_releases_if_held() {
    let mut r = Rig::new();
    r.start("c1", "alice");
    r.give(PttMsg::Shutdown);
    let (_, reason) = r.released();
    assert!(matches!(reason, ReleaseReason::ServerShutdown));
    assert_eq!(r.sent, KEY_UNKEY);
    assert!(r.arbiter.is_gone());
}

#[test]
fn shutdown_when_idle_sends_nothing() {
    let mut r = Rig::new();
    r.give(PttMsg::Shutdown);
    assert!(r.arbiter.is_gone());
    assert!(r.sent.is_empty());
}

#[test]
fn heartbeat_from_non_owner_is_ignored() {
    let mut r = Rig::new();
    r.start("c1", "alice");
    for _ in 0..10 {
        r.wait(50);
        r.give(PttMsg::Heartbeat("c2".into()));
    }
    r.wait(100);
    assert!(r.arbiter.query_owner().is_none());
}

#[test]
fn stop_from_non_owner_is_ignored() {
    let mut r = Rig::new();
    r.start("c1", "alice");
    r.give(PttMsg::Stop("c2".into()));
    r.give(PttMsg::ClientGone("c2".into()));
    assert!(r.arbiter.query_owner().is_some());
    assert_eq!(r.sent, KEY);
}

#[test]
fn refused_key_is_denied() {
    let mut r = Rig::new();
    r.answers = vec![ack(), Ok(Response::Nak { data: vec![] })];
    match r.start("c1", "alice") {
        Grant::DeniedRadioError(e) => assert_eq!(e, "radio NAK'd B"),
        other => panic!("{other:?}"),
    }
    assert!(r.arbiter.query_owner().is_none());
    r.answers = vec![Err(RadioError::Fault), Err(RadioError::Closed)];
    match r.start("c1", "alice") {
        Grant::DeniedRadioError(e) => assert_eq!(e, "radio handle closed"),
        other => panic!("{other:?}"),
    }
    assert!(matches!(r.start("c2", "bob"), Grant::Granted));
}

#[test]
fn failed_unkey_still_frees_the_key() {
    let mut r = Rig::new();
    r.start("c1", "alice");
    r.answers = vec![Err(RadioError::Timeout(1)), Err(RadioError::Timeout(1))];
    r.give(PttMsg::Stop("c1".into()));
    assert_eq!(r.sent, KEY_UNKEY);
    assert!(r.arbiter.query_owner().is_none());
    assert!(!r.arbiter.is_waiting());
}

#[test]
fn lost_messages_unkey() {
    let mut r = Rig::new();
    r.start("c1", "alice");
    r.give(PttMsg::Closed);
    assert_eq!(r.sent, [OpCommand::Zap, OpCommand::Transmit, OpCommand::Receive]);
    assert!(r.arbiter.is_gone());
}

#[test]
fn release_reasons() {
    let all = [
        (ReleaseReason::UserStop, "user_stop"),
        (ReleaseReason::HeartbeatTimeout, "heartbeat_timeout"),
        (ReleaseReason::SocketClose, "socket_close"),
        (ReleaseReason::ServerShutdown, "server_shutdown"),
        (ReleaseReason::RadioError, "radio_error"),
    ];
    for (reason, text) in all {
        assert_eq!(reason.as_str(), text);
    }
}

// ---------- Control session ----------

/// A session that has been welcomed and has found the key free.
fn open_session(n: u64) -> ControlSession {
    let mut s = ControlSession::new(n);
    s.handle(Incoming::Connected);
    s.handle(Incoming::Told(true));
    s.handle(Incoming::Owner(None));
    s
}

/// The client that a session says goodbye for.
fn goodbye(a: ControlAction) -> String {
    match a {
        ControlAction::Goodbye(c) => c,
        other => panic!("{other:?}"),
    }
}

#[test]
fn session_begins_with_the_welcome() {
    let mut s = ControlSession::new(42);
    assert_eq!(s.client_id(), "c42");
    assert!(matches!(s.handle(Incoming::Client(ClientMsg::PttStart)), ControlAction::Nothing));
    match s.handle(Incoming::Connected) {
        ControlAction::Tell(m) => assert_eq!(m, ServerMsg::Welcome { client_id: "c42".into() }),
        other => panic!("{other:?}"),
    }
    assert!(matches!(s.handle(Incoming::Connected), ControlAction::Nothing));
    assert!(matches!(s.handle(Incoming::Told(true)), ControlAction::AskOwner));
    assert!(matches!(s.handle(Incoming::Owner(None)), ControlAction::Nothing));
    // Where the welcome does not get through, nothing else is done.
    let mut s = ControlSession::new(43);
    s.handle(Incoming::Connected);
    assert!(matches!(s.handle(Incoming::Told(false)), ControlAction::Leave));
    assert!(matches!(s.handle(Incoming::Disconnected), ControlAction::Nothing));
}

#[test]
fn session_introduces_itself() {
    let mut s = open_session(42);
    match s.handle(Incoming::Client(ClientMsg::PttStart)) {
        ControlAction::Start { client, label } => {
            assert_eq!((client.as_str(), label.as_str()), ("c42", "anon-c42"))
        }
        other => panic!("{other:?}"),
    }
    s.handle(Incoming::Answered(Grant::Granted));
    s.handle(Incoming::Told(true));
    s.handle(Incoming::Client(ClientMsg::Hello { label: Some("Hammer".into()) }));
    s.handle(Incoming::Client(ClientMsg::Hello { label: Some("".into()) }));
    s.handle(Incoming::Client(ClientMsg::Hello { label: None }));
    assert!(matches!(
        s.handle(Incoming::Client(ClientMsg::PttHeartbeat)),
        ControlAction::Heartbeat(c) if c == "c42"
    ));
    assert!(matches!(
        s.handle(Incoming::Client(ClientMsg::PttStop)),
        ControlAction::Stop(c) if c == "c42"
    ));
    match s.handle(Incoming::Client(ClientMsg::PttStart)) {
        ControlAction::Start { label, .. } => assert_eq!(label, "Hammer"),
        other => panic!("{other:?}"),
    }
}

#[test]
fn session_end_unkeys() {
    let mut r = Rig::new();
    r.start("c7", "alice");
    let other = goodbye(open_session(8).handle(Incoming::Disconnected));
    r.give(PttMsg::ClientGone(other));
    assert!(r.arbiter.query_owner().is_some());
    let own = goodbye(open_session(7).handle(Incoming::Disconnected));
    r.give(PttMsg::ClientGone(own));
    assert!(matches!(r.released().1, ReleaseReason::SocketClose));
    assert_eq!(r.sent, KEY_UNKEY);
}

#[test]
fn session_says_goodbye_once() {
    let owner = OwnerSnapshot { client: "c2".into(), label: "bob".into() };
    let mut ends: Vec<ControlSession> = vec![];
    let mut s = open_session(5);
    assert_eq!(goodbye(s.handle(Incoming::EventsClosed)), "c5");
    ends.push(s);
    let mut s = open_session(5);
    assert_eq!(goodbye(s.handle(Incoming::Disconnected)), "c5");
    ends.push(s);
    let mut s = open_session(5);
    s.handle(Incoming::Event(PttEvent::Acquired(owner)));
    assert_eq!(goodbye(s.handle(Incoming::Told(false))), "c5");
    ends.push(s);
    let mut s = open_session(5);
    s.handle(Incoming::Client(ClientMsg::PttStart));
    s.handle(Incoming::Answered(Grant::DeniedRadioError("off".into())));
    s.handle(Incoming::Told(true));
    assert_eq!(goodbye(s.handle(Incoming::Told(false))), "c5");
    ends.push(s);
    for mut s in ends {
        for x in [
            Incoming::Disconnected,
            Incoming::EventsClosed,
            Incoming::Told(false),
            Incoming::Connected,
            Incoming::Client(ClientMsg::PttStart),
        ] {
            assert!(matches!(s.handle(x), ControlAction::Nothing));
        }
    }
}

#[test]
fn session_tells_events() {
    let owner = OwnerSnapshot { client: "c2".into(), label: "bob".into() };
    let mut s = ControlSession::new(1);
    s.handle(Incoming::Connected);
    s.handle(Incoming::Told(true));
    match s.handle(Incoming::Owner(Some(owner.clone()))) {
        ControlAction::TryTell(m) => assert_eq!(m, ServerMsg::PttAcquired { owner: "bob".into() }),
        other => panic!("{other:?}"),
    }
    match s.handle(Incoming::Event(PttEvent::Acquired(owner.clone()))) {
        ControlAction::Tell(m) => assert_eq!(m, ServerMsg::PttAcquired { owner: "bob".into() }),
        other => panic!("{other:?}"),
    }
    assert!(matches!(s.handle(Incoming::Told(true)), ControlAction::Nothing));
    let ev = PttEvent::Released { previous: owner, reason: ReleaseReason::SocketClose };
    match s.handle(Incoming::Event(ev)) {
        ControlAction::Tell(m) => assert_eq!(
            m,
            ServerMsg::PttReleased { previous: "bob".into(), reason: "socket_close".into() }
        ),
        other => panic!("{other:?}"),
    }
}

#[test]
fn session_complains() {
    let mut s = open_session(1);
    let said = |a| match a {
        ControlAction::TryTell(ServerMsg::Error { message }) => message,
        other => panic!("{other:?}"),
    };
    assert_eq!(said(s.handle(Incoming::EventsLagged)), "event lag");
    assert_eq!(
        said(s.handle(Incoming::Binary)),
        "binary frames not supported on control ws"
    );
    assert_eq!(said(s.handle(Incoming::BadJson("eof".into()))), "bad json: eof");
    assert!(matches!(s.handle(Incoming::Ping), ControlAction::Pong));
    assert!(matches!(s.handle(Incoming::Pong), ControlAction::Nothing));
}

#[test]
fn session_passes_grants_on() {
    assert_eq!(grant_messages(Grant::Granted), vec![ServerMsg::PttGranted]);
    assert_eq!(
        grant_messages(Grant::DeniedLockedBy("bob".into())),
        vec![ServerMsg::PttDenied { reason: "locked_by".into(), owner: Some("bob".into()) }]
    );
    let both = vec![
        ServerMsg::PttDenied { reason: "radio_error".into(), owner: None },
        ServerMsg::Error { message: "off".into() },
    ];
    assert_eq!(grant_messages(Grant::DeniedRadioError("off".into())), both);
    assert_eq!(
        grant_messages(Grant::DeniedArbiterDown),
        vec![ServerMsg::PttDenied { reason: "arbiter_down".into(), owner: None }]
    );
    let mut s = open_session(1);
    s.handle(Incoming::Client(ClientMsg::PttStart));
    let mut action = s.handle(Incoming::Answered(Grant::DeniedRadioError("off".into())));
    let mut told = vec![];
    while let ControlAction::Tell(m) = action {
        told.push(m);
        action = s.handle(Incoming::Told(true));
    }
    assert_eq!(told, both);
    assert!(matches!(s.handle(Incoming::Ping), ControlAction::Pong));
}
