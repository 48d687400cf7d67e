//! PTT arbiter.
//!
//! Single-owner state machine. At most one client holds the key. A ticker
//! watches the heartbeat: where the owner has not sent one in 400 ms, the
//! arbiter releases the key and returns the radio to receive.
//!
//! Safety rules:
//!   - heartbeat timeout → `E`
//!   - socket close → `E`
//!   - server shutdown → `E`
//!   - second client's start while the key is held → denied
//!
//! The arbiter is driven from outside: [`PttArbiter::handle`] takes a message,
//! and where the answer is a command to send, [`PttArbiter::sent`] takes what
//! came of it. While a command is out, messages wait. Instants are in
//! nanoseconds.
use vstd::prelude::*;
use crate::command::OpCommand;
use crate::response::Response;
use crate::text::str_eq;
use crate::transport::RadioError;

verus! {

/// How often the caller sends [`PttMsg::Tick`], in nanoseconds.
pub const WATCHDOG_TICK: u64 = 50_000_000;

/// Ownership expires this long after the last heartbeat, in nanoseconds.
pub const HEARTBEAT_TIMEOUT: u64 = 400_000_000;

/// Uniquely identifies a browser connection. Assigned by the server.
pub type ClientId = String;

/// Short human-readable label shown to other clients.
pub type ClientLabel = String;

#[derive(Debug, Clone, PartialEq, Eq)]
pub struct OwnerSnapshot {
    pub client: ClientId,
    pub label: ClientLabel,
}

/// What an [`OwnerSnapshot`] stands for.
#[verifier::ext_equal]
pub struct OwnerView {
    pub client: Seq<char>,
    pub label: Seq<char>,
}

impl View for OwnerSnapshot {
    type V = OwnerView;

    open spec fn view(&self) -> OwnerView {
        OwnerView { client: self.client@, label: self.label@ }
    }
}

impl OwnerSnapshot {
    fn copy(&self) -> (r: OwnerSnapshot)
        ensures
            r@ == self@,
    {
        OwnerSnapshot { client: self.client.clone(), label: self.label.clone() }
    }
}

/// The answer to a client that asks for the key.
#[derive(Debug, Clone)]
pub enum Grant {
    Granted,
    DeniedLockedBy(ClientLabel),
    DeniedRadioError(String),
    DeniedArbiterDown,
}

/// What a [`Grant`] stands for.
#[verifier::ext_equal]
pub enum GrantView {
    Granted,
    DeniedLockedBy(Seq<char>),
    DeniedRadioError(Seq<char>),
    DeniedArbiterDown,
}

impl View for Grant {
    type V = GrantView;

    open spec fn view(&self) -> GrantView {
        match *self {
            Grant::Granted => GrantView::Granted,
            Grant::DeniedLockedBy(who) => GrantView::DeniedLockedBy(who@),
            Grant::DeniedRadioError(e) => GrantView::DeniedRadioError(e@),
            Grant::DeniedArbiterDown => GrantView::DeniedArbiterDown,
        }
    }
}

/// What every client is told.
#[derive(Debug, Clone)]
pub enum PttEvent {
    Acquired(OwnerSnapshot),
    Released { previous: OwnerSnapshot, reason: ReleaseReason },
}

#[derive(Debug, Clone, Copy, PartialEq, Eq, Structural)]
pub enum ReleaseReason {
    UserStop,
    HeartbeatTimeout,
    SocketClose,
    ServerShutdown,
    RadioError,
}

impl ReleaseReason {
    pub open spec fn text(self) -> Seq<char> {
        match self {
            ReleaseReason::UserStop => "user_stop"@,
            ReleaseReason::HeartbeatTimeout => "heartbeat_timeout"@,
            ReleaseReason::SocketClose => "socket_close"@,
            ReleaseReason::ServerShutdown => "server_shutdown"@,
            ReleaseReason::RadioError => "radio_error"@,
        }
    }

    pub fn as_str(&self) -> (r: &'static str)
        ensures
            r@ == self.text(),
    {
        match self {
            ReleaseReason::UserStop => "user_stop",
            ReleaseReason::HeartbeatTimeout => "heartbeat_timeout",
            ReleaseReason::SocketClose => "socket_close",
            ReleaseReason::ServerShutdown => "server_shutdown",
            ReleaseReason::RadioError => "radio_error",
        }
    }
}

/// A message to the arbiter.
#[derive(Debug)]
pub enum PttMsg {
    /// A client asks for the key.
    Start { client: ClientId, label: ClientLabel },
    Heartbeat(ClientId),
    Stop(ClientId),
    /// A client's connection has ended.
    ClientGone(ClientId),
    Shutdown,
    /// The watchdog's turn.
    Tick,
    /// No message can come any more.
    Closed,
}

/// What a [`PttMsg`] stands for.
#[verifier::ext_equal]
pub enum PttInput {
    Start(OwnerView),
    Heartbeat(Seq<char>),
    Stop(Seq<char>),
    ClientGone(Seq<char>),
    Shutdown,
    Tick,
    Closed,
}

impl View for PttMsg {
    type V = PttInput;

    open spec fn view(&self) -> PttInput {
        match *self {
            PttMsg::Start { client, label } => PttInput::Start(
                OwnerView { client: client@, label: label@ },
            ),
            PttMsg::Heartbeat(c) => PttInput::Heartbeat(c@),
            PttMsg::Stop(c) => PttInput::Stop(c@),
            PttMsg::ClientGone(c) => PttInput::ClientGone(c@),
            PttMsg::Shutdown => PttInput::Shutdown,
            PttMsg::Tick => PttInput::Tick,
            PttMsg::Closed => PttInput::Closed,
        }
    }
}

/// What the caller is to do.
#[derive(Debug)]
pub enum PttAction {
    /// Nothing.
    Rest,
    /// Send the command, and report what came of it.
    Send(OpCommand),
    /// Answer the client that asked for the key: it is not granted.
    Deny(Grant),
    /// Answer the client that asked for the key: it is granted. Tell everyone.
    Acquired(OwnerSnapshot),
    /// Tell everyone.
    Released(OwnerSnapshot, ReleaseReason),
    /// The arbiter is done.
    Exit,
}

/// What a [`PttAction`] stands for.
#[verifier::ext_equal]
pub enum PttOutput {
    Rest,
    Send(OpCommand),
    Deny(GrantView),
    Acquired(OwnerView),
    Released(OwnerView, ReleaseReason),
    Exit,
}

impl View for PttAction {
    type V = PttOutput;

    open spec fn view(&self) -> PttOutput {
        match *self {
            PttAction::Rest => PttOutput::Rest,
            PttAction::Send(c) => PttOutput::Send(c),
            PttAction::Deny(g) => PttOutput::Deny(g@),
            PttAction::Acquired(o) => PttOutput::Acquired(o@),
            PttAction::Released(o, reason) => PttOutput::Released(o@, reason),
            PttAction::Exit => PttOutput::Exit,
        }
    }
}

// ---------- The machine ----------

/// What the arbiter is in the middle of.
#[verifier::ext_equal]
pub enum PhaseView {
    /// Nothing: it takes the next message.
    Ready,
    /// The resync before keying is out.
    StartZap(OwnerView),
    /// The keying command is out.
    StartKey(OwnerView),
    /// The resync before unkeying is out.
    ReleaseZap(OwnerView, ReleaseReason),
    /// The unkeying command is out.
    ReleaseUnkey(OwnerView, ReleaseReason),
    /// The last unkeying command is out.
    LastUnkey,
    /// It has ended.
    Gone,
}

/// A held key: who holds it, and the instant of the last sign of life.
#[verifier::ext_equal]
pub struct Lease {
    pub who: OwnerView,
    pub last: u64,
}

/// What a [`PttArbiter`] stands for.
#[verifier::ext_equal]
pub struct PttView {
    pub owner: Option<Lease>,
    pub phase: PhaseView,
}

/// What came of a command.
#[verifier::ext_equal]
pub enum SendOutcome {
    Accepted,
    Refused,
    Failed(Seq<char>),
}

pub open spec fn send_outcome(r: Result<Response, RadioError>) -> SendOutcome {
    match r {
        Ok(resp) => if resp@.verdict is Nak {
            SendOutcome::Refused
        } else {
            SendOutcome::Accepted
        },
        Err(e) => SendOutcome::Failed(e.text()),
    }
}

/// Whether `client` holds the key.
pub open spec fn holds(s: PttView, client: Seq<char>) -> bool {
    s.owner is Some && s.owner->0.who.client == client
}

/// Whether the owner's last sign of life is too long ago.
pub open spec fn expired(s: PttView, now: u64) -> bool {
    s.owner is Some && now - s.owner->0.last > HEARTBEAT_TIMEOUT
}

/// The start of a release: the key is nobody's, and the resync goes out.
pub open spec fn releasing(s: PttView, reason: ReleaseReason) -> (PttView, PttOutput) {
    (
        PttView { owner: None, phase: PhaseView::ReleaseZap(s.owner->0.who, reason) },
        PttOutput::Send(OpCommand::Zap),
    )
}

/// What a message does to a ready arbiter.
pub open spec fn ptt_handle(s: PttView, msg: PttInput, now: u64) -> (PttView, PttOutput) {
    match msg {
        PttInput::Start(who) => if s.owner is Some {
            (s, PttOutput::Deny(GrantView::DeniedLockedBy(s.owner->0.who.label)))
        } else {
            (
                PttView { phase: PhaseView::StartZap(who), ..s },
                PttOutput::Send(OpCommand::Zap),
            )
        },
        PttInput::Heartbeat(client) => if holds(s, client) {
            (PttView { owner: Some(Lease { last: now, ..s.owner->0 }), ..s }, PttOutput::Rest)
        } else {
            (s, PttOutput::Rest)
        },
        PttInput::Stop(client) => if holds(s, client) {
            releasing(s, ReleaseReason::UserStop)
        } else {
            (s, PttOutput::Rest)
        },
        PttInput::ClientGone(client) => if holds(s, client) {
            releasing(s, ReleaseReason::SocketClose)
        } else {
            (s, PttOutput::Rest)
        },
        PttInput::Shutdown => if s.owner is Some {
            releasing(s, ReleaseReason::ServerShutdown)
        } else {
            (PttView { phase: PhaseView::Gone, ..s }, PttOutput::Exit)
        },
        PttInput::Tick => if expired(s, now) {
            releasing(s, ReleaseReason::HeartbeatTimeout)
        } else {
            (s, PttOutput::Rest)
        },
        PttInput::Closed => if s.owner is Some {
            (
                PttView { owner: None, phase: PhaseView::LastUnkey },
                PttOutput::Send(OpCommand::Receive),
            )
        } else {
            (PttView { phase: PhaseView::Gone, ..s }, PttOutput::Exit)
        },
    }
}

/// What the outcome of a command does to an arbiter that waits for it.
pub open spec fn ptt_sent(s: PttView, outcome: SendOutcome, now: u64) -> (PttView, PttOutput) {
    match s.phase {
        PhaseView::StartZap(who) => (
            PttView { phase: PhaseView::StartKey(who), ..s },
            PttOutput::Send(OpCommand::Transmit),
        ),
        PhaseView::StartKey(who) => match outcome {
            SendOutcome::Accepted => (
                PttView { owner: Some(Lease { who, last: now }), phase: PhaseView::Ready },
                PttOutput::Acquired(who),
            ),
            SendOutcome::Refused => (
                PttView { phase: PhaseView::Ready, ..s },
                PttOutput::Deny(GrantView::DeniedRadioError("radio NAK'd B"@)),
            ),
            SendOutcome::Failed(e) => (
                PttView { phase: PhaseView::Ready, ..s },
                PttOutput::Deny(GrantView::DeniedRadioError(e)),
            ),
        },
        PhaseView::ReleaseZap(who, reason) => (
            PttView { phase: PhaseView::ReleaseUnkey(who, reason), ..s },
            PttOutput::Send(OpCommand::Receive),
        ),
        PhaseView::ReleaseUnkey(who, reason) => (
            PttView {
                phase: if reason is ServerShutdown {
                    PhaseView::Gone
                } else {
                    PhaseView::Ready
                },
                ..s
            },
            PttOutput::Released(who, reason),
        ),
        PhaseView::LastUnkey => (
            PttView { phase: PhaseView::Gone, ..s },
            PttOutput::Exit,
        ),
        _ => (s, PttOutput::Rest),
    }
}

/// Whether a command is out.
pub open spec fn waiting(s: PttView) -> bool {
    !(s.phase is Ready) && !(s.phase is Gone)
}

/// The key has no owner while it is being taken or given back, nor at the end.
pub open spec fn ptt_sound(s: PttView) -> bool {
    s.phase is Ready || s.owner is None
}

/// An arbiter before the first message.
pub open spec fn new_arbiter() -> PttView {
    PttView { owner: None, phase: PhaseView::Ready }
}

/// Who holds the key.
pub open spec fn holder(s: PttView) -> Option<OwnerView> {
    match s.owner {
        Some(lease) => Some(lease.who),
        None => None,
    }
}

#[derive(Debug)]
enum Phase {
    Ready,
    StartZap(OwnerSnapshot),
    StartKey(OwnerSnapshot),
    ReleaseZap(OwnerSnapshot, ReleaseReason),
    ReleaseUnkey(OwnerSnapshot, ReleaseReason),
    LastUnkey,
    Gone,
}

impl View for Phase {
    type V = PhaseView;

    closed spec fn view(&self) -> PhaseView {
        match *self {
            Phase::Ready => PhaseView::Ready,
            Phase::StartZap(o) => PhaseView::StartZap(o@),
            Phase::StartKey(o) => PhaseView::StartKey(o@),
            Phase::ReleaseZap(o, reason) => PhaseView::ReleaseZap(o@, reason),
            Phase::ReleaseUnkey(o, reason) => PhaseView::ReleaseUnkey(o@, reason),
            Phase::LastUnkey => PhaseView::LastUnkey,
            Phase::Gone => PhaseView::Gone,
        }
    }
}

#[derive(Debug)]
struct Owner {
    snapshot: OwnerSnapshot,
    last_heartbeat: u64,
}

/// The state of the arbiter.
#[derive(Debug)]
pub struct PttArbiter {
    owner: Option<Owner>,
    phase: Phase,
}

impl View for PttArbiter {
    type V = PttView;

    closed spec fn view(&self) -> PttView {
        PttView {
            owner: match self.owner {
                Some(o) => Some(Lease { who: o.snapshot@, last: o.last_heartbeat }),
                None => None,
            },
            phase: self.phase@,
        }
    }
}

impl PttArbiter {
    pub fn new() -> (r: PttArbiter)
        ensures
            r@ == new_arbiter(),
    {
        PttArbiter { owner: None, phase: Phase::Ready }
    }

    /// Whether the arbiter waits for the outcome of a command.
    pub fn is_waiting(&self) -> (r: bool)
        ensures
            r == waiting(self@),
    {
        match self.phase {
            Phase::Ready => false,
            Phase::Gone => false,
            _ => true,
        }
    }

    /// Whether the arbiter has ended.
    pub fn is_gone(&self) -> (r: bool)
        ensures
            r == (self@.phase is Gone),
    {
        match self.phase {
            Phase::Gone => true,
            _ => false,
        }
    }

    /// Who holds the key.
    pub fn query_owner(&self) -> (r: Option<OwnerSnapshot>)
        ensures
            match r {
                Some(o) => Some(o@),
                None => None,
            } == holder(self@),
    {
        match &self.owner {
            Some(o) => Some(o.snapshot.copy()),
            None => None,
        }
    }

    fn matches_owner(&self, client: &str) -> (r: bool)
        ensures
            r == holds(self@, client@),
    {
        match &self.owner {
            Some(o) => str_eq(o.snapshot.client.as_str(), client),
            None => false,
        }
    }

    fn handle_start(&mut self, client: ClientId, label: ClientLabel) -> (r: PttAction)
        requires
            old(self)@.phase is Ready,
        ensures
            (final(self)@, r@) == ptt_handle(
                old(self)@,
                PttInput::Start(OwnerView { client: client@, label: label@ }),
                0,
            ),
    {
        if let Some(o) = &self.owner {
            return PttAction::Deny(Grant::DeniedLockedBy(o.snapshot.label.clone()));
        }
        self.phase = Phase::StartZap(OwnerSnapshot { client, label });
        PttAction::Send(OpCommand::Zap)
    }

    fn release(&mut self, reason: ReleaseReason) -> (r: PttAction)
        requires
            old(self)@.owner is Some,
        ensures
            (final(self)@, r@) == releasing(old(self)@, reason),
    {
        if let Some(o) = self.owner.take() {
            self.phase = Phase::ReleaseZap(o.snapshot, reason);
        }
        PttAction::Send(OpCommand::Zap)
    }

    /// Take a message at instant `now`. No command may be out, and the arbiter
    /// must not have ended.
    pub fn handle(&mut self, msg: PttMsg, now: u64) -> (r: PttAction)
        requires
            old(self)@.phase is Ready,
        ensures
            (final(self)@, r@) == ptt_handle(old(self)@, msg@, now),
    {
        match msg {
            PttMsg::Start { client, label } => self.handle_start(client, label),
            PttMsg::Heartbeat(client) => {
                if self.matches_owner(client.as_str()) {
                    if let Some(o) = self.owner.take() {
                        self.owner = Some(
                            Owner { snapshot: o.snapshot, last_heartbeat: now },
                        );
                    }
                }
                PttAction::Rest
            },
            PttMsg::Stop(client) => {
                if self.matches_owner(client.as_str()) {
                    self.release(ReleaseReason::UserStop)
                } else {
                    PttAction::Rest
                }
            },
            PttMsg::ClientGone(client) => {
                if self.matches_owner(client.as_str()) {
                    self.release(ReleaseReason::SocketClose)
                } else {
                    PttAction::Rest
                }
            },
            PttMsg::Shutdown => {
                if self.owner.is_some() {
                    self.release(ReleaseReason::ServerShutdown)
                } else {
                    self.phase = Phase::Gone;
                    PttAction::Exit
                }
            },
            PttMsg::Tick => {
                let stale = match &self.owner {
                    Some(o) => now > o.last_heartbeat && now - o.last_heartbeat > HEARTBEAT_TIMEOUT,
                    None => false,
                };
                if stale {
                    self.release(ReleaseReason::HeartbeatTimeout)
                } else {
                    PttAction::Rest
                }
            },
            PttMsg::Closed => {
                if self.owner.is_some() {
                    self.owner = None;
                    self.phase = Phase::LastUnkey;
                    PttAction::Send(OpCommand::Receive)
                } else {
                    self.phase = Phase::Gone;
                    PttAction::Exit
                }
            },
        }
    }

    /// Take what came of the command that was out, at instant `now`.
    pub fn sent(&mut self, result: Result<Response, RadioError>, now: u64) -> (r: PttAction)
        requires
            waiting(old(self)@),
        ensures
            (final(self)@, r@) == ptt_sent(old(self)@, send_outcome(result), now),
    {
        let mut phase = Phase::Ready;
        std::mem::swap(&mut phase, &mut self.phase);
        match phase {
            Phase::StartZap(who) => {
                self.phase = Phase::StartKey(who);
                PttAction::Send(OpCommand::Transmit)
            },
            Phase::StartKey(who) => {
                match result {
                    Ok(resp) => {
                        if resp.is_nak() {
                            PttAction::Deny(
                                Grant::DeniedRadioError("radio NAK'd B".to_string()),
                            )
                        } else {
                            let told = who.copy();
                            self.owner = Some(Owner { snapshot: who, last_heartbeat: now });
                            PttAction::Acquired(told)
                        }
                    },
                    Err(e) => PttAction::Deny(Grant::DeniedRadioError(e.message())),
                }
            },
            Phase::ReleaseZap(who, reason) => {
                self.phase = Phase::ReleaseUnkey(who, reason);
                PttAction::Send(OpCommand::Receive)
            },
            Phase::ReleaseUnkey(who, reason) => {
                if let ReleaseReason::ServerShutdown = reason {
                    self.phase = Phase::Gone;
                }
                PttAction::Released(who, reason)
            },
            Phase::LastUnkey => {
                self.phase = Phase::Gone;
                PttAction::Exit
            },
            _ => PttAction::Rest,
        }
    }
}

// ---------- Laws ----------

/// Something that happens to the arbiter at an instant.
#[verifier::ext_equal]
pub enum PttStimulus {
    Message(PttInput, u64),
    Outcome(SendOutcome, u64),
}

/// One step of the arbiter. What does not concern it in its phase leaves it as
/// it is: a message while a command is out, an outcome while none is.
pub open spec fn ptt_step(s: PttView, x: PttStimulus) -> (PttView, PttOutput) {
    match x {
        PttStimulus::Message(msg, now) => if s.phase is Ready {
            ptt_handle(s, msg, now)
        } else {
            (s, PttOutput::Rest)
        },
        PttStimulus::Outcome(outcome, now) => if waiting(s) {
            ptt_sent(s, outcome, now)
        } else {
            (s, PttOutput::Rest)
        },
    }
}

/// The arbiter after a history, from the start.
pub open spec fn ptt_run(xs: Seq<PttStimulus>) -> PttView
    decreases xs.len(),
{
    if xs.len() == 0 {
        new_arbiter()
    } else {
        ptt_step(ptt_run(xs.drop_last()), xs.last()).0
    }
}

/// Whether a history leaves a granted transmission standing: the keying
/// command was accepted, and no unkeying command has gone out since.
pub open spec fn on_air(xs: Seq<PttStimulus>) -> bool
    decreases xs.len(),
{
    if xs.len() == 0 {
        false
    } else {
        match ptt_step(ptt_run(xs.drop_last()), xs.last()).1 {
            PttOutput::Acquired(_) => true,
            PttOutput::Send(OpCommand::Receive) => false,
            _ => on_air(xs.drop_last()),
        }
    }
}

/// Whatever happens, a standing transmission has an owner or is about to be
/// unkeyed; and when the arbiter has ended, none stands.
pub proof fn law_no_stray_carrier(xs: Seq<PttStimulus>)
    ensures
        ptt_sound(ptt_run(xs)),
        on_air(xs) <==> (ptt_run(xs).owner is Some || ptt_run(xs).phase is ReleaseZap),
        ptt_run(xs).phase is Gone ==> !on_air(xs),
    decreases xs.len(),
{
    if xs.len() > 0 {
        law_no_stray_carrier(xs.drop_last());
    }
}

/// The transmitter is keyed only for a client that asked for it, and only
/// while nobody holds the key: the keying command goes out right after the
/// resync that a start request of that client has led to.
pub proof fn law_keyed_on_request_only(xs: Seq<PttStimulus>, x: PttStimulus)
    requires
        ptt_step(ptt_run(xs), x).1 == PttOutput::Send(OpCommand::Transmit),
    ensures
        ptt_run(xs).owner is None,
        ptt_run(xs).phase is StartZap,
        exists|i: int, now: u64|
            0 <= i < xs.len() && xs[i] == PttStimulus::Message(
                PttInput::Start(ptt_run(xs).phase->StartZap_0),
                now,
            ) && #[trigger] requested_at(xs, i, now),
{
    law_no_stray_carrier(xs);
    lemma_start_requested(xs);
}

/// Marks the place of a start request in a history.
pub open spec fn requested_at(xs: Seq<PttStimulus>, i: int, now: u64) -> bool {
    0 <= i < xs.len() && xs[i] is Message && xs[i]->Message_1 == now && xs[i]->Message_0 is Start
        && ptt_run(xs.take(i)).owner is None
}

proof fn lemma_start_requested(xs: Seq<PttStimulus>)
    requires
        ptt_run(xs).phase is StartZap,
    ensures
        exists|i: int, now: u64|
            0 <= i < xs.len() && xs[i] == PttStimulus::Message(
                PttInput::Start(ptt_run(xs).phase->StartZap_0),
                now,
            ) && #[trigger] requested_at(xs, i, now),
    decreases xs.len(),
{
    let front = xs.drop_last();
    let s = ptt_run(front);
    match xs.last() {
        PttStimulus::Message(msg, now) => {
            if s.phase is Ready {
                let i = xs.len() - 1;
                assert(xs.take(i) =~= front);
                assert(msg == PttInput::Start(ptt_run(xs).phase->StartZap_0));
                assert(xs[i] == PttStimulus::Message(msg, now));
                assert(requested_at(xs, i, now));
            } else {
                lemma_start_in_front(xs);
            }
        },
        PttStimulus::Outcome(_, _) => {
            lemma_start_in_front(xs);
        },
    }
}

proof fn lemma_start_in_front(xs: Seq<PttStimulus>)
    requires
        xs.len() > 0,
        ptt_run(xs).phase is StartZap,
        ptt_run(xs.drop_last()) == ptt_run(xs),
    ensures
        exists|i: int, now: u64|
            0 <= i < xs.len() && xs[i] == PttStimulus::Message(
                PttInput::Start(ptt_run(xs).phase->StartZap_0),
                now,
            ) && #[trigger] requested_at(xs, i, now),
    decreases xs.len(), 0int,
{
    let front = xs.drop_last();
    lemma_start_requested(front);
    let (i, now) = choose|i: int, now: u64|
        0 <= i < front.len() && front[i] == PttStimulus::Message(
            PttInput::Start(ptt_run(front).phase->StartZap_0),
            now,
        ) && #[trigger] requested_at(front, i, now);
    assert(xs[i] == front[i]);
    assert(xs.take(i) =~= front.take(i));
    assert(requested_at(xs, i, now));
}

/// Why a ready arbiter gives up the key on a message, if it does.
pub open spec fn release_reason(s: PttView, msg: PttInput, now: u64) -> Option<ReleaseReason> {
    match msg {
        PttInput::Stop(client) if holds(s, client) => Some(ReleaseReason::UserStop),
        PttInput::ClientGone(client) if holds(s, client) => Some(ReleaseReason::SocketClose),
        PttInput::Shutdown if s.owner is Some => Some(ReleaseReason::ServerShutdown),
        PttInput::Tick if expired(s, now) => Some(ReleaseReason::HeartbeatTimeout),
        _ => None,
    }
}

/// A release unkeys: the owner's stop, the end of the owner's connection, a
/// shutdown and a missed heartbeat all send the resync and then the unkeying
/// command, whatever the radio answers, and only then tell everyone that the
/// key is free; after a shutdown the arbiter has ended.
pub proof fn law_release_unkeys(
    s: PttView,
    msg: PttInput,
    now: u64,
    zap: SendOutcome,
    t1: u64,
    unkey: SendOutcome,
    t2: u64,
)
    requires
        s.phase is Ready,
        release_reason(s, msg, now) is Some,
    ensures
        ({
            let reason = release_reason(s, msg, now)->0;
            let (s1, out1) = ptt_step(s, PttStimulus::Message(msg, now));
            let (s2, out2) = ptt_step(s1, PttStimulus::Outcome(zap, t1));
            let (s3, out3) = ptt_step(s2, PttStimulus::Outcome(unkey, t2));
            &&& out1 == PttOutput::Send(OpCommand::Zap)
            &&& out2 == PttOutput::Send(OpCommand::Receive)
            &&& out3 == PttOutput::Released(s.owner->0.who, reason)
            &&& s3.owner is None
            &&& s3.phase == (if reason is ServerShutdown {
                PhaseView::Gone
            } else {
                PhaseView::Ready
            })
        }),
{
}

/// Where no message can come any more while the key is held, the unkeying
/// command goes out before the arbiter ends.
pub proof fn law_closing_unkeys(s: PttView, now: u64, outcome: SendOutcome, later: u64)
    requires
        s.phase is Ready,
        s.owner is Some,
    ensures
        ({
            let (s1, out1) = ptt_step(s, PttStimulus::Message(PttInput::Closed, now));
            let (s2, out2) = ptt_step(s1, PttStimulus::Outcome(outcome, later));
            &&& out1 == PttOutput::Send(OpCommand::Receive)
            &&& out2 == PttOutput::Exit
            &&& s2.phase is Gone
            &&& s2.owner is None
        }),
{
}

/// While a client holds the key, nobody else can take it, keep it alive or
/// give it up: another start is denied with the owner's label, and heartbeats,
/// stops and disconnects of other clients change nothing.
pub proof fn law_others_cannot_interfere(s: PttView, who: OwnerView, other: Seq<char>, now: u64)
    requires
        s.phase is Ready,
        s.owner is Some,
        !holds(s, other),
    ensures
        ptt_handle(s, PttInput::Start(who), now) == (
            s,
            PttOutput::Deny(GrantView::DeniedLockedBy(s.owner->0.who.label)),
        ),
        ptt_handle(s, PttInput::Heartbeat(other), now) == (s, PttOutput::Rest),
        ptt_handle(s, PttInput::Stop(other), now) == (s, PttOutput::Rest),
        ptt_handle(s, PttInput::ClientGone(other), now) == (s, PttOutput::Rest),
{
}

/// A heartbeat of the owner buys 400 ms: up to then the watchdog leaves the
/// key alone, after that it releases it.
pub proof fn law_heartbeat_lease(s: PttView, beat: u64, tick: u64)
    requires
        s.phase is Ready,
        s.owner is Some,
        beat <= tick,
    ensures
        ({
            let client = s.owner->0.who.client;
            let (s1, out1) = ptt_handle(s, PttInput::Heartbeat(client), beat);
            let (s2, out2) = ptt_handle(s1, PttInput::Tick, tick);
            &&& out1 == PttOutput::Rest
            &&& tick - beat <= HEARTBEAT_TIMEOUT ==> s2 == s1 && out2 == PttOutput::Rest
            &&& tick - beat > HEARTBEAT_TIMEOUT ==> release_reason(s1, PttInput::Tick, tick)
                == Some(ReleaseReason::HeartbeatTimeout)
        }),
{
}

/// A silent owner loses the key in time: where ticks come no further apart than
/// they should, the first one past the 400 ms starts the release, at most one
/// tick later than that.
pub proof fn law_silence_unkeys_in_time(s: PttView, last_tick: u64, tick: u64)
    requires
        s.phase is Ready,
        s.owner is Some,
        last_tick <= tick <= last_tick + WATCHDOG_TICK,
        !expired(s, last_tick),
        expired(s, tick),
    ensures
        release_reason(s, PttInput::Tick, tick) == Some(ReleaseReason::HeartbeatTimeout),
        tick - s.owner->0.last <= HEARTBEAT_TIMEOUT + WATCHDOG_TICK,
        tick - s.owner->0.last <= 450_000_000,
        ptt_handle(s, PttInput::Tick, last_tick) == (s, PttOutput::Rest),
{
}

/// A free key is granted to whoever asks, once the radio accepts the keying
/// command; where the radio refuses it or does not answer, the key stays free.
pub proof fn law_grant(
    s: PttView,
    who: OwnerView,
    now: u64,
    zap: SendOutcome,
    t1: u64,
    key: SendOutcome,
    t2: u64,
)
    requires
        s.phase is Ready,
        s.owner is None,
    ensures
        ({
            let (s1, out1) = ptt_step(s, PttStimulus::Message(PttInput::Start(who), now));
            let (s2, out2) = ptt_step(s1, PttStimulus::Outcome(zap, t1));
            let (s3, out3) = ptt_step(s2, PttStimulus::Outcome(key, t2));
            &&& out1 == PttOutput::Send(OpCommand::Zap)
            &&& out2 == PttOutput::Send(OpCommand::Transmit)
            &&& s3.phase is Ready
            &&& match key {
                SendOutcome::Accepted => out3 == PttOutput::Acquired(who) && s3.owner == Some(
                    Lease { who, last: t2 },
                ),
                _ => out3 is Deny && s3.owner is None,
            }
        }),
{
}

/// What makes the owner give up the key, and what everyone is told. The owner's
/// own stop, the end of the owner's own connection, a shutdown, and a turn of
/// the watchdog more than 400 ms after the last sign of life each lead to the
/// resync, then to the unkeying command, and then to word of the release, with
/// the owner's name and the right reason, whatever the radio answers.
pub proof fn law_release_reasons(
    s: PttView,
    now: u64,
    zap: SendOutcome,
    unkey: SendOutcome,
    t1: u64,
    t2: u64,
)
    requires
        s.phase is Ready,
        s.owner is Some,
        s.owner->0.last <= now,
    ensures
        ({
            let me = s.owner->0.who;
            let course = |msg: PttInput|
                {
                    let (s1, out1) = ptt_step(s, PttStimulus::Message(msg, now));
                    let (s2, out2) = ptt_step(s1, PttStimulus::Outcome(zap, t1));
                    let (s3, out3) = ptt_step(s2, PttStimulus::Outcome(unkey, t2));
                    (out1, out2, out3, s3.owner)
                };
            let expected = |reason: ReleaseReason|
                (
                    PttOutput::Send(OpCommand::Zap),
                    PttOutput::Send(OpCommand::Receive),
                    PttOutput::Released(me, reason),
                    None::<Lease>,
                );
            &&& course(PttInput::Stop(me.client)) == expected(ReleaseReason::UserStop)
            &&& course(PttInput::ClientGone(me.client)) == expected(ReleaseReason::SocketClose)
            &&& course(PttInput::Shutdown) == expected(ReleaseReason::ServerShutdown)
            &&& now - s.owner->0.last > 400_000_000 ==> course(PttInput::Tick) == expected(
                ReleaseReason::HeartbeatTimeout,
            )
            &&& now - s.owner->0.last <= 400_000_000 ==> ptt_step(
                s,
                PttStimulus::Message(PttInput::Tick, now),
            ) == (s, PttOutput::Rest)
        }),
{
}

/// Only the owner can use the key: a client with another id can neither take
/// it, nor keep it alive, nor give it up, and hears the owner's label when it
/// asks; a heartbeat under the owner's id restarts the owner's 400 ms.
pub proof fn law_key_is_personal(s: PttView, who: OwnerView, client: Seq<char>, now: u64)
    requires
        s.phase is Ready,
        s.owner is Some,
    ensures
        ({
            let me = s.owner->0.who;
            let at = |msg: PttInput| ptt_step(s, PttStimulus::Message(msg, now));
            &&& at(PttInput::Start(who)) == (
                s,
                PttOutput::Deny(GrantView::DeniedLockedBy(me.label)),
            )
            &&& client != me.client ==> {
                &&& at(PttInput::Heartbeat(client)) == (s, PttOutput::Rest)
                &&& at(PttInput::Stop(client)) == (s, PttOutput::Rest)
                &&& at(PttInput::ClientGone(client)) == (s, PttOutput::Rest)
            }
            &&& client == me.client ==> at(PttInput::Heartbeat(client)) == (
                PttView { owner: Some(Lease { who: me, last: now }), phase: PhaseView::Ready },
                PttOutput::Rest,
            )
        }),
{
}

/// While nobody holds the key, only a start request moves the radio: heartbeats,
/// stops, disconnects and the watchdog do nothing, and a shutdown ends the
/// arbiter without a command.
pub proof fn law_free_key_rests(s: PttView, client: Seq<char>, now: u64)
    requires
        s.phase is Ready,
        s.owner is None,
    ensures
        ({
            let at = |msg: PttInput| ptt_step(s, PttStimulus::Message(msg, now));
            &&& at(PttInput::Heartbeat(client)) == (s, PttOutput::Rest)
            &&& at(PttInput::Stop(client)) == (s, PttOutput::Rest)
            &&& at(PttInput::ClientGone(client)) == (s, PttOutput::Rest)
            &&& at(PttInput::Tick) == (s, PttOutput::Rest)
            &&& at(PttInput::Shutdown).1 is Exit && at(PttInput::Shutdown).0.phase is Gone
            &&& at(PttInput::Closed).1 is Exit && at(PttInput::Closed).0.phase is Gone
        }),
{
}

/// How the answer to the keying command is taken: an ACK or an HT grants the
/// key, from that instant on, to the client that asked; a NAK and a failure
/// leave it free, and the client hears why.
pub proof fn law_keying_answers(s: PttView, who: OwnerView, result: Result<Response, RadioError>, now: u64)
    requires
        s.phase == PhaseView::StartKey(who),
        s.owner is None,
    ensures
        ({
            let (t, out) = ptt_step(s, PttStimulus::Outcome(send_outcome(result), now));
            &&& t.phase is Ready
            &&& result matches Ok(resp) ==> {
                &&& !(resp@.verdict is Nak) ==> out == PttOutput::Acquired(who) && t.owner == Some(
                    Lease { who, last: now },
                )
                &&& resp@.verdict is Nak ==> out == PttOutput::Deny(
                    GrantView::DeniedRadioError("radio NAK'd B"@),
                ) && t.owner is None
            }
            &&& result matches Err(e) ==> out == PttOutput::Deny(
                GrantView::DeniedRadioError(e.text()),
            ) && t.owner is None
        }),
{
}

/// The arbiter names as the holder exactly the client that everyone was last
/// told has the key, and nobody from the moment the key is given up; at first
/// nobody holds it.
pub proof fn law_holder(s: PttView, x: PttStimulus)
    requires
        ptt_sound(s),
    ensures
        ({
            let (t, out) = ptt_step(s, x);
            &&& holder(new_arbiter()) is None
            &&& new_arbiter().phase is Ready
            &&& out matches PttOutput::Acquired(who) ==> holder(t) == Some(who)
            &&& out is Released ==> holder(t) is None
            &&& !(out is Acquired) && holder(t) != holder(s) ==> holder(t) is None && (out
                == PttOutput::Send(OpCommand::Zap) || out == PttOutput::Send(OpCommand::Receive))
        }),
{
}

/// A command is out from the step that sends it on, and only then: the step after
/// it is its outcome, which either sends the next one or leaves none out.
pub proof fn law_waits_for_outcome(s: PttView, x: PttStimulus)
    ensures
        ({
            let (t, out) = ptt_step(s, x);
            &&& out is Send ==> waiting(t)
            &&& !waiting(s) && waiting(t) ==> out is Send
            &&& waiting(s) && x is Outcome && !(out is Send) ==> !waiting(t)
            &&& waiting(s) && x is Message ==> t == s
            &&& !waiting(new_arbiter())
        }),
{
}

} // verus!
