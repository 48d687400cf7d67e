//! A client's control session: what the client says, what it is told.
//!
//! Client → server: hello (identifies the client), PTT start, heartbeat, stop.
//! Server → client: welcome, granted, denied, and, whoever the owner is,
//! acquired and released; errors.
use vstd::prelude::*;
use crate::ptt::{
    holds, ptt_handle, release_reason, releasing, ClientId, ClientLabel, Grant, GrantView,
    OwnerSnapshot, OwnerView, PttEvent, PttInput, PttView, ReleaseReason,
};
use crate::text::{append_decimal, decimal, law_decimal};

verus! {

/// What a client says.
#[derive(Debug)]
pub enum ClientMsg {
    Hello { label: Option<String> },
    PttStart,
    PttHeartbeat,
    PttStop,
}

/// What a client is told.
#[derive(Debug, Clone, PartialEq, Eq)]
pub enum ServerMsg {
    Welcome { client_id: String },
    PttGranted,
    PttDenied { reason: String, owner: Option<String> },
    PttAcquired { owner: String },
    PttReleased { previous: String, reason: String },
    Error { message: String },
}

/// What a [`ServerMsg`] stands for.
#[verifier::ext_equal]
pub enum ServerSays {
    Welcome(Seq<char>),
    PttGranted,
    PttDenied(Seq<char>, Option<Seq<char>>),
    PttAcquired(Seq<char>),
    PttReleased(Seq<char>, Seq<char>),
    Error(Seq<char>),
}

impl View for ServerMsg {
    type V = ServerSays;

    open spec fn view(&self) -> ServerSays {
        match *self {
            ServerMsg::Welcome { client_id } => ServerSays::Welcome(client_id@),
            ServerMsg::PttGranted => ServerSays::PttGranted,
            ServerMsg::PttDenied { reason, owner: Some(who) } => ServerSays::PttDenied(
                reason@,
                Some(who@),
            ),
            ServerMsg::PttDenied { reason, owner: None } => ServerSays::PttDenied(reason@, None),
            ServerMsg::PttAcquired { owner } => ServerSays::PttAcquired(owner@),
            ServerMsg::PttReleased { previous, reason } => ServerSays::PttReleased(
                previous@,
                reason@,
            ),
            ServerMsg::Error { message } => ServerSays::Error(message@),
        }
    }
}

/// The views of a list of messages.
pub open spec fn says(v: Seq<ServerMsg>) -> Seq<ServerSays> {
    v.map_values(|m: ServerMsg| m@)
}

/// Something that happens in a session.
#[derive(Debug)]
pub enum Incoming {
    /// The connection stands.
    Connected,
    /// Whether the message that was to be told got through.
    Told(bool),
    /// The arbiter has answered who holds the key.
    Owner(Option<OwnerSnapshot>),
    /// The arbiter has answered the client's start request.
    Answered(Grant),
    /// The arbiter has told everyone something.
    Event(PttEvent),
    /// Some of what the arbiter told was missed.
    EventsLagged,
    /// The arbiter will tell nothing more.
    EventsClosed,
    /// The client said something.
    Client(ClientMsg),
    /// The client sent a text that is no message; why it is none.
    BadJson(String),
    /// The client sent a binary frame.
    Binary,
    /// The client asks for a sign of life.
    Ping,
    Pong,
    /// The connection has ended or failed.
    Disconnected,
}

/// What the caller is to do.
#[derive(Debug)]
pub enum ControlAction {
    Nothing,
    /// Tell the client, and report whether it got through.
    Tell(ServerMsg),
    /// Tell the client, if that is possible.
    TryTell(ServerMsg),
    /// Listen to the arbiter from now on, and ask it who holds the key.
    AskOwner,
    /// Ask the arbiter for the key.
    Start { client: ClientId, label: ClientLabel },
    Heartbeat(ClientId),
    Stop(ClientId),
    /// Answer a ping.
    Pong,
    /// Tell the arbiter that the client is gone. The session is over.
    Goodbye(ClientId),
    /// The session is over before it began: the arbiter is told nothing.
    Leave,
}

/// What a [`ControlAction`] stands for.
#[verifier::ext_equal]
pub enum ControlOutput {
    Nothing,
    Tell(ServerSays),
    TryTell(ServerSays),
    AskOwner,
    Start(OwnerView),
    Heartbeat(Seq<char>),
    Stop(Seq<char>),
    Pong,
    Goodbye(Seq<char>),
    Leave,
}

impl View for ControlAction {
    type V = ControlOutput;

    open spec fn view(&self) -> ControlOutput {
        match *self {
            ControlAction::Nothing => ControlOutput::Nothing,
            ControlAction::Tell(m) => ControlOutput::Tell(m@),
            ControlAction::TryTell(m) => ControlOutput::TryTell(m@),
            ControlAction::AskOwner => ControlOutput::AskOwner,
            ControlAction::Start { client, label } => ControlOutput::Start(
                OwnerView { client: client@, label: label@ },
            ),
            ControlAction::Heartbeat(c) => ControlOutput::Heartbeat(c@),
            ControlAction::Stop(c) => ControlOutput::Stop(c@),
            ControlAction::Pong => ControlOutput::Pong,
            ControlAction::Goodbye(c) => ControlOutput::Goodbye(c@),
            ControlAction::Leave => ControlOutput::Leave,
        }
    }
}

/// How far a session has come.
#[derive(Debug, PartialEq, Eq, Structural, Clone, Copy)]
pub enum Stage {
    /// Nothing has happened yet.
    New,
    /// The welcome is on its way.
    Greeting,
    /// The arbiter is being asked who holds the key.
    Asking,
    /// The session waits for whatever comes.
    Open,
    /// The arbiter is being asked for the key.
    Starting,
    /// A message is on its way, and more may follow it.
    Telling,
    Over,
}

/// What a [`ControlSession`] stands for.
#[verifier::ext_equal]
pub struct SessionView {
    /// The client, as the arbiter knows it.
    pub me: OwnerView,
    pub stage: Stage,
    /// What is told after the message that is on its way.
    pub pending: Seq<ServerSays>,
}

/// What an event is told as.
pub open spec fn event_told(ev: PttEvent) -> ServerSays {
    match ev {
        PttEvent::Acquired(o) => ServerSays::PttAcquired(o.label@),
        PttEvent::Released { previous, reason } => ServerSays::PttReleased(
            previous.label@,
            reason.text(),
        ),
    }
}

/// What an open session does on something that happens.
pub open spec fn open_output(me: OwnerView, x: Incoming) -> ControlOutput {
    match x {
        Incoming::Event(ev) => ControlOutput::Tell(event_told(ev)),
        Incoming::EventsLagged => ControlOutput::TryTell(ServerSays::Error("event lag"@)),
        Incoming::EventsClosed => ControlOutput::Goodbye(me.client),
        Incoming::Client(ClientMsg::PttStart) => ControlOutput::Start(me),
        Incoming::Client(ClientMsg::PttHeartbeat) => ControlOutput::Heartbeat(me.client),
        Incoming::Client(ClientMsg::PttStop) => ControlOutput::Stop(me.client),
        Incoming::BadJson(e) => ControlOutput::TryTell(ServerSays::Error("bad json: "@ + e@)),
        Incoming::Binary => ControlOutput::TryTell(
            ServerSays::Error("binary frames not supported on control ws"@),
        ),
        Incoming::Ping => ControlOutput::Pong,
        Incoming::Disconnected => ControlOutput::Goodbye(me.client),
        _ => ControlOutput::Nothing,
    }
}

/// The stage of an open session after such an output.
pub open spec fn open_stage(out: ControlOutput) -> Stage {
    match out {
        ControlOutput::Tell(_) => Stage::Telling,
        ControlOutput::Start(_) => Stage::Starting,
        ControlOutput::Goodbye(_) => Stage::Over,
        _ => Stage::Open,
    }
}

/// The client after something that happens: a hello with a label that is not
/// empty sets the label.
pub open spec fn control_client(me: OwnerView, x: Incoming) -> OwnerView {
    match x {
        Incoming::Client(ClientMsg::Hello { label: Some(l) }) if l@.len() > 0 => OwnerView {
            label: l@,
            ..me
        },
        _ => me,
    }
}

/// What the client is told of the answer to its start request.
pub open spec fn grant_told(g: GrantView) -> Seq<ServerSays> {
    match g {
        GrantView::Granted => seq![ServerSays::PttGranted],
        GrantView::DeniedLockedBy(who) => seq![ServerSays::PttDenied("locked_by"@, Some(who))],
        GrantView::DeniedRadioError(e) => seq![
            ServerSays::PttDenied("radio_error"@, None),
            ServerSays::Error(e),
        ],
        GrantView::DeniedArbiterDown => seq![ServerSays::PttDenied("arbiter_down"@, None)],
    }
}

/// What a session does on something that happens, and where it stands then.
/// What does not belong to its stage it ignores, except that it takes note of
/// the client's label.
pub open spec fn control_step(s: SessionView, x: Incoming) -> (SessionView, ControlOutput) {
    let me = control_client(s.me, x);
    let t = SessionView { me, ..s };
    match (s.stage, x) {
        (Stage::New, Incoming::Connected) => (
            SessionView { stage: Stage::Greeting, ..t },
            ControlOutput::Tell(ServerSays::Welcome(me.client)),
        ),
        (Stage::Greeting, Incoming::Told(true)) => (
            SessionView { stage: Stage::Asking, ..t },
            ControlOutput::AskOwner,
        ),
        (Stage::Greeting, Incoming::Told(false)) => (
            SessionView { stage: Stage::Over, ..t },
            ControlOutput::Leave,
        ),
        (Stage::Asking, Incoming::Owner(Some(o))) => (
            SessionView { stage: Stage::Open, ..t },
            ControlOutput::TryTell(ServerSays::PttAcquired(o.label@)),
        ),
        (Stage::Asking, Incoming::Owner(None)) => (
            SessionView { stage: Stage::Open, ..t },
            ControlOutput::Nothing,
        ),
        (Stage::Open, _) => {
            let out = open_output(me, x);
            (SessionView { stage: open_stage(out), pending: seq![], ..t }, out)
        },
        (Stage::Starting, Incoming::Answered(grant)) => {
            let told = grant_told(grant@);
            (
                SessionView { stage: Stage::Telling, pending: told.skip(1), ..t },
                ControlOutput::Tell(told[0]),
            )
        },
        (Stage::Telling, Incoming::Told(true)) => if s.pending.len() > 0 {
            (
                SessionView { pending: s.pending.skip(1), ..t },
                ControlOutput::Tell(s.pending[0]),
            )
        } else {
            (SessionView { stage: Stage::Open, ..t }, ControlOutput::Nothing)
        },
        (Stage::Telling, Incoming::Told(false)) => (
            SessionView { stage: Stage::Over, ..t },
            ControlOutput::Goodbye(me.client),
        ),
        _ => (t, ControlOutput::Nothing),
    }
}

/// A client's session.
#[derive(Debug)]
pub struct ControlSession {
    client_id: ClientId,
    label: ClientLabel,
    stage: Stage,
    pending: Vec<ServerMsg>,
}

impl View for ControlSession {
    type V = SessionView;

    closed spec fn view(&self) -> SessionView {
        SessionView {
            me: OwnerView { client: self.client_id@, label: self.label@ },
            stage: self.stage,
            pending: says(self.pending@),
        }
    }
}

/// A session that has not begun. Until it introduces itself, the client goes by
/// a made-up label.
pub open spec fn new_session(client: Seq<char>) -> SessionView {
    SessionView {
        me: OwnerView { client, label: "anon-"@ + client },
        stage: Stage::New,
        pending: seq![],
    }
}

/// The id of the `n`th client.
pub open spec fn client_name(n: u64) -> Seq<char> {
    "c"@ + decimal(n as nat)
}

impl ControlSession {
    /// The session of the `n`th client.
    pub fn new(n: u64) -> (r: ControlSession)
        ensures
            r@ == new_session(client_name(n)),
    {
        let mut client_id = String::new();
        client_id.append("c");
        append_decimal(&mut client_id, n as u128);
        let mut label = String::new();
        label.append("anon-");
        label.append(client_id.as_str());
        assert(client_id@ =~= "c"@ + decimal(n as nat));
        assert(label@ =~= "anon-"@ + client_id@);
        let r = ControlSession { client_id, label, stage: Stage::New, pending: Vec::new() };
        assert(r@ =~= new_session("c"@ + decimal(n as nat)));
        r
    }

    pub fn client_id(&self) -> (r: ClientId)
        ensures
            r@ == self@.me.client,
    {
        self.client_id.clone()
    }

    /// Take something that happens, and say what is to be done.
    pub fn handle(&mut self, x: Incoming) -> (r: ControlAction)
        ensures
            (final(self)@, r@) == control_step(old(self)@, x),
    {
        match self.stage {
            Stage::Open => self.handle_open(x),
            Stage::Starting => match x {
                Incoming::Answered(grant) => {
                    let mut told = grant_messages(grant);
                    let ghost all = told@;
                    let first = told.remove(0);
                    self.stage = Stage::Telling;
                    self.pending = told;
                    assert(says(all)[0] == first@);
                    assert(self@.pending =~= says(all).skip(1));
                    ControlAction::Tell(first)
                },
                _ => self.note_label(x),
            },
            Stage::Telling => match x {
                Incoming::Told(true) => {
                    let ghost before = self.pending@;
                    if self.pending.len() > 0 {
                        let next = self.pending.remove(0);
                        assert(says(before)[0] == next@);
                        assert(self@.pending =~= says(before).skip(1));
                        ControlAction::Tell(next)
                    } else {
                        self.stage = Stage::Open;
                        ControlAction::Nothing
                    }
                },
                Incoming::Told(false) => {
                    self.stage = Stage::Over;
                    ControlAction::Goodbye(self.client_id.clone())
                },
                _ => self.note_label(x),
            },
            Stage::New => match x {
                Incoming::Connected => {
                    self.stage = Stage::Greeting;
                    ControlAction::Tell(ServerMsg::Welcome { client_id: self.client_id.clone() })
                },
                _ => self.note_label(x),
            },
            Stage::Greeting => match x {
                Incoming::Told(true) => {
                    self.stage = Stage::Asking;
                    ControlAction::AskOwner
                },
                Incoming::Told(false) => {
                    self.stage = Stage::Over;
                    ControlAction::Leave
                },
                _ => self.note_label(x),
            },
            Stage::Asking => match x {
                Incoming::Owner(Some(o)) => {
                    self.stage = Stage::Open;
                    ControlAction::TryTell(ServerMsg::PttAcquired { owner: o.label })
                },
                Incoming::Owner(None) => {
                    self.stage = Stage::Open;
                    ControlAction::Nothing
                },
                _ => self.note_label(x),
            },
            Stage::Over => self.note_label(x),
        }
    }

    /// Take note of the client's label, where it gives one, and do nothing else.
    fn note_label(&mut self, x: Incoming) -> (r: ControlAction)
        ensures
            final(self)@ == (SessionView { me: control_client(old(self)@.me, x), ..old(self)@ }),
            r@ == ControlOutput::Nothing,
    {
        match x {
            Incoming::Client(ClientMsg::Hello { label: Some(l) }) => {
                if !l.as_str().is_empty() {
                    self.label = l;
                }
            },
            _ => {},
        }
        ControlAction::Nothing
    }

    /// Take something that happens while the session is open.
    fn handle_open(&mut self, x: Incoming) -> (r: ControlAction)
        requires
            old(self)@.stage == Stage::Open,
        ensures
            (final(self)@, r@) == control_step(old(self)@, x),
    {
        self.pending = Vec::new();
        assert(self@.pending =~= Seq::<ServerSays>::empty());
        match x {
            Incoming::Event(PttEvent::Acquired(o)) => {
                self.stage = Stage::Telling;
                ControlAction::Tell(ServerMsg::PttAcquired { owner: o.label })
            },
            Incoming::Event(PttEvent::Released { previous, reason }) => {
                self.stage = Stage::Telling;
                ControlAction::Tell(
                    ServerMsg::PttReleased {
                        previous: previous.label,
                        reason: reason.as_str().to_string(),
                    },
                )
            },
            Incoming::EventsLagged => ControlAction::TryTell(
                ServerMsg::Error { message: "event lag".to_string() },
            ),
            Incoming::Client(ClientMsg::PttStart) => {
                self.stage = Stage::Starting;
                ControlAction::Start { client: self.client_id.clone(), label: self.label.clone() }
            },
            Incoming::Client(ClientMsg::PttHeartbeat) => ControlAction::Heartbeat(
                self.client_id.clone(),
            ),
            Incoming::Client(ClientMsg::PttStop) => ControlAction::Stop(self.client_id.clone()),
            Incoming::BadJson(e) => {
                let mut message = String::new();
                message.append("bad json: ");
                message.append(e.as_str());
                assert(message@ =~= "bad json: "@ + e@);
                ControlAction::TryTell(ServerMsg::Error { message })
            },
            Incoming::Binary => ControlAction::TryTell(
                ServerMsg::Error {
                    message: "binary frames not supported on control ws".to_string(),
                },
            ),
            Incoming::Ping => ControlAction::Pong,
            Incoming::EventsClosed | Incoming::Disconnected => {
                self.stage = Stage::Over;
                ControlAction::Goodbye(self.client_id.clone())
            },
            _ => self.note_label(x),
        }
    }
}

/// What to tell the client of the answer to its start request, one message
/// after the other.
pub fn grant_messages(grant: Grant) -> (r: Vec<ServerMsg>)
    ensures
        says(r@) == grant_told(grant@),
{
    let mut out: Vec<ServerMsg> = Vec::new();
    match grant {
        Grant::Granted => out.push(ServerMsg::PttGranted),
        Grant::DeniedLockedBy(who) => out.push(
            ServerMsg::PttDenied { reason: "locked_by".to_string(), owner: Some(who) },
        ),
        Grant::DeniedRadioError(e) => {
            out.push(
                ServerMsg::PttDenied { reason: "radio_error".to_string(), owner: None },
            );
            out.push(ServerMsg::Error { message: e });
        },
        Grant::DeniedArbiterDown => out.push(
            ServerMsg::PttDenied { reason: "arbiter_down".to_string(), owner: None },
        ),
    }
    assert(says(out@) =~= grant_told(grant@));
    out
}

/// The end of a session unkeys where its client holds the key: the message
/// that goes out then starts a release.
pub proof fn law_leaving_unkeys(s: PttView, me: OwnerView, now: u64)
    requires
        s.phase is Ready,
        holds(s, me.client),
    ensures
        release_reason(s, PttInput::ClientGone(me.client), now) == Some(ReleaseReason::SocketClose),
        ptt_handle(s, PttInput::ClientGone(me.client), now) == releasing(
            s,
            ReleaseReason::SocketClose,
        ),
{
}

/// A session after a run of things that happen.
pub open spec fn session_run(s: SessionView, xs: Seq<Incoming>) -> SessionView
    decreases xs.len(),
{
    if xs.len() == 0 {
        s
    } else {
        control_step(session_run(s, xs.drop_last()), xs.last()).0
    }
}

/// What a session does in such a run, one output for each thing that happens.
pub open spec fn session_outputs(s: SessionView, xs: Seq<Incoming>) -> Seq<ControlOutput> {
    Seq::new(xs.len(), |i: int| control_step(session_run(s, xs.take(i)), xs[i]).1)
}

/// The label that a client last gave itself, or the one it began with.
pub open spec fn last_label(first: Seq<char>, xs: Seq<Incoming>) -> Seq<char>
    decreases xs.len(),
{
    if xs.len() == 0 {
        first
    } else {
        match xs.last() {
            Incoming::Client(ClientMsg::Hello { label: Some(l) }) if l@.len() > 0 => l@,
            _ => last_label(first, xs.drop_last()),
        }
    }
}

/// Whether an output goes to the arbiter.
pub open spec fn to_arbiter(out: ControlOutput) -> bool {
    out is AskOwner || out is Start || out is Heartbeat || out is Stop || out is Goodbye
}

/// The course of every session, whatever happens in it. The first thing done is
/// the welcome with the client's id. A goodbye carries that id, comes once, and
/// nothing at all is done after it. A session that is over has said goodbye,
/// unless the welcome did not get through: then the arbiter has never heard of
/// the client.
pub proof fn law_session_course(client: Seq<char>, xs: Seq<Incoming>)
    ensures
        ({
            let out = session_outputs(new_session(client), xs);
            let end = session_run(new_session(client), xs);
            &&& forall|i: int|
                #![trigger out[i]]
                0 <= i < xs.len() && out[i] !is Nothing && (forall|j: int|
                    0 <= j < i ==> (#[trigger] out[j]) is Nothing) ==> out[i]
                    == ControlOutput::Tell(ServerSays::Welcome(client))
            &&& forall|i: int, j: int|
                0 <= i < j < xs.len() && (#[trigger] out[i]) is Goodbye ==> (#[trigger] out[j])
                    is Nothing
            &&& forall|i: int|
                0 <= i < xs.len() && (#[trigger] out[i]) is Goodbye ==> out[i]
                    == ControlOutput::Goodbye(client)
            &&& end.stage == Stage::Over ==> exists|i: int|
                0 <= i < xs.len() && ((#[trigger] out[i]) is Goodbye || out[i] is Leave)
            &&& forall|i: int, j: int|
                0 <= i < xs.len() && 0 <= j < xs.len() && (#[trigger] out[i]) is Leave
                    ==> !to_arbiter(#[trigger] out[j])
        }),
{
    let s = new_session(client);
    let out = session_outputs(s, xs);
    assert forall|i: int|
        #![trigger out[i]]
        0 <= i < xs.len() && out[i] !is Nothing && (forall|j: int|
            0 <= j < i ==> (#[trigger] out[j]) is Nothing) implies out[i] == ControlOutput::Tell(
        ServerSays::Welcome(client),
    ) by {
        let before = xs.take(i);
        lemma_prefix_outputs(s, xs, i);
        lemma_early_stages(client, before);
        lemma_own_name(client, before);
        assert forall|j: int| 0 <= j < i implies (#[trigger] session_outputs(s, before)[j])
            is Nothing by {
            assert(out[j] is Nothing);
        }
    }
    assert forall|i: int, j: int|
        0 <= i < j < xs.len() && ((#[trigger] out[i]) is Goodbye || out[i] is Leave) implies (
    #[trigger] out[j]) is Nothing by {
        lemma_run_step(s, xs, i);
        lemma_over_stays(s, xs, i + 1, j);
    }
    assert forall|i: int| 0 <= i < xs.len() && (#[trigger] out[i]) is Goodbye implies out[i]
        == ControlOutput::Goodbye(client) by {
        lemma_own_name(client, xs.take(i));
    }
    lemma_over_was_left(s, xs);
    assert forall|i: int, j: int|
        0 <= i < xs.len() && 0 <= j < xs.len() && (#[trigger] out[i]) is Leave implies !to_arbiter(
        #[trigger] out[j],
    ) by {
        if j < i {
            lemma_prefix_outputs(s, xs, i);
            lemma_early_stages(client, xs.take(i));
            assert(session_outputs(s, xs.take(i))[j] == out[j]);
        } else if j > i {
            assert(out[j] is Nothing);
        }
    }
}

/// Once the welcome has got through, a session that is over has said goodbye.
pub proof fn law_welcomed_says_goodbye(client: Seq<char>, xs: Seq<Incoming>, i: int)
    requires
        0 <= i < xs.len(),
        session_run(new_session(client), xs.take(i)).stage == Stage::Greeting,
        xs[i] == Incoming::Told(true),
        session_run(new_session(client), xs).stage == Stage::Over,
    ensures
        exists|j: int|
            i < j < xs.len() && #[trigger] session_outputs(new_session(client), xs)[j]
                == ControlOutput::Goodbye(client),
{
    law_session_course(client, xs);
    let out = session_outputs(new_session(client), xs);
    assert(out[i] is AskOwner);
    let j = choose|j: int|
        0 <= j < xs.len() && ((#[trigger] out[j]) is Goodbye || out[j] is Leave);
    assert(out[j] !is Leave || !to_arbiter(out[i]));
    assert(out[j] is Goodbye);
    assert(j < i ==> out[i] is Nothing);
}

/// A session speaks for its client alone, and only when the client does. It
/// asks for the key, gives a sign of life or lets go only as the client has just
/// said so, always under the client's own id, and asks under the label that the
/// client last gave itself, or a made-up one where it gave none.
pub proof fn law_speaks_for_itself(client: Seq<char>, xs: Seq<Incoming>, i: int)
    requires
        0 <= i < xs.len(),
    ensures
        ({
            let out = session_outputs(new_session(client), xs)[i];
            &&& out is Start ==> {
                &&& xs[i] == Incoming::Client(ClientMsg::PttStart)
                &&& out == ControlOutput::Start(
                    OwnerView { client, label: last_label("anon-"@ + client, xs.take(i)) },
                )
            }
            &&& out is Heartbeat ==> {
                &&& xs[i] == Incoming::Client(ClientMsg::PttHeartbeat)
                &&& out == ControlOutput::Heartbeat(client)
            }
            &&& out is Stop ==> {
                &&& xs[i] == Incoming::Client(ClientMsg::PttStop)
                &&& out == ControlOutput::Stop(client)
            }
        }),
{
    lemma_own_name(client, xs.take(i));
}

/// An open session passes on what its client says: a start, a heartbeat or a
/// stop reaches the arbiter at once.
pub proof fn law_passes_on(s: SessionView)
    requires
        s.stage == Stage::Open,
    ensures
        control_step(s, Incoming::Client(ClientMsg::PttStart)).1 == ControlOutput::Start(s.me),
        control_step(s, Incoming::Client(ClientMsg::PttHeartbeat)).1 == ControlOutput::Heartbeat(
            s.me.client,
        ),
        control_step(s, Incoming::Client(ClientMsg::PttStop)).1 == ControlOutput::Stop(s.me.client),
        control_step(s, Incoming::Disconnected).1 == ControlOutput::Goodbye(s.me.client),
{
}

// ---------- Lemmas ----------

/// The outputs of a prefix are a prefix of the outputs.
proof fn lemma_prefix_outputs(s: SessionView, xs: Seq<Incoming>, i: int)
    requires
        0 <= i <= xs.len(),
    ensures
        session_outputs(s, xs.take(i)) == session_outputs(s, xs).take(i),
{
    assert forall|j: int| 0 <= j < i implies session_outputs(s, xs.take(i))[j] == session_outputs(
        s,
        xs,
    )[j] by {
        assert(xs.take(i).take(j) =~= xs.take(j));
    }
    assert(session_outputs(s, xs.take(i)) =~= session_outputs(s, xs).take(i));
}

/// One more thing that happens is one more step.
proof fn lemma_run_step(s: SessionView, xs: Seq<Incoming>, i: int)
    requires
        0 <= i < xs.len(),
    ensures
        session_run(s, xs.take(i + 1)) == control_step(session_run(s, xs.take(i)), xs[i]).0,
{
    assert(xs.take(i + 1).drop_last() =~= xs.take(i));
    assert(xs.take(i + 1).last() == xs[i]);
}

/// A session that is over stays over.
proof fn lemma_over_stays(s: SessionView, xs: Seq<Incoming>, i: int, j: int)
    requires
        0 <= i <= j <= xs.len(),
        session_run(s, xs.take(i)).stage == Stage::Over,
    ensures
        session_run(s, xs.take(j)).stage == Stage::Over,
    decreases j - i,
{
    if i < j {
        lemma_over_stays(s, xs, i, j - 1);
        lemma_run_step(s, xs, j - 1);
    }
}

/// The id never changes, and the label is the last one given.
proof fn lemma_own_name(client: Seq<char>, xs: Seq<Incoming>)
    ensures
        session_run(new_session(client), xs).me == (OwnerView {
            client,
            label: last_label("anon-"@ + client, xs),
        }),
    decreases xs.len(),
{
    if xs.len() > 0 {
        lemma_own_name(client, xs.drop_last());
    }
}

/// Before the welcome has got through, nothing else is done.
proof fn lemma_early_stages(client: Seq<char>, xs: Seq<Incoming>)
    ensures
        ({
            let s = new_session(client);
            let out = session_outputs(s, xs);
            let stage = session_run(s, xs).stage;
            &&& (forall|j: int| 0 <= j < xs.len() ==> (#[trigger] out[j]) is Nothing) ==> stage
                == Stage::New
            &&& stage == Stage::New || stage == Stage::Greeting ==> forall|j: int|
                0 <= j < xs.len() ==> (#[trigger] out[j]) is Nothing || out[j] is Tell
        }),
    decreases xs.len(),
{
    if xs.len() > 0 {
        let s = new_session(client);
        let n = xs.len() - 1;
        let before = xs.drop_last();
        assert(before =~= xs.take(n));
        lemma_early_stages(client, before);
        lemma_prefix_outputs(s, xs, n);
        let out = session_outputs(s, xs);
        let earlier = session_outputs(s, before);
        assert forall|j: int| 0 <= j < n implies #[trigger] earlier[j] == out[j] by {}
        assert(out[n] == control_step(session_run(s, before), xs[n]).1);
        if forall|j: int| 0 <= j < xs.len() ==> (#[trigger] out[j]) is Nothing {
            assert(out[n] is Nothing);
            assert forall|j: int| 0 <= j < n implies (#[trigger] earlier[j]) is Nothing by {
                assert(out[j] is Nothing);
            }
        }
        let stage = session_run(s, xs).stage;
        if stage == Stage::New || stage == Stage::Greeting {
            assert forall|j: int| 0 <= j < xs.len() implies (#[trigger] out[j]) is Nothing
                || out[j] is Tell by {
                if j < n {
                    assert(earlier[j] == out[j]);
                }
            }
        }
    }
}

/// A session that is over was ended by something it did.
proof fn lemma_over_was_left(s: SessionView, xs: Seq<Incoming>)
    requires
        s.stage == Stage::New,
    ensures
        session_run(s, xs).stage == Stage::Over ==> exists|i: int|
            0 <= i < xs.len() && ((#[trigger] session_outputs(s, xs)[i]) is Goodbye
                || session_outputs(s, xs)[i] is Leave),
    decreases xs.len(),
{
    if xs.len() > 0 && session_run(s, xs).stage == Stage::Over {
        let n = xs.len() - 1;
        let before = xs.drop_last();
        assert(before =~= xs.take(n));
        let out = session_outputs(s, xs);
        if session_run(s, before).stage == Stage::Over {
            lemma_over_was_left(s, before);
            lemma_prefix_outputs(s, xs, n);
            let i = choose|i: int|
                0 <= i < before.len() && ((#[trigger] session_outputs(s, before)[i]) is Goodbye
                    || session_outputs(s, before)[i] is Leave);
            assert(out[i] == session_outputs(s, before)[i]);
        } else {
            assert(out[n] == control_step(session_run(s, before), xs[n]).1);
            assert(out[n] is Goodbye || out[n] is Leave);
        }
    }
}

/// What a client is told of the key: who has it now, or who had it and why not
/// any more, by label, whoever the client is.
pub proof fn law_events_passed_on(s: SessionView, ev: PttEvent)
    requires
        s.stage == Stage::Open,
    ensures
        ({
            let (t, out) = control_step(s, Incoming::Event(ev));
            &&& t.me == s.me
            &&& t.stage == Stage::Telling
            &&& ev matches PttEvent::Acquired(o) ==> out == ControlOutput::Tell(
                ServerSays::PttAcquired(o.label@),
            )
            &&& ev matches PttEvent::Released { previous, reason } ==> out == ControlOutput::Tell(
                ServerSays::PttReleased(previous.label@, reason.text()),
            )
        }),
{
}

/// What a client is told of its own start request, and that the session goes on
/// once it has heard all of it: that it has the key, that another has it and
/// who, that the radio failed and how, or that the arbiter is gone.
pub proof fn law_answer_passed_on(s: SessionView, grant: Grant)
    requires
        s.stage == Stage::Starting,
    ensures
        ({
            let (t, out) = control_step(s, Incoming::Answered(grant));
            let (u, more) = control_step(t, Incoming::Told(true));
            let (v, none) = control_step(u, Incoming::Told(true));
            &&& match grant@ {
                GrantView::Granted => out == ControlOutput::Tell(ServerSays::PttGranted),
                GrantView::DeniedLockedBy(who) => out == ControlOutput::Tell(
                    ServerSays::PttDenied("locked_by"@, Some(who)),
                ),
                GrantView::DeniedRadioError(_) => out == ControlOutput::Tell(
                    ServerSays::PttDenied("radio_error"@, None),
                ),
                GrantView::DeniedArbiterDown => out == ControlOutput::Tell(
                    ServerSays::PttDenied("arbiter_down"@, None),
                ),
            }
            &&& grant@ matches GrantView::DeniedRadioError(e) ==> more == ControlOutput::Tell(
                ServerSays::Error(e),
            ) && v.stage == Stage::Open
            &&& !(grant@ is DeniedRadioError) ==> more is Nothing && u.stage == Stage::Open
            &&& t.me == s.me && u.me == s.me
        }),
{
}

/// A client that connects while someone has the key is told who; while nobody
/// has it, nothing. Either way the session is open then.
pub proof fn law_caught_up(s: SessionView, owner: Option<OwnerSnapshot>)
    requires
        s.stage == Stage::Asking,
    ensures
        ({
            let (t, out) = control_step(s, Incoming::Owner(owner));
            &&& t.stage == Stage::Open && t.me == s.me
            &&& owner matches Some(o) ==> out == ControlOutput::TryTell(
                ServerSays::PttAcquired(o.label@),
            )
            &&& owner is None ==> out is Nothing
        }),
{
}

/// Nothing but a lost connection ends an open session: bad text, binary frames,
/// pings and missed events are answered, if at all, and the session stays open.
pub proof fn law_session_survives(s: SessionView, e: String)
    requires
        s.stage == Stage::Open,
    ensures
        ({
            let at = |x: Incoming| control_step(s, x);
            &&& at(Incoming::BadJson(e)).1 == ControlOutput::TryTell(
                ServerSays::Error("bad json: "@ + e@),
            )
            &&& at(Incoming::Binary).1 == ControlOutput::TryTell(
                ServerSays::Error("binary frames not supported on control ws"@),
            )
            &&& at(Incoming::EventsLagged).1 == ControlOutput::TryTell(
                ServerSays::Error("event lag"@),
            )
            &&& at(Incoming::Ping).1 is Pong
            &&& at(Incoming::Pong).1 is Nothing
            &&& at(Incoming::BadJson(e)).0.stage == Stage::Open
            &&& at(Incoming::Binary).0.stage == Stage::Open
            &&& at(Incoming::EventsLagged).0.stage == Stage::Open
            &&& at(Incoming::Ping).0.stage == Stage::Open
            &&& at(Incoming::Pong).0.stage == Stage::Open
            &&& at(Incoming::Client(ClientMsg::PttHeartbeat)).0.stage == Stage::Open
            &&& at(Incoming::Client(ClientMsg::PttStop)).0.stage == Stage::Open
        }),
{
}

/// Whatever is told and does not get through ends an open session's turn with a
/// goodbye.
pub proof fn law_silence_ends_session(s: SessionView)
    requires
        s.stage == Stage::Telling,
    ensures
        control_step(s, Incoming::Told(false)).1 == ControlOutput::Goodbye(s.me.client),
        control_step(s, Incoming::Told(false)).0.stage == Stage::Over,
{
}

/// No two clients share an id.
pub proof fn law_ids_differ(a: u64, b: u64)
    ensures
        client_name(a) == client_name(b) <==> a == b,
{
    law_decimal(a as nat);
    law_decimal(b as nat);
    reveal_strlit("c");
    if client_name(a) == client_name(b) {
        assert(decimal(a as nat) =~= client_name(a).skip(1));
        assert(decimal(b as nat) =~= client_name(b).skip(1));
    }
}

} // verus!
