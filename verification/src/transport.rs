//! Byte-pipe transport: errors, and an in-memory transport for deterministic
//! scenarios.
use std::collections::VecDeque;
use vstd::prelude::*;
use crate::text::{append_byte_list, byte_list_text, bytes_eq, duration_string, duration_text};

verus! {

/// A failure of the byte pipe. Errors of the operating system and of the
/// serial driver are carried as their text.
#[derive(Debug)]
pub enum TransportError {
    Io(String),
    Serial(String),
    Closed,
    MockExhausted,
    MockWriteMismatch { expected: Vec<u8>, actual: Vec<u8> },
}

impl TransportError {
    /// The error as a sentence.
    pub open spec fn text(self) -> Seq<char> {
        match self {
            TransportError::Io(e) => "I/O error: "@ + e@,
            TransportError::Serial(e) => "serial port error: "@ + e@,
            TransportError::Closed => "transport closed"@,
            TransportError::MockExhausted => "mock script exhausted (test bug)"@,
            TransportError::MockWriteMismatch { expected, actual } => {
                "mock write mismatch: expected "@ + byte_list_text(expected@) + ", got "@
                    + byte_list_text(actual@)
            },
        }
    }

    pub fn message(&self) -> (r: String)
        ensures
            r@ == self.text(),
    {
        let mut out = String::new();
        match self {
            TransportError::Io(e) => {
                out.append("I/O error: ");
                out.append(e.as_str());
            },
            TransportError::Serial(e) => {
                out.append("serial port error: ");
                out.append(e.as_str());
            },
            TransportError::Closed => out.append("transport closed"),
            TransportError::MockExhausted => out.append("mock script exhausted (test bug)"),
            TransportError::MockWriteMismatch { expected, actual } => {
                out.append("mock write mismatch: expected ");
                append_byte_list(&mut out, expected.as_slice());
                out.append(", got ");
                append_byte_list(&mut out, actual.as_slice());
            },
        }
        out
    }
}

/// A failure of a command exchange.
#[derive(Debug)]
pub enum RadioError {
    Transport(TransportError),
    /// No reply within so many nanoseconds.
    Timeout(u64),
    /// Three NAKs in a row.
    Fault,
    Closed,
}

impl RadioError {
    /// The error as a sentence.
    pub open spec fn text(self) -> Seq<char> {
        match self {
            RadioError::Transport(e) => "transport error: "@ + e.text(),
            RadioError::Timeout(nanos) => "no response within "@ + duration_text(nanos),
            RadioError::Fault => "three consecutive NAKs — protocol fault"@,
            RadioError::Closed => "radio handle closed"@,
        }
    }

    pub fn message(&self) -> (r: String)
        ensures
            r@ == self.text(),
    {
        let mut out = String::new();
        match self {
            RadioError::Transport(e) => {
                out.append("transport error: ");
                out.append(e.message().as_str());
            },
            RadioError::Timeout(nanos) => {
                out.append("no response within ");
                out.append(duration_string(*nanos).as_str());
            },
            RadioError::Fault => out.append("three consecutive NAKs — protocol fault"),
            RadioError::Closed => out.append("radio handle closed"),
        }
        out
    }
}

/// One step of a mock's script.
#[derive(Debug)]
enum ScriptStep {
    ExpectWrite(Vec<u8>),
    Respond(Vec<u8>),
}

/// What a script step stands for.
#[verifier::ext_equal]
pub enum Cue {
    /// The next write must be these bytes.
    ExpectWrite(Seq<u8>),
    /// The next reads deliver these bytes.
    Respond(Seq<u8>),
}

impl View for ScriptStep {
    type V = Cue;

    closed spec fn view(&self) -> Cue {
        match *self {
            ScriptStep::ExpectWrite(b) => Cue::ExpectWrite(b@),
            ScriptStep::Respond(b) => Cue::Respond(b@),
        }
    }
}

/// What a [`MockTransport`] stands for.
#[verifier::ext_equal]
pub struct MockView {
    /// The steps still to come.
    pub script: Seq<Cue>,
    /// Everything written so far.
    pub sent: Seq<u8>,
    /// Bytes of a started response that are still to be read.
    pub queue: Seq<u8>,
    pub strict: bool,
    pub silent: bool,
}

/// The script without the expectations of writes in front.
pub open spec fn from_response_on(script: Seq<Cue>) -> Seq<Cue>
    decreases script.len(),
{
    if script.len() > 0 && script[0] is ExpectWrite {
        from_response_on(script.skip(1))
    } else {
        script
    }
}

/// The script that a read goes by. Expectations of writes hold up the reads of
/// a strict mock only; others go past them to the next response.
pub open spec fn read_script(m: MockView) -> Seq<Cue> {
    if m.strict {
        m.script
    } else {
        from_response_on(m.script)
    }
}

/// The mock once a read has looked for bytes to deliver: where none are queued,
/// those of the next response are.
pub open spec fn mock_refill(m: MockView) -> MockView {
    let script = read_script(m);
    if m.queue.len() > 0 {
        m
    } else if script.len() > 0 && script[0] is Respond {
        MockView { queue: script[0]->Respond_0, script: script.skip(1), ..m }
    } else {
        MockView { script, ..m }
    }
}

/// Whether a write leads from one state of the mock to another, with a result.
pub open spec fn mock_written(
    m: MockView,
    bytes: Seq<u8>,
    after: MockView,
    r: Result<(), TransportError>,
) -> bool {
    let noted = MockView { sent: m.sent + bytes, ..m };
    if !m.strict {
        r is Ok && after == noted
    } else if m.script.len() > 0 && m.script[0] is ExpectWrite {
        let expected_bytes = m.script[0]->ExpectWrite_0;
        &&& after == (MockView { script: m.script.skip(1), ..noted })
        &&& match r {
            Ok(_) => bytes == expected_bytes,
            Err(TransportError::MockWriteMismatch { expected, actual }) => bytes != expected_bytes
                && expected@ == expected_bytes && actual@ == bytes,
            Err(_) => false,
        }
    } else {
        r == Err::<(), TransportError>(TransportError::MockExhausted) && after == noted
    }
}

/// How many bytes a read into a buffer of `room` bytes delivers.
pub open spec fn mock_read_len(m: MockView, room: nat) -> nat {
    if room < mock_refill(m).queue.len() {
        room
    } else {
        mock_refill(m).queue.len()
    }
}

/// The bytes that a read into a buffer of `room` bytes delivers.
pub open spec fn mock_delivers(m: MockView, room: nat) -> Seq<u8> {
    mock_refill(m).queue.take(mock_read_len(m, room) as int)
}

/// The mock after a read into a buffer of `room` bytes.
pub open spec fn mock_after_read(m: MockView, room: nat) -> MockView {
    MockView { queue: mock_refill(m).queue.skip(mock_read_len(m, room) as int), ..mock_refill(m) }
}

/// A response arrives whole and in order, whatever the buffers: as long as the
/// first of two reads leaves some of it, both together deliver what one read
/// into a buffer as large as both would.
pub proof fn law_reads_in_order(m: MockView, a: nat, b: nat)
    requires
        a < mock_refill(m).queue.len(),
    ensures
        mock_delivers(m, a) + mock_delivers(mock_after_read(m, a), b) == mock_delivers(m, a + b),
        mock_after_read(mock_after_read(m, a), b) == mock_after_read(m, a + b),
{
    let q = mock_refill(m).queue;
    let rest = mock_after_read(m, a);
    assert(rest.queue =~= q.skip(a as int));
    assert(mock_refill(rest) == rest);
    assert(mock_delivers(m, a) + mock_delivers(rest, b) =~= mock_delivers(m, a + b));
    assert(mock_after_read(rest, b).queue =~= mock_after_read(m, a + b).queue);
}

/// Only responses hold up the reads of a mock that is not strict: with nothing
/// queued, the bytes of the next response come, however many expectations of
/// writes stand in front of it.
pub proof fn law_lax_reads(m: MockView, i: int)
    requires
        !m.strict,
        m.queue.len() == 0,
        0 <= i < m.script.len(),
        forall|j: int| 0 <= j < i ==> m.script[j] is ExpectWrite,
        m.script[i] is Respond,
    ensures
        mock_refill(m) == (MockView {
            queue: m.script[i]->Respond_0,
            script: m.script.skip(i + 1),
            ..m
        }),
    decreases i,
{
    if i > 0 {
        let rest = MockView { script: m.script.skip(1), ..m };
        assert forall|j: int| 0 <= j < i - 1 implies rest.script[j] is ExpectWrite by {
            assert(m.script[j + 1] is ExpectWrite);
        }
        law_lax_reads(rest, i - 1);
        assert(rest.script.skip(i) =~= m.script.skip(i + 1));
    }
}

/// In-memory transport for deterministic scenarios. Expectations are consumed
/// in order.
pub struct MockTransport {
    script: VecDeque<ScriptStep>,
    sent: Vec<u8>,
    rx_queue: VecDeque<u8>,
    strict: bool,
    silent_on_empty: bool,
}

impl View for MockTransport {
    type V = MockView;

    closed spec fn view(&self) -> MockView {
        MockView {
            script: self.script@.map_values(|s: ScriptStep| s@),
            sent: self.sent@,
            queue: self.rx_queue@,
            strict: self.strict,
            silent: self.silent_on_empty,
        }
    }
}

/// A mock with nothing scripted.
pub open spec fn fresh_mock() -> MockView {
    MockView { script: seq![], sent: seq![], queue: seq![], strict: true, silent: false }
}

impl Default for MockTransport {
    fn default() -> (r: MockTransport)
        ensures
            r@ == fresh_mock(),
    {
        MockTransport::new()
    }
}

impl MockTransport {
    pub fn new() -> (r: MockTransport)
        ensures
            r@ == fresh_mock(),
    {
        let r = MockTransport {
            script: VecDeque::new(),
            sent: Vec::new(),
            rx_queue: VecDeque::new(),
            strict: true,
            silent_on_empty: false,
        };
        assert(r@ =~= fresh_mock());
        r
    }

    /// Disable strict write matching — writes are recorded but not checked.
    pub fn lax(self) -> (r: MockTransport)
        ensures
            r@ == (MockView { strict: false, ..self@ }),
    {
        let mut m = self;
        m.strict = false;
        m
    }

    /// Let reads block forever when nothing is scripted, as with a radio that
    /// is powered on but never answers.
    pub fn silent(self) -> (r: MockTransport)
        ensures
            r@ == (MockView { silent: true, ..self@ }),
    {
        let mut m = self;
        m.silent_on_empty = true;
        m
    }

    /// Add a step: the next `write_all` must exactly equal `bytes`.
    pub fn expect_write(self, bytes: &[u8]) -> (r: MockTransport)
        ensures
            r@ == (MockView { script: self@.script.push(Cue::ExpectWrite(bytes@)), ..self@ }),
    {
        let mut m = self;
        let step = ScriptStep::ExpectWrite(copied(bytes));
        m.script.push_back(step);
        assert(m@.script =~= self@.script.push(step@));
        m
    }

    /// Add a step: the next `read` will deliver these bytes (possibly across
    /// several calls, depending on the buffer size the caller provides).
    pub fn respond(self, bytes: &[u8]) -> (r: MockTransport)
        ensures
            r@ == (MockView { script: self@.script.push(Cue::Respond(bytes@)), ..self@ }),
    {
        let mut m = self;
        let step = ScriptStep::Respond(copied(bytes));
        m.script.push_back(step);
        assert(m@.script =~= self@.script.push(step@));
        m
    }

    /// Bytes the caller has written, in order.
    pub fn sent(&self) -> (r: &[u8])
        ensures
            r@ == self@.sent,
    {
        self.sent.as_slice()
    }

    /// Drop any remaining scripted steps.
    pub fn reset_script(&mut self)
        ensures
            final(self)@ == (MockView { script: seq![], ..old(self)@ }),
    {
        self.script.clear();
        assert(self@ =~= MockView { script: seq![], ..old(self)@ });
    }

    /// Write to the radio. A strict mock takes the next step of its script,
    /// which has to be an expectation of these very bytes.
    pub fn write_all(&mut self, bytes: &[u8]) -> (r: Result<(), TransportError>)
        ensures
            mock_written(old(self)@, bytes@, final(self)@, r),
    {
        self.sent.extend_from_slice(bytes);
        assert(self@ =~= (MockView { sent: old(self)@.sent + bytes@, ..old(self)@ }));
        if !self.strict {
            return Ok(());
        }
        if self.script.len() == 0 {
            return Err(TransportError::MockExhausted);
        }
        let is_response = match &self.script[0] {
            ScriptStep::Respond(_) => true,
            ScriptStep::ExpectWrite(_) => false,
        };
        assert(self@.script[0] == self.script@[0]@);
        if is_response {
            return Err(TransportError::MockExhausted);
        }
        match self.script.pop_front() {
            Some(ScriptStep::ExpectWrite(expected)) => {
                assert(self@.script =~= old(self)@.script.skip(1));
                if !bytes_eq(expected.as_slice(), bytes) {
                    return Err(
                        TransportError::MockWriteMismatch { expected, actual: copied(bytes) },
                    );
                }
                Ok(())
            },
            _ => Err(TransportError::MockExhausted),
        }
    }

    /// Whether the next step of the script is a response.
    fn response_is_next(&self) -> (r: bool)
        ensures
            r == (self@.script.len() > 0 && self@.script[0] is Respond),
    {
        if self.script.len() == 0 {
            return false;
        }
        assert(self@.script[0] == self.script@[0]@);
        match &self.script[0] {
            ScriptStep::Respond(_) => true,
            ScriptStep::ExpectWrite(_) => false,
        }
    }

    /// Go past the expectations in front of the next response.
    fn pass_expectations(&mut self)
        ensures
            final(self)@ == (MockView {
                script: from_response_on(old(self)@.script),
                ..old(self)@
            }),
    {
        while self.script.len() > 0 && !self.response_is_next()
            invariant
                from_response_on(self@.script) == from_response_on(old(self)@.script),
                self@ == (MockView { script: self@.script, ..old(self)@ }),
            ensures
                self@.script.len() == 0 || self@.script[0] is Respond,
            decreases self@.script.len(),
        {
            let ghost before = self@.script;
            let _ = self.script.pop_front();
            assert(self@.script =~= before.skip(1));
        }
    }

    /// Read what the radio sent: `Some(n)` bytes into the front of `buf`, or
    /// `None` where a silent peer would block forever.
    pub fn read(&mut self, buf: &mut [u8]) -> (r: Result<Option<usize>, TransportError>)
        ensures
            ({
                let m = mock_refill(old(self)@);
                let room = old(buf)@.len();
                let n = mock_read_len(old(self)@, room);
                if m.queue.len() == 0 {
                    &&& final(self)@ == m
                    &&& final(buf)@ == old(buf)@
                    &&& r == (if m.silent {
                        Ok::<Option<usize>, TransportError>(None)
                    } else {
                        Err(TransportError::Closed)
                    })
                } else {
                    &&& final(self)@ == mock_after_read(old(self)@, room)
                    &&& final(buf)@ == mock_delivers(old(self)@, room) + old(buf)@.skip(n as int)
                    &&& r == Ok::<Option<usize>, TransportError>(Some(n as usize))
                }
            }),
    {
        if self.rx_queue.len() == 0 {
            if !self.strict {
                self.pass_expectations();
            }
            let ghost before = self@;
            assert(before.script == read_script(old(self)@));
            let is_response = self.response_is_next();
            if is_response {
                match self.script.pop_front() {
                    Some(ScriptStep::Respond(bytes)) => {
                        enqueue(&mut self.rx_queue, bytes.as_slice());
                        assert(self@.script =~= before.script.skip(1));
                        assert(self@.queue =~= bytes@);
                    },
                    _ => {},
                }
            } else {
                assert(self@.queue =~= old(self)@.queue);
            }
        }
        let ghost m = self@;
        assert(m == mock_refill(old(self)@));
        if self.rx_queue.len() == 0 {
            if self.silent_on_empty {
                return Ok(None);
            }
            return Err(TransportError::Closed);
        }
        let n: usize = if buf.len() < self.rx_queue.len() {
            buf.len()
        } else {
            self.rx_queue.len()
        };
        let mut i: usize = 0;
        while i < n
            invariant
                i <= n <= buf@.len(),
                n <= m.queue.len(),
                buf@.len() == old(buf)@.len(),
                buf@ == m.queue.take(i as int) + old(buf)@.skip(i as int),
                self@ == (MockView { queue: m.queue.skip(i as int), ..m }),
            decreases n - i,
        {
            match self.rx_queue.pop_front() {
                Some(b) => {
                    buf[i] = b;
                    assert(buf@ =~= m.queue.take(i + 1) + old(buf)@.skip(i + 1));
                    assert(self.rx_queue@ =~= m.queue.skip(i + 1));
                },
                None => {},
            }
            i = i + 1;
        }
        Ok(Some(n))
    }
}

/// A copy of a byte slice.
pub fn copied(bytes: &[u8]) -> (r: Vec<u8>)
    ensures
        r@ == bytes@,
{
    let mut out: Vec<u8> = Vec::with_capacity(bytes.len());
    out.extend_from_slice(bytes);
    assert(out@ =~= bytes@);
    out
}

fn enqueue(queue: &mut VecDeque<u8>, bytes: &[u8])
    ensures
        final(queue)@ == old(queue)@ + bytes@,
{
    let mut i: usize = 0;
    while i < bytes.len()
        invariant
            i <= bytes.len(),
            queue@ == old(queue)@ + bytes@.take(i as int),
        decreases bytes.len() - i,
    {
        queue.push_back(bytes[i]);
        assert(bytes@.take(i + 1) =~= bytes@.take(i as int).push(bytes@[i as int]));
        i = i + 1;
    }
    assert(bytes@.take(i as int) =~= bytes@);
}

/// The reads of a strict mock wait for the writes in front: with nothing queued
/// they deliver the next response if it is the next step, and nothing while a
/// write is expected first or the script is at its end.
pub proof fn law_strict_reads(m: MockView, room: nat)
    requires
        m.strict,
        m.queue.len() == 0,
    ensures
        m.script.len() == 0 || m.script[0] is ExpectWrite ==> mock_refill(m) == m && mock_delivers(
            m,
            room,
        ).len() == 0,
        m.script.len() > 0 && m.script[0] is Respond && m.script[0]->Respond_0.len() <= room
            ==> mock_delivers(m, room) == m.script[0]->Respond_0 && mock_after_read(m, room).script
            == m.script.skip(1) && mock_after_read(m, room).queue.len() == 0,
{
    if m.script.len() > 0 && m.script[0] is Respond {
        assert(m.script[0]->Respond_0.take(m.script[0]->Respond_0.len() as int)
            =~= m.script[0]->Respond_0);
    }
}

/// Everything that is written is recorded, in order. A strict mock accepts a
/// write exactly when it is the one that its script expects next, uses that
/// expectation up either way, and never touches a response; one that is not
/// strict accepts every write and leaves its script alone.
pub proof fn law_writes(m: MockView, bytes: Seq<u8>, after: MockView, r: Result<(), TransportError>)
    requires
        mock_written(m, bytes, after, r),
    ensures
        after.sent == m.sent + bytes,
        after.queue == m.queue,
        r is Ok <==> !m.strict || m.script.len() > 0 && m.script[0] == Cue::ExpectWrite(bytes),
        m.strict && m.script.len() > 0 && m.script[0] is ExpectWrite ==> after.script
            == m.script.skip(1),
        !(m.strict && m.script.len() > 0 && m.script[0] is ExpectWrite) ==> after.script == m.script,
        r is Err && (m.script.len() == 0 || m.script[0] is Respond) ==> r->Err_0 is MockExhausted,
        r is Err && m.script.len() > 0 && m.script[0] is ExpectWrite ==> r->Err_0
            is MockWriteMismatch,
{
}

/// A new mock is strict, answers an empty script at once, and has seen nothing.
pub proof fn law_fresh_mock()
    ensures
        fresh_mock().strict && !fresh_mock().silent,
        fresh_mock().script.len() == 0,
        fresh_mock().sent.len() == 0,
        fresh_mock().queue.len() == 0,
{
}

/// What a read goes by without strictness is the rest of the script from the
/// next response on: everything before it is an expectation of a write, and it
/// begins with a response unless there is none left.
pub proof fn law_from_response_on(script: Seq<Cue>)
    ensures
        ({
            let rest = from_response_on(script);
            let k = script.len() - rest.len();
            &&& 0 <= k
            &&& rest == script.skip(k)
            &&& forall|i: int| 0 <= i < k ==> #[trigger] script[i] is ExpectWrite
            &&& rest.len() > 0 ==> rest[0] is Respond
        }),
    decreases script.len(),
{
    let rest = from_response_on(script);
    if script.len() > 0 && script[0] is ExpectWrite {
        law_from_response_on(script.skip(1));
        let k = script.len() - rest.len();
        assert(script.skip(1).skip(k - 1) =~= script.skip(k));
        assert forall|i: int| 0 <= i < k implies #[trigger] script[i] is ExpectWrite by {
            if i > 0 {
                assert(script[i] == script.skip(1)[i - 1]);
            }
        }
    } else {
        assert(script.skip(0) =~= script);
    }
}

} // verus!
