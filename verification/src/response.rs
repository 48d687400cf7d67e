//! Response parser.
//!
//! The radio answers every command with a single terminator byte — ACK, NAK or
//! HT — preceded by data bytes when the command was a status inquiry. HT comes
//! once, as the marker of the change from keypad to remote mode; afterwards the
//! radio uses ACK and NAK.
use vstd::prelude::*;

verus! {

/// The longest data a reply may carry.
pub const MAX_DATA_LEN: usize = 256;

pub const ACK: u8 = 0x06;

pub const NAK: u8 = 0x15;

pub const HT: u8 = 0x09;

/// What a terminator says of the command before it.
#[derive(Debug, Clone, Copy, PartialEq, Eq, Structural)]
pub enum Verdict {
    Ack,
    Nak,
    Ht,
}

/// A decoded response from the radio.
#[derive(Debug, Clone, PartialEq, Eq)]
pub enum Response {
    /// Valid command acknowledged; `data` is empty for operation commands
    /// and non-empty for inquiries.
    Ack { data: Vec<u8> },
    /// Invalid command. Data before a NAK is of diagnostic use only.
    Nak { data: Vec<u8> },
    /// First valid remote command after keypad mode. Counts as an ACK; `data`
    /// carries the payload if that command was an inquiry.
    Ht { data: Vec<u8> },
}

/// What a [`Response`] stands for.
#[verifier::ext_equal]
pub struct Reply {
    pub verdict: Verdict,
    pub data: Seq<u8>,
}

impl View for Response {
    type V = Reply;

    open spec fn view(&self) -> Reply {
        match *self {
            Response::Ack { data } => Reply { verdict: Verdict::Ack, data: data@ },
            Response::Nak { data } => Reply { verdict: Verdict::Nak, data: data@ },
            Response::Ht { data } => Reply { verdict: Verdict::Ht, data: data@ },
        }
    }
}

impl Response {
    pub fn is_ack(&self) -> (r: bool)
        ensures
            r == (self@.verdict is Ack),
    {
        match self {
            Response::Ack { .. } => true,
            _ => false,
        }
    }

    pub fn is_nak(&self) -> (r: bool)
        ensures
            r == (self@.verdict is Nak),
    {
        match self {
            Response::Nak { .. } => true,
            _ => false,
        }
    }

    pub fn is_ht(&self) -> (r: bool)
        ensures
            r == (self@.verdict is Ht),
    {
        match self {
            Response::Ht { .. } => true,
            _ => false,
        }
    }

    pub fn data(&self) -> (r: &[u8])
        ensures
            r@ == self@.data,
    {
        match self {
            Response::Ack { data } => data.as_slice(),
            Response::Nak { data } => data.as_slice(),
            Response::Ht { data } => data.as_slice(),
        }
    }
}

// ---------- Parsing ----------

/// The verdict of a terminator byte.
pub open spec fn terminator(byte: u8) -> Option<Verdict> {
    if byte == ACK {
        Some(Verdict::Ack)
    } else if byte == NAK {
        Some(Verdict::Nak)
    } else if byte == HT {
        Some(Verdict::Ht)
    } else {
        None
    }
}

/// The terminator byte of a verdict.
pub open spec fn terminator_byte(v: Verdict) -> u8 {
    match v {
        Verdict::Ack => ACK,
        Verdict::Nak => NAK,
        Verdict::Ht => HT,
    }
}

/// A parser's state: the data bytes read since the last terminator, and
/// whether a reply has ever been longer than allowed.
#[verifier::ext_equal]
pub struct ParserView {
    pub pending: Seq<u8>,
    pub overflow: bool,
}

/// The state after one byte.
pub open spec fn parser_next(s: ParserView, byte: u8) -> ParserView {
    if terminator(byte) is Some {
        ParserView { pending: seq![], overflow: s.overflow }
    } else if s.pending.len() >= MAX_DATA_LEN {
        ParserView { pending: seq![], overflow: true }
    } else {
        ParserView { pending: s.pending.push(byte), overflow: s.overflow }
    }
}

/// The reply that one byte completes, if it does.
pub open spec fn parser_reply(s: ParserView, byte: u8) -> Option<Reply> {
    match terminator(byte) {
        Some(verdict) => Some(Reply { verdict, data: s.pending }),
        None => None,
    }
}

/// The state after a run of bytes.
pub open spec fn parser_state(s: ParserView, bytes: Seq<u8>) -> ParserView
    decreases bytes.len(),
{
    if bytes.len() == 0 {
        s
    } else {
        parser_next(parser_state(s, bytes.drop_last()), bytes.last())
    }
}

/// The replies that a run of bytes completes, in order.
pub open spec fn parser_replies(s: ParserView, bytes: Seq<u8>) -> Seq<Reply>
    decreases bytes.len(),
{
    if bytes.len() == 0 {
        seq![]
    } else {
        let before = parser_replies(s, bytes.drop_last());
        match parser_reply(parser_state(s, bytes.drop_last()), bytes.last()) {
            Some(r) => before.push(r),
            None => before,
        }
    }
}

/// The views of a list of responses.
pub open spec fn replies(v: Seq<Response>) -> Seq<Reply> {
    v.map_values(|r: Response| r@)
}

/// Streaming parser. Feed bytes; a `Response` comes out the moment a
/// terminator is recognised, and the parser starts over.
pub struct ResponseParser {
    buf: Vec<u8>,
    overflow: bool,
}

impl View for ResponseParser {
    type V = ParserView;

    closed spec fn view(&self) -> ParserView {
        ParserView { pending: self.buf@, overflow: self.overflow }
    }
}

impl Default for ResponseParser {
    fn default() -> (r: ResponseParser)
        ensures
            r@ == (ParserView { pending: seq![], overflow: false }),
    {
        ResponseParser::new()
    }
}

impl ResponseParser {
    /// The buffered data never exceeds the limit.
    #[verifier::type_invariant]
    pub closed spec fn bounded(self) -> bool {
        self.buf@.len() <= MAX_DATA_LEN
    }

    pub fn new() -> (r: ResponseParser)
        ensures
            r@ == (ParserView { pending: seq![], overflow: false }),
    {
        let r = ResponseParser { buf: Vec::with_capacity(32), overflow: false };
        assert(r@ =~= ParserView { pending: seq![], overflow: false });
        r
    }

    /// Feed one byte. Data bytes accumulate until a terminator arrives, which
    /// hands them out.
    pub fn feed(&mut self, byte: u8) -> (r: Option<Response>)
        ensures
            final(self)@ == parser_next(old(self)@, byte),
            match r {
                Some(resp) => parser_reply(old(self)@, byte) == Some(resp@),
                None => parser_reply(old(self)@, byte) is None,
            },
    {
        proof {
            use_type_invariant(&*self);
        }
        if byte == ACK || byte == NAK || byte == HT {
            let mut data: Vec<u8> = Vec::new();
            std::mem::swap(&mut data, &mut self.buf);
            assert(self@ =~= parser_next(old(self)@, byte));
            if byte == ACK {
                Some(Response::Ack { data })
            } else if byte == NAK {
                Some(Response::Nak { data })
            } else {
                Some(Response::Ht { data })
            }
        } else if self.buf.len() >= MAX_DATA_LEN {
            self.overflow = true;
            self.buf = Vec::new();
            assert(self@ =~= parser_next(old(self)@, byte));
            None
        } else {
            let mut buf: Vec<u8> = Vec::new();
            std::mem::swap(&mut buf, &mut self.buf);
            buf.push(byte);
            self.buf = buf;
            None
        }
    }

    /// Feed a slice of bytes. Returns the responses recognised, in order.
    pub fn feed_slice(&mut self, bytes: &[u8]) -> (r: Vec<Response>)
        ensures
            final(self)@ == parser_state(old(self)@, bytes@),
            replies(r@) == parser_replies(old(self)@, bytes@),
    {
        let mut out: Vec<Response> = Vec::new();
        let mut i: usize = 0;
        assert(replies(out@) =~= parser_replies(old(self)@, bytes@.take(0)));
        while i < bytes.len()
            invariant
                i <= bytes.len(),
                self@ == parser_state(old(self)@, bytes@.take(i as int)),
                replies(out@) == parser_replies(old(self)@, bytes@.take(i as int)),
            decreases bytes.len() - i,
        {
            let ghost before = out@;
            proof {
                assert(bytes@.take(i + 1).drop_last() =~= bytes@.take(i as int));
                assert(bytes@.take(i + 1).last() == bytes@[i as int]);
            }
            if let Some(r) = self.feed(bytes[i]) {
                out.push(r);
                assert(replies(out@) =~= replies(before).push(r@));
            }
            i = i + 1;
        }
        assert(bytes@.take(i as int) =~= bytes@);
        out
    }

    /// True if any reply has been longer than `MAX_DATA_LEN` since construction.
    /// The caller should surface a fault; this is diagnostic only.
    pub fn overflowed(&self) -> (r: bool)
        ensures
            r == self@.overflow,
    {
        self.overflow
    }

    /// Clear any partial accumulation (e.g. after a resync).
    pub fn reset(&mut self)
        ensures
            final(self)@ == (ParserView { pending: seq![], overflow: old(self)@.overflow }),
    {
        self.buf = Vec::new();
        assert(self@ =~= ParserView { pending: seq![], overflow: old(self)@.overflow });
    }
}

/// How the bytes are cut into chunks does not matter: feeding one run of bytes
/// and then another gives what feeding both at once gives.
pub proof fn law_chunks(s: ParserView, a: Seq<u8>, b: Seq<u8>)
    ensures
        parser_state(s, a + b) == parser_state(parser_state(s, a), b),
        parser_replies(s, a + b) == parser_replies(s, a) + parser_replies(parser_state(s, a), b),
    decreases b.len(),
{
    if b.len() == 0 {
        assert(a + b =~= a);
        assert(parser_replies(s, a) + seq![] =~= parser_replies(s, a));
    } else {
        let c = b.drop_last();
        law_chunks(s, a, c);
        assert((a + b).drop_last() =~= a + c);
        assert((a + b).last() == b.last());
        let mid = parser_state(s, a);
        match parser_reply(parser_state(mid, c), b.last()) {
            Some(r) => {
                assert((parser_replies(s, a) + parser_replies(mid, c)).push(r) =~= parser_replies(
                    s,
                    a,
                ) + parser_replies(mid, c).push(r));
            },
            None => {},
        }
    }
}

/// Whether a reply can go over the wire as it is: not too long, and without a
/// terminator among its data.
pub open spec fn sendable(r: Reply) -> bool {
    &&& r.data.len() <= MAX_DATA_LEN
    &&& forall|i: int| 0 <= i < r.data.len() ==> terminator(#[trigger] r.data[i]) is None
}

/// A reply on the wire: the data, then the terminator.
pub open spec fn frame(r: Reply) -> Seq<u8> {
    r.data.push(terminator_byte(r.verdict))
}

/// Replies on the wire, one after the other.
pub open spec fn frames(rs: Seq<Reply>) -> Seq<u8>
    decreases rs.len(),
{
    if rs.len() == 0 {
        seq![]
    } else {
        frames(rs.drop_last()) + frame(rs.last())
    }
}

/// Data bytes pile up and complete no reply.
pub proof fn lemma_data_accumulates(s: ParserView, data: Seq<u8>)
    requires
        s.pending.len() == 0,
        data.len() <= MAX_DATA_LEN,
        forall|i: int| 0 <= i < data.len() ==> terminator(#[trigger] data[i]) is None,
    ensures
        parser_state(s, data) == (ParserView { pending: data, overflow: s.overflow }),
        parser_replies(s, data) == Seq::<Reply>::empty(),
    decreases data.len(),
{
    if data.len() == 0 {
        assert(s =~= ParserView { pending: data, overflow: s.overflow });
    } else {
        let d = data.drop_last();
        assert forall|i: int| 0 <= i < d.len() implies terminator(#[trigger] d[i]) is None by {
            assert(d[i] == data[i]);
        }
        lemma_data_accumulates(s, d);
        assert(terminator(data[data.len() - 1]) is None);
        assert(d.push(data.last()) =~= data);
    }
}

/// The parser gives back what the radio sent: a stream of replies, read from a
/// fresh start, comes out as exactly those replies, and leaves nothing behind.
pub proof fn law_replies_read_back(s: ParserView, rs: Seq<Reply>)
    requires
        s.pending.len() == 0,
        forall|i: int| 0 <= i < rs.len() ==> sendable(#[trigger] rs[i]),
    ensures
        parser_replies(s, frames(rs)) == rs,
        parser_state(s, frames(rs)) == s,
    decreases rs.len(),
{
    if rs.len() == 0 {
        assert(rs =~= seq![]);
    } else {
        let front = rs.drop_last();
        let r = rs.last();
        assert forall|i: int| 0 <= i < front.len() implies sendable(#[trigger] front[i]) by {
            assert(front[i] == rs[i]);
        }
        law_replies_read_back(s, front);
        law_chunks(s, frames(front), frame(r));
        assert(sendable(rs[rs.len() - 1]));
        lemma_data_accumulates(s, r.data);
        assert(frame(r).drop_last() =~= r.data);
        assert(parser_replies(s, frame(r)) =~= seq![r]);
        assert(parser_state(s, frame(r)) =~= s);
        assert(front + seq![r] =~= rs);
    }
}

/// Once set, the overflow flag stays set, whatever comes in.
pub proof fn law_overflow_latches(s: ParserView, bytes: Seq<u8>)
    requires
        s.overflow,
    ensures
        parser_state(s, bytes).overflow,
    decreases bytes.len(),
{
    if bytes.len() > 0 {
        law_overflow_latches(s, bytes.drop_last());
    }
}

// ---------- NAK accounting ----------

/// The count of NAKs in a row after one more reply.
pub open spec fn nak_next(count: u8, verdict: Verdict) -> u8 {
    if verdict is Nak {
        if count == u8::MAX {
            u8::MAX
        } else {
            (count + 1) as u8
        }
    } else {
        0
    }
}

/// What to do at a given count of NAKs in a row.
pub open spec fn nak_outcome(count: u8) -> DispatchOutcome {
    if count == 0 {
        DispatchOutcome::Accepted
    } else if count < 3 {
        DispatchOutcome::Retry { after: count }
    } else {
        DispatchOutcome::Fault
    }
}

/// The count of NAKs in a row after a whole history.
pub open spec fn nak_count(history: Seq<Verdict>) -> u8
    decreases history.len(),
{
    if history.len() == 0 {
        0
    } else {
        nak_next(nak_count(history.drop_last()), history.last())
    }
}

/// Counts NAKs in a row. After three of them for the same command the
/// controller declares a fault.
#[derive(Debug)]
pub struct NakCounter {
    consecutive: u8,
}

impl View for NakCounter {
    type V = u8;

    closed spec fn view(&self) -> u8 {
        self.consecutive
    }
}

impl Default for NakCounter {
    fn default() -> (r: NakCounter)
        ensures
            r@ == 0,
    {
        NakCounter { consecutive: 0 }
    }
}

impl NakCounter {
    pub fn new() -> (r: NakCounter)
        ensures
            r@ == 0,
    {
        NakCounter { consecutive: 0 }
    }

    /// Record a new response. Returns the outcome for the dispatcher.
    pub fn observe(&mut self, r: &Response) -> (out: DispatchOutcome)
        ensures
            final(self)@ == nak_next(old(self)@, r@.verdict),
            out == nak_outcome(final(self)@),
    {
        match r {
            Response::Nak { .. } => {
                self.consecutive = self.consecutive.saturating_add(1);
                if self.consecutive >= 3 {
                    DispatchOutcome::Fault
                } else {
                    DispatchOutcome::Retry { after: self.consecutive }
                }
            },
            _ => {
                self.consecutive = 0;
                DispatchOutcome::Accepted
            },
        }
    }

    pub fn consecutive(&self) -> (r: u8)
        ensures
            r == self@,
    {
        self.consecutive
    }

    pub fn reset(&mut self)
        ensures
            final(self)@ == 0,
    {
        self.consecutive = 0;
    }
}

#[derive(Debug, Clone, Copy, PartialEq, Eq, Structural)]
pub enum DispatchOutcome {
    /// Command accepted. Continue.
    Accepted,
    /// Command rejected (NAK); the caller should send a `Z` resync and re-send.
    /// `after` is the number of NAKs in a row so far (1 or 2).
    Retry { after: u8 },
    /// Three NAKs in a row — protocol fault. The caller must surface and stop.
    Fault,
}

/// A fault is declared exactly when the last three replies, at least, were
/// NAKs; a reply is taken as accepted exactly when it was an ACK or an HT.
pub proof fn law_third_nak_faults(history: Seq<Verdict>)
    requires
        history.len() > 0,
    ensures
        nak_outcome(nak_count(history)) is Fault <==> history.len() >= 3 && history[history.len()
            - 1] is Nak && history[history.len() - 2] is Nak && history[history.len() - 3] is Nak,
        nak_outcome(nak_count(history)) is Accepted <==> !(history.last() is Nak),
{
    let h1 = history.drop_last();
    let h2 = h1.drop_last();
    reveal_with_fuel(nak_count, 4);
    if h1.len() > 0 {
        assert(h1.last() == history[history.len() - 2]);
        if h2.len() > 0 {
            assert(h2.last() == history[history.len() - 3]);
        }
    }
}

/// The three bytes that end a reply: 6 says yes, 21 says no, 9 says yes for the
/// first time; no other byte ends one.
pub proof fn law_terminator_bytes(byte: u8)
    ensures
        terminator(byte) == Some(Verdict::Ack) <==> byte == 6,
        terminator(byte) == Some(Verdict::Nak) <==> byte == 21,
        terminator(byte) == Some(Verdict::Ht) <==> byte == 9,
        forall|v: Verdict| terminator(#[trigger] terminator_byte(v)) == Some(v),
{
}

/// Data of up to 256 bytes is kept; one more without a terminator drops all of
/// it, completes no reply, and is remembered.
pub proof fn law_too_long(s: ParserView, byte: u8)
    requires
        terminator(byte) is None,
    ensures
        parser_reply(s, byte) is None,
        s.pending.len() < 256 ==> parser_next(s, byte) == (ParserView {
            pending: s.pending.push(byte),
            overflow: s.overflow,
        }),
        s.pending.len() >= 256 ==> parser_next(s, byte) == (ParserView {
            pending: seq![],
            overflow: true,
        }),
{
}

/// A first and a second NAK in a row call for another try, and say which it is.
pub proof fn law_retries_counted(history: Seq<Verdict>)
    requires
        history.len() > 0,
        history.last() is Nak,
    ensures
        history.len() == 1 || !(history[history.len() - 2] is Nak) ==> nak_outcome(
            nak_count(history),
        ) == (DispatchOutcome::Retry { after: 1 }),
        history.len() >= 2 && history[history.len() - 2] is Nak && (history.len() == 2 || !(
        history[history.len() - 3] is Nak)) ==> nak_outcome(nak_count(history)) == (
        DispatchOutcome::Retry { after: 2 }),
{
    let h1 = history.drop_last();
    let h2 = h1.drop_last();
    reveal_with_fuel(nak_count, 4);
    if h1.len() > 0 {
        assert(h1.last() == history[history.len() - 2]);
        if h2.len() > 0 {
            assert(h2.last() == history[history.len() - 3]);
        }
    }
}

} // verus!
