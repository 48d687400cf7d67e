//! Command dispatcher.
//!
//! One owner holds the transport and runs the commands one after the other: no
//! new command goes out before the last one was answered or timed out. The
//! [`Dispatcher`] takes the decisions of that loop. The caller writes a command,
//! reads, and hands every outcome back.
use vstd::prelude::*;
use crate::response::{
    frame, law_chunks, law_replies_read_back, frames, lemma_data_accumulates, nak_next,
    nak_outcome, parser_replies, parser_state, sendable, terminator,
    DispatchOutcome, NakCounter, ParserView, Reply, Response, ResponseParser,
};
use crate::text::{append_decimal, debug_string, debug_text, decimal, printable, printable_string};
use crate::transport::{RadioError, TransportError};

verus! {

/// Default per-command timeout in nanoseconds. At 1200 bps, a 27-byte reply
/// takes about 225 ms to clock out; 500 ms is comfortable.
pub const DEFAULT_TIMEOUT: u64 = 500_000_000;

/// What a [`Dispatcher`] stands for.
pub struct DispatcherView {
    /// The reply that is being read.
    pub parser: ParserView,
    /// NAKs in a row.
    pub naks: u8,
}

/// How many bytes of a chunk are read: up to and with the first terminator, or
/// all where it has none.
pub open spec fn reply_end(bytes: Seq<u8>) -> int
    decreases bytes.len(),
{
    if bytes.len() == 0 {
        0
    } else if terminator(bytes[0]) is Some {
        1
    } else {
        1 + reply_end(bytes.skip(1))
    }
}

/// The first reply that a chunk completes, if it does.
pub open spec fn first_reply(s: ParserView, bytes: Seq<u8>) -> Option<Reply> {
    if parser_replies(s, bytes).len() > 0 {
        Some(parser_replies(s, bytes)[0])
    } else {
        None
    }
}

/// Whether a chunk that was read leads from one state of the exchange to another
/// with an outcome of the command, if it has one yet.
pub open spec fn chunk_taken(
    before: DispatcherView,
    chunk: Seq<u8>,
    after: DispatcherView,
    r: Option<Result<Response, RadioError>>,
) -> bool {
    if chunk.len() == 0 {
        &&& after == before
        &&& r == Some(Err::<Response, RadioError>(RadioError::Closed))
    } else {
        &&& after.parser == parser_state(before.parser, chunk.take(reply_end(chunk)))
        &&& match first_reply(before.parser, chunk) {
            Some(reply) => {
                &&& after.naks == nak_next(before.naks, reply.verdict)
                &&& if nak_outcome(after.naks) is Fault {
                    r == Some(Err::<Response, RadioError>(RadioError::Fault))
                } else {
                    r is Some && r->0 is Ok && r->0->Ok_0@ == reply
                }
            },
            None => after.naks == before.naks && r is None,
        }
    }
}

proof fn lemma_reply_end(bytes: Seq<u8>, k: int)
    requires
        0 <= k <= bytes.len(),
        forall|j: int| 0 <= j < k ==> terminator(#[trigger] bytes[j]) is None,
        k == bytes.len() || terminator(bytes[k]) is Some,
    ensures
        reply_end(bytes) == if k == bytes.len() {
            k
        } else {
            k + 1
        },
    decreases k,
{
    if k > 0 {
        let rest = bytes.skip(1);
        assert(terminator(bytes[0]) is None);
        assert forall|j: int| 0 <= j < k - 1 implies terminator(#[trigger] rest[j]) is None by {
            assert(rest[j] == bytes[j + 1]);
        }
        lemma_reply_end(rest, k - 1);
    }
}

/// Before the first command.
pub open spec fn new_exchange() -> DispatcherView {
    DispatcherView { parser: ParserView { pending: seq![], overflow: false }, naks: 0 }
}

/// Before a command: what was left of an earlier reply is gone.
pub open spec fn begun(s: DispatcherView) -> DispatcherView {
    DispatcherView { parser: ParserView { pending: seq![], ..s.parser }, naks: s.naks }
}

/// The state of the command exchange.
pub struct Dispatcher {
    parser: ResponseParser,
    naks: NakCounter,
}

impl View for Dispatcher {
    type V = DispatcherView;

    closed spec fn view(&self) -> DispatcherView {
        DispatcherView { parser: self.parser@, naks: self.naks@ }
    }
}

impl Dispatcher {
    pub fn new() -> (r: Dispatcher)
        ensures
            r@ == new_exchange(),
    {
        Dispatcher { parser: ResponseParser::new(), naks: NakCounter::new() }
    }

    /// A new command is about to go out: what was left of an earlier reply is
    /// dropped, as each command and its reply are a unit.
    pub fn begin(&mut self)
        ensures
            final(self)@ == begun(old(self)@),
    {
        self.parser.reset();
    }

    /// A chunk was read. `None` means that the reply is not complete yet. An
    /// empty chunk means that the transport is at its end. The first complete
    /// reply answers the command, unless it is the third NAK in a row.
    pub fn on_bytes(&mut self, chunk: &[u8]) -> (r: Option<Result<Response, RadioError>>)
        ensures
            chunk_taken(old(self)@, chunk@, final(self)@, r),
    {
        if chunk.len() == 0 {
            return Some(Err(RadioError::Closed));
        }
        let ghost start = self.parser@;
        let mut i: usize = 0;
        while i < chunk.len()
            invariant
                i <= chunk@.len(),
                0 < chunk@.len(),
                start == old(self)@.parser,
                forall|j: int| 0 <= j < i ==> terminator(#[trigger] chunk@[j]) is None,
                self.parser@ == parser_state(start, chunk@.take(i as int)),
                parser_replies(start, chunk@.take(i as int)) == Seq::<Reply>::empty(),
                self.naks@ == old(self)@.naks,
            decreases chunk.len() - i,
        {
            proof {
                assert(chunk@.take(i + 1).drop_last() =~= chunk@.take(i as int));
                assert(chunk@.take(i + 1).last() == chunk@[i as int]);
            }
            if let Some(resp) = self.parser.feed(chunk[i]) {
                proof {
                    let head = chunk@.take(i + 1);
                    let tail = chunk@.skip(i + 1);
                    assert(head + tail =~= chunk@);
                    law_chunks(start, head, tail);
                    assert(parser_replies(start, head) =~= seq![resp@]);
                    lemma_reply_end(chunk@, i as int);
                }
                return match self.naks.observe(&resp) {
                    DispatchOutcome::Fault => Some(Err(RadioError::Fault)),
                    _ => Some(Ok(resp)),
                };
            }
            i = i + 1;
        }
        proof {
            assert(chunk@.take(i as int) =~= chunk@);
            lemma_reply_end(chunk@, i as int);
        }
        None
    }
}

/// What a failed read means for the command.
pub open spec fn read_failure(e: TransportError) -> RadioError {
    if e is Closed {
        RadioError::Closed
    } else {
        RadioError::Transport(e)
    }
}

/// What a failed read means for the command: a closed transport closes the
/// radio.
pub fn read_error(e: TransportError) -> (r: RadioError)
    ensures
        r == read_failure(e),
{
    match e {
        TransportError::Closed => RadioError::Closed,
        e => RadioError::Transport(e),
    }
}

/// How long it is until a deadline, where it has not come.
pub open spec fn remaining(deadline: u64, now: u64) -> Option<u64> {
    if now < deadline {
        Some((deadline - now) as u64)
    } else {
        None
    }
}

/// How long a read may still take, in nanoseconds; `None` once the deadline
/// has come.
pub fn time_left(deadline: u64, now: u64) -> (r: Option<u64>)
    ensures
        r == remaining(deadline, now),
{
    if now < deadline {
        Some(deadline - now)
    } else {
        None
    }
}

/// A command as the log shows it: the printable bytes, quoted, and their count.
pub fn display_bytes(b: &[u8]) -> (r: String)
    ensures
        r@ == debug_text(printable(b@)) + " ("@ + decimal(b@.len()) + " bytes)"@,
{
    let mut out = debug_string(printable_string(b).as_str());
    out.append(" (");
    append_decimal(&mut out, b.len() as u128);
    out.append(" bytes)");
    out
}

/// The reader's state after a number of chunks.
pub open spec fn after_chunks(s: ParserView, chunks: Seq<Seq<u8>>) -> ParserView {
    parser_state(s, chunks.flatten())
}

/// However the serial line cuts a reply up, the command gets that reply: of
/// the chunks that make up a reply's bytes, none completes it but the last,
/// and the last completes exactly that reply.
pub proof fn law_reply_in_chunks(s: ParserView, reply: Reply, chunks: Seq<Seq<u8>>)
    requires
        s.pending.len() == 0,
        sendable(reply),
        forall|i: int| 0 <= i < chunks.len() ==> (#[trigger] chunks[i]).len() > 0,
        chunks.flatten() == frame(reply),
    ensures
        chunks.len() > 0,
        forall|k: int|
            0 <= k < chunks.len() - 1 ==> first_reply(
                after_chunks(s, chunks.take(k)),
                #[trigger] chunks[k],
            ) is None,
        first_reply(after_chunks(s, chunks.drop_last()), chunks.last()) == Some(reply),
{
    let whole = frame(reply);
    if chunks.len() == 0 {
        assert(chunks.flatten().len() == 0) by {
            reveal(Seq::flatten);
        }
    }
    assert forall|k: int| 0 <= k < chunks.len() - 1 implies first_reply(
        after_chunks(s, chunks.take(k)),
        #[trigger] chunks[k],
    ) is None by {
        lemma_split(chunks, k);
        let pre = chunks.take(k).flatten();
        let part = pre + chunks[k];
        let rest = chunks.skip(k + 1).flatten();
        assert(part + rest =~= whole);
        lemma_nonempty_flatten(chunks.skip(k + 1));
        assert(rest.len() > 0);
        assert(part.len() < whole.len());
        assert forall|i: int| 0 <= i < part.len() implies terminator(#[trigger] part[i]) is None by {
            assert(part[i] == (part + rest)[i]);
            assert(part[i] == reply.data[i]);
        }
        lemma_data_accumulates(s, part);
        law_chunks(s, pre, chunks[k]);
        assert(parser_replies(parser_state(s, pre), chunks[k]).len() <= parser_replies(s, part).len());
    }
    let front = chunks.drop_last();
    lemma_split(chunks, chunks.len() - 1);
    assert(chunks.take(chunks.len() - 1) =~= front);
    let pre = front.flatten();
    assert(chunks.skip(chunks.len() as int) =~= Seq::<Seq<u8>>::empty());
    assert(chunks.skip(chunks.len() as int).flatten().len() == 0) by {
        reveal(Seq::flatten);
    }
    assert(pre + chunks.last() =~= whole);
    assert(chunks.last() == chunks[chunks.len() - 1]);
    assert(pre.len() < whole.len());
    assert forall|i: int| 0 <= i < pre.len() implies terminator(#[trigger] pre[i]) is None by {
        assert(pre[i] == (pre + chunks.last())[i]);
        assert(pre[i] == reply.data[i]);
    }
    lemma_data_accumulates(s, pre);
    law_chunks(s, pre, chunks.last());
    assert(frames(seq![reply]) =~= whole) by {
        reveal_with_fuel(frames, 2);
        assert(seq![reply].drop_last() =~= Seq::<Reply>::empty());
        assert(seq![reply].last() == reply);
    }
    law_replies_read_back(s, seq![reply]);
    assert(parser_replies(s, whole) == seq![reply]);
    assert(Seq::<Reply>::empty() + parser_replies(parser_state(s, pre), chunks.last())
        =~= parser_replies(parser_state(s, pre), chunks.last()));
}

proof fn lemma_split(chunks: Seq<Seq<u8>>, k: int)
    requires
        0 <= k < chunks.len(),
    ensures
        chunks.flatten() == chunks.take(k).flatten() + chunks[k] + chunks.skip(k + 1).flatten(),
    decreases k,
{
    reveal(Seq::flatten);
    if k == 0 {
        assert(chunks.take(0).flatten() =~= Seq::<u8>::empty());
        assert(chunks.drop_first() =~= chunks.skip(1));
    } else {
        let rest = chunks.drop_first();
        lemma_split(rest, k - 1);
        assert(chunks.take(k).drop_first() =~= rest.take(k - 1));
        assert(rest.skip(k) =~= chunks.skip(k + 1));
        assert(rest[k - 1] == chunks[k]);
        assert(chunks.take(k).first() == chunks[0]);
    }
}

proof fn lemma_nonempty_flatten(chunks: Seq<Seq<u8>>)
    requires
        chunks.len() > 0,
        chunks[0].len() > 0,
    ensures
        chunks.flatten().len() > 0,
{
    reveal(Seq::flatten);
}

/// The command gets the reply that came first: where a chunk begins with a whole
/// reply, that reply is the outcome, what follows it in the chunk is dropped, and
/// nothing of it is left for the next command. Only the third NAK in a row, of
/// this command and the ones before it, is a fault instead; any other reply ends
/// the row.
pub proof fn law_reply_answers(
    before: DispatcherView,
    reply: Reply,
    rest: Seq<u8>,
    after: DispatcherView,
    r: Option<Result<Response, RadioError>>,
)
    requires
        before.parser.pending.len() == 0,
        sendable(reply),
        chunk_taken(before, frame(reply) + rest, after, r),
    ensures
        after.parser == before.parser,
        !(reply.verdict is Nak) ==> after.naks == 0,
        reply.verdict is Nak && before.naks < 2 ==> after.naks == before.naks + 1,
        reply.verdict is Nak && before.naks >= 2 ==> r == Some(
            Err::<Response, RadioError>(RadioError::Fault),
        ),
        !(reply.verdict is Nak && before.naks >= 2) ==> r is Some && r->0 is Ok && r->0->Ok_0@
            == reply,
{
    let s = before.parser;
    let chunk = frame(reply) + rest;
    assert(frames(seq![reply]) =~= frame(reply)) by {
        reveal_with_fuel(frames, 2);
        assert(seq![reply].drop_last() =~= Seq::<Reply>::empty());
        assert(seq![reply].last() == reply);
    }
    law_replies_read_back(s, seq![reply]);
    law_chunks(s, frame(reply), rest);
    assert(parser_replies(s, chunk)[0] == reply);
    let k = reply.data.len() as int;
    assert forall|j: int| 0 <= j < k implies terminator(#[trigger] chunk[j]) is None by {
        assert(chunk[j] == reply.data[j]);
    }
    assert(terminator(chunk[k]) == Some(reply.verdict));
    lemma_reply_end(chunk, k);
    assert(chunk.take(k + 1) =~= frame(reply));
}

/// A chunk without a terminator is no outcome yet, and an empty one says that
/// the radio is gone.
pub proof fn law_no_reply_yet(
    before: DispatcherView,
    chunk: Seq<u8>,
    after: DispatcherView,
    r: Option<Result<Response, RadioError>>,
)
    requires
        before.parser.pending.len() == 0,
        chunk.len() <= 256,
        forall|i: int| 0 <= i < chunk.len() ==> terminator(#[trigger] chunk[i]) is None,
        chunk_taken(before, chunk, after, r),
    ensures
        chunk.len() > 0 ==> r is None && after.parser.pending == chunk && after.naks == before.naks,
        chunk.len() == 0 ==> r == Some(Err::<Response, RadioError>(RadioError::Closed)) && after
            == before,
{
    if chunk.len() > 0 {
        lemma_data_accumulates(before.parser, chunk);
        lemma_reply_end(chunk, chunk.len() as int);
        assert(chunk.take(chunk.len() as int) =~= chunk);
    }
}

/// A deadline that has come leaves no time; before it, the time left and now
/// make up the deadline. Only a closed transport closes the radio; other
/// failures are passed on as they are.
pub proof fn law_deadline(deadline: u64, now: u64, e: TransportError)
    ensures
        remaining(deadline, now) is None <==> now >= deadline,
        remaining(deadline, now) matches Some(left) ==> left > 0 && now + left == deadline,
        read_failure(e) is Closed <==> e is Closed,
        !(e is Closed) ==> read_failure(e) == RadioError::Transport(e),
{
}

/// Each command starts with a clean reader, whatever came before it, and the
/// NAKs in a row are counted on across commands.
pub proof fn law_clean_start(s: DispatcherView)
    ensures
        begun(s).parser.pending.len() == 0,
        begun(s).naks == s.naks,
        begun(s).parser.overflow == s.parser.overflow,
        new_exchange().parser.pending.len() == 0 && new_exchange().naks == 0,
        !new_exchange().parser.overflow,
{
}

} // verus!
