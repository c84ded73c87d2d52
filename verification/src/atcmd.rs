//! One command on a serial port: what is written, and where the answer ends.

use vstd::prelude::*;
use vstd::string::StrSliceExecFns;
use vstd::utf8::encode_utf8;

use crate::backend::process::{from_utf8_lossy, utf8_lossy};
use crate::text::{concat2, same, starts_with, trim, trimmed};

verus! {

/// A line with which the modem ends an answer.
pub open spec fn is_terminator(line: Seq<char>) -> bool {
    let t = trimmed(line);
    ||| "+CME ERROR:"@.is_prefix_of(t)
    ||| "+CMS ERROR:"@.is_prefix_of(t)
    ||| t == "BUSY"@
    ||| t == "ERROR"@
    ||| t == "NO ANSWER"@
    ||| t == "NO CARRIER"@
    ||| t == "NO DIALTONE"@
    ||| t == "OK"@
}

/// Whether the modem ends an answer with this line.
pub fn line_is_terminator(line: &str) -> (r: bool)
    ensures
        r == is_terminator(line@),
{
    let t = trim(line);
    starts_with(t, "+CME ERROR:") || starts_with(t, "+CMS ERROR:") || same(t, "BUSY") || same(
        t,
        "ERROR",
    ) || same(t, "NO ANSWER") || same(t, "NO CARRIER") || same(t, "NO DIALTONE") || same(t, "OK")
}

/// The bytes of a command, with the line end that runs it.
pub fn command_bytes(at_command: &str) -> (r: Vec<u8>)
    ensures
        r@ == encode_utf8(at_command@ + "\r\n"@),
{
    concat2(at_command, "\r\n").as_str().as_bytes_vec()
}

/// The bytes of a message, with the Ctrl+Z that sends it.
pub open spec fn message_bytes(message: Seq<char>) -> Seq<u8> {
    encode_utf8(message).push(0x1a)
}

/// A line longer than this is forgotten.
pub const MAX_LINE: usize = 8192;

/// What has been read of an answer: the bytes of the line that is not yet ended, the last four
/// bytes read while the prompt for a message is awaited, and whether it came.
pub struct AnswerState {
    pub line: Seq<u8>,
    pub last: Seq<u8>,
    pub prompted: bool,
}

/// The last bytes are the prompt for a message.
pub open spec fn is_prompt(last: Seq<u8>) -> bool {
    last == seq![0x0du8, 0x0au8, 0x3eu8, 0x20u8] || last.skip(1) == seq![0x0du8, 0x0au8, 0x3eu8]
}

/// The last four bytes, after one more.
pub open spec fn shifted(last: Seq<u8>, b: u8) -> Seq<u8> {
    last.skip(1).push(b)
}

/// What comes of one more byte.
#[derive(Debug, Clone, Copy, PartialEq, Eq, Structural)]
pub enum AnswerEvent {
    /// Nothing: the answer goes on.
    Pending,
    /// The modem asks for the message.
    Prompt,
    /// The answer has ended.
    End,
}

/// A byte ends a line.
pub open spec fn is_break(b: u8) -> bool {
    b == 0x0a || b == 0x0d
}

/// What comes of a byte. A carriage return ends a line as a line feed does.
pub open spec fn event_of(s: AnswerState, b: u8, has_message: bool) -> AnswerEvent {
    if has_message && !s.prompted && is_prompt(shifted(s.last, b)) {
        AnswerEvent::Prompt
    } else if is_break(b) && s.line.len() > 0 && is_terminator(utf8_lossy(s.line)) {
        AnswerEvent::End
    } else {
        AnswerEvent::Pending
    }
}

/// The state after a byte.
pub open spec fn state_after(s: AnswerState, b: u8, has_message: bool) -> AnswerState {
    let watched = has_message && !s.prompted;
    AnswerState {
        line: if is_break(b) || s.line.len() + 1 >= MAX_LINE {
            Seq::empty()
        } else {
            s.line.push(b)
        },
        last: if watched {
            shifted(s.last, b)
        } else {
            s.last
        },
        prompted: s.prompted || (watched && is_prompt(shifted(s.last, b))),
    }
}

/// A reader of the answer to one command.
#[derive(Debug)]
pub struct AnswerReader {
    line: Vec<u8>,
    last: Vec<u8>,
    prompted: bool,
}

impl View for AnswerReader {
    type V = AnswerState;

    closed spec fn view(&self) -> AnswerState {
        AnswerState { line: self.line@, last: self.last@, prompted: self.prompted }
    }
}

impl AnswerReader {
    /// A reader before the first byte.
    pub fn new() -> (r: AnswerReader)
        ensures
            r@ == (AnswerState {
                line: Seq::empty(),
                last: seq![0u8, 0u8, 0u8, 0u8],
                prompted: false,
            }),
            r.wf(),
    {
        let mut last: Vec<u8> = Vec::new();
        last.push(0);
        last.push(0);
        last.push(0);
        last.push(0);
        assert(last@ == seq![0u8, 0u8, 0u8, 0u8]);
        AnswerReader { line: Vec::new(), last, prompted: false }
    }

    /// Four bytes are remembered, and fewer than the longest line.
    pub closed spec fn wf(&self) -> bool {
        self.last@.len() == 4 && self.line@.len() < MAX_LINE
    }

    /// Remembers a byte and says whether the prompt for a message has come.
    fn watch(&mut self, b: u8) -> (r: bool)
        requires
            old(self).wf(),
        ensures
            final(self).wf(),
            final(self).line@ == old(self).line@,
            final(self).prompted == old(self).prompted,
            final(self).last@ == shifted(old(self).last@, b),
            r == is_prompt(final(self).last@),
    {
        self.last.remove(0);
        self.last.push(b);
        let (p, q, r, s) = (self.last[0], self.last[1], self.last[2], self.last[3]);
        let ghost l = self.last@;
        assert(l == shifted(old(self).last@, b));
        let whole = p == 0x0d && q == 0x0a && r == 0x3e && s == 0x20;
        let short = q == 0x0d && r == 0x0a && s == 0x3e;
        proof {
            let w = seq![0x0du8, 0x0au8, 0x3eu8, 0x20u8];
            let t = seq![0x0du8, 0x0au8, 0x3eu8];
            if whole {
                assert(l =~= w);
            } else {
                assert(l[0] != w[0] || l[1] != w[1] || l[2] != w[2] || l[3] != w[3]);
            }
            if short {
                assert(l.skip(1) =~= t);
            } else {
                assert(l.skip(1)[0] == l[1] && l.skip(1)[1] == l[2] && l.skip(1)[2] == l[3]);
                assert(l.skip(1) != t);
            }
        }
        whole || short
    }

    /// Takes one byte of the answer.
    pub fn feed(&mut self, b: u8, has_message: bool) -> (r: AnswerEvent)
        requires
            old(self).wf(),
        ensures
            final(self).wf(),
            final(self)@ == state_after(old(self)@, b, has_message),
            r == event_of(old(self)@, b, has_message),
    {
        let mut event = AnswerEvent::Pending;
        if has_message && !self.prompted {
            if self.watch(b) {
                self.prompted = true;
                event = AnswerEvent::Prompt;
                proof {
                    let l = self.last@;
                    assert(l.last() == b);
                    assert(l.skip(1).last() == b);
                    assert(b == 0x20 || b == 0x3e);
                }
            }
        }
        if b == 0x0a || b == 0x0d {
            if self.line.len() > 0 {
                let text = from_utf8_lossy(&self.line);
                if line_is_terminator(&text) {
                    event = AnswerEvent::End;
                }
                self.line = Vec::new();
            }
            assert(self.line@ == Seq::<u8>::empty());
        } else {
            self.line.push(b);
            if self.line.len() >= MAX_LINE {
                self.line = Vec::new();
            }
        }
        event
    }
}

/// How far an answer was read: the state, whether the message was asked for, whether it ended,
/// and after how many bytes.
pub struct Progress {
    pub state: AnswerState,
    pub asked: bool,
    pub ended: bool,
    pub read: int,
}

/// Reading bytes up to the end of the answer. Bytes after that are not looked at.
pub open spec fn read_all(s: AnswerState, bytes: Seq<u8>, has_message: bool) -> Progress
    decreases bytes.len(),
{
    if bytes.len() == 0 {
        Progress { state: s, asked: false, ended: false, read: 0 }
    } else {
        let p = read_all(s, bytes.drop_last(), has_message);
        if p.ended {
            p
        } else {
            let e = event_of(p.state, bytes.last(), has_message);
            Progress {
                state: state_after(p.state, bytes.last(), has_message),
                asked: p.asked || e == AnswerEvent::Prompt,
                ended: e == AnswerEvent::End,
                read: bytes.len() as int,
            }
        }
    }
}

/// What is to be done after a chunk of the answer.
#[derive(Debug, PartialEq, Eq)]
pub struct ChunkOutcome {
    /// What is to be written to the modem, if anything.
    pub write: Option<Vec<u8>>,
    /// The answer has ended.
    pub done: bool,
}

/// Takes a chunk of the answer and says what is to be done: the message is written when the
/// modem asks for it, and reading stops at the line that ends the answer.
pub fn run_io(
    reader: &mut AnswerReader,
    chunk: &Vec<u8>,
    sms_message: Option<&str>,
) -> (r: ChunkOutcome)
    requires
        old(reader).wf(),
    ensures
        final(reader).wf(),
        ({
            let p = read_all(old(reader)@, chunk@, sms_message is Some);
            &&& final(reader)@ == p.state
            &&& r.done == p.ended
            &&& match r.write {
                Some(bytes) => p.asked && sms_message is Some && bytes@ == message_bytes(
                    sms_message->0@,
                ),
                None => !p.asked,
            }
        }),
{
    let has_message = sms_message.is_some();
    let ghost start = reader@;
    let mut asked: bool = false;
    let mut done: bool = false;
    let mut k: usize = 0;
    while k < chunk.len() && !done
        invariant
            k <= chunk@.len(),
            reader.wf(),
            has_message == (sms_message is Some),
            reader@ == read_all(start, chunk@.take(k as int), has_message).state,
            asked == read_all(start, chunk@.take(k as int), has_message).asked,
            done == read_all(start, chunk@.take(k as int), has_message).ended,
            asked ==> has_message,
        decreases chunk@.len() - k,
    {
        let b = chunk[k];
        assert(chunk@.take(k + 1).drop_last() == chunk@.take(k as int));
        assert(chunk@.take(k + 1).last() == b);
        match reader.feed(b, has_message) {
            AnswerEvent::Pending => {},
            AnswerEvent::Prompt => {
                asked = true;
            },
            AnswerEvent::End => {
                done = true;
            },
        }
        k += 1;
    }
    proof {
        if done {
            lemma_read_stops(start, chunk@, k as int, has_message);
        } else {
            assert(chunk@.take(k as int) == chunk@);
        }
    }
    let mut write: Option<Vec<u8>> = None;
    if asked {
        if let Some(message) = sms_message {
            let mut bytes = message.as_bytes_vec();
            bytes.push(0x1a);
            write = Some(bytes);
        }
    }
    ChunkOutcome { write, done }
}

/// What follows the end of the answer changes nothing.
proof fn lemma_read_stops(s: AnswerState, bytes: Seq<u8>, k: int, has_message: bool)
    requires
        0 <= k <= bytes.len(),
        read_all(s, bytes.take(k), has_message).ended,
    ensures
        read_all(s, bytes, has_message) == read_all(s, bytes.take(k), has_message),
    decreases bytes.len(),
{
    if k == bytes.len() {
        assert(bytes.take(k) == bytes);
    } else {
        let init = bytes.drop_last();
        assert(init.take(k) == bytes.take(k));
        lemma_read_stops(s, init, k, has_message);
    }
}

// ---------------------------------------------------------------------------
// Laws
// ---------------------------------------------------------------------------

/// An answer that comes in two chunks is read as one that comes in a single chunk.
pub proof fn law_chunks_do_not_matter(
    s: AnswerState,
    a: Seq<u8>,
    b: Seq<u8>,
    has_message: bool,
)
    ensures
        ({
            let first = read_all(s, a, has_message);
            let whole = read_all(s, a + b, has_message);
            if first.ended {
                whole == first
            } else {
                let second = read_all(first.state, b, has_message);
                &&& whole.state == second.state
                &&& whole.asked == (first.asked || second.asked)
                &&& whole.ended == second.ended
            }
        }),
    decreases b.len(),
{
    if b.len() == 0 {
        assert(a + b == a);
    } else {
        let init = b.drop_last();
        assert((a + b).drop_last() == a + init);
        assert((a + b).last() == b.last());
        law_chunks_do_not_matter(s, a, init, has_message);
    }
}

/// The message is asked for at most once: once the prompt has come it is not awaited again.
pub proof fn law_prompt_comes_once(s: AnswerState, b: u8, has_message: bool)
    requires
        s.prompted,
    ensures
        event_of(s, b, has_message) != AnswerEvent::Prompt,
        state_after(s, b, has_message).prompted,
{
}

/// A line that ends an answer ends it at its line break, whether that is a carriage return or a
/// line feed; no other line does.
pub proof fn law_answer_ends_at_terminator(s: AnswerState, b: u8)
    requires
        is_break(b),
        s.line.len() > 0,
    ensures
        event_of(s, b, false) == AnswerEvent::End <==> is_terminator(utf8_lossy(s.line)),
{
}

} // verus!
