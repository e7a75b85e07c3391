//! Incremental parsing of a server-sent-event style chat-completion stream.
//!
//! The backend answers with a body of lines `data: <json>`, closed by the
//! sentinel line `data: [DONE]`. The body arrives as raw byte chunks whose
//! boundaries do not align with line boundaries, so the parser buffers the
//! trailing partial line between calls and never emits an event from an
//! incomplete line. Splitting into lines happens on the bytes themselves;
//! only a complete payload is decoded, so the events depend on the
//! concatenated byte stream alone, not on where the chunks were cut.

use vstd::prelude::*;
use vstd::string::StrSliceExecFns;

use crate::events::{abs_events, EventModel, StreamEvent};

verus! {

/// The text that `String::from_utf8_lossy` decodes a byte sequence to:
/// the bytes read as UTF-8, with every invalid sequence replaced.
pub uninterp spec fn lossy_of(bytes: Seq<u8>) -> Seq<char>;

/// The field that the chat-completion protocol carries a token in: for a
/// payload that parses as a JSON record, the string at
/// `choices[0].delta.content`, if that path exists; nothing otherwise.
pub uninterp spec fn content_of(payload: Seq<char>) -> Option<Seq<char>>;

/// Relies on `String::from_utf8_lossy`: the decoded text is a function of
/// the bytes alone, invalid sequences replaced rather than rejected.
#[verifier::external_body]
fn lossy_decode(bytes: &[u8]) -> (r: String)
    ensures
        r@ == lossy_of(bytes@),
{
    String::from_utf8_lossy(bytes).into_owned()
}

/// Relies on `serde_json::from_str` and the accessors of
/// `serde_json::Value` (`get`, `as_str`): the extracted field is a function
/// of the payload text alone. A payload that is not a JSON record with a
/// string at `choices[0].delta.content` yields nothing.
#[verifier::external_body]
fn parse_token_content(payload: &String) -> (r: Option<String>)
    ensures
        r is Some <==> content_of(payload@) is Some,
        r matches Some(s) ==> content_of(payload@) == Some(s@),
{
    match serde_json::from_str::<serde_json::Value>(payload) {
        Ok(v) => match v
            .get("choices")
            .and_then(|c| c.get(0))
            .and_then(|c| c.get("delta"))
            .and_then(|d| d.get("content"))
            .and_then(|c| c.as_str())
        {
            Some(s) => Some(s.to_string()),
            None => None,
        },
        Err(_) => None,
    }
}

/// The bytes of the event marker `data:`.
pub open spec fn data_prefix() -> Seq<u8> {
    seq![100u8, 97u8, 116u8, 97u8, 58u8]
}

/// The bytes of the completion sentinel payload `[DONE]`.
pub open spec fn done_marker() -> Seq<u8> {
    seq![91u8, 68u8, 79u8, 78u8, 69u8, 93u8]
}

/// A complete line with one trailing carriage return removed, so that
/// streams with `\r\n` line endings read the same as streams with `\n`.
pub open spec fn strip_cr(line: Seq<u8>) -> Seq<u8> {
    if line.len() > 0 && line.last() == 13u8 {
        line.drop_last()
    } else {
        line
    }
}

/// Whether a line starts with the event marker `data:`.
pub open spec fn has_data_prefix(line: Seq<u8>) -> bool {
    line.len() >= 5 && line.subrange(0, 5) == data_prefix()
}

/// The payload of a marked line: the bytes after `data:`, with one space
/// after the marker tolerated and removed.
pub open spec fn payload_of(line: Seq<u8>) -> Seq<u8> {
    let rest = line.skip(5);
    if rest.len() > 0 && rest[0] == 32u8 {
        rest.skip(1)
    } else {
        rest
    }
}

/// What one complete line contributes to the stream: nothing, the
/// completion marker, or one token of text.
pub enum LineVerdict {
    Silent,
    Finish,
    Emit(Seq<char>),
}

/// The verdict of one complete line (carriage return already stripped):
/// a line without the `data:` marker is ignored; the sentinel payload
/// finishes the stream; otherwise the payload is decoded and the token
/// text extracted, and a payload without a non-empty token is ignored.
pub open spec fn line_verdict(line: Seq<u8>) -> LineVerdict {
    if !has_data_prefix(line) {
        LineVerdict::Silent
    } else if payload_of(line) == done_marker() {
        LineVerdict::Finish
    } else {
        match content_of(lossy_of(payload_of(line))) {
            Some(c) => if c.len() > 0 {
                LineVerdict::Emit(c)
            } else {
                LineVerdict::Silent
            },
            None => LineVerdict::Silent,
        }
    }
}

/// The events that a parser with pending bytes `acc` and completion flag
/// `fin` emits while consuming the bytes `s`: bytes accumulate into the
/// pending line until a newline completes it; the completed line's verdict
/// either adds nothing, adds one token, or ends the stream with `Done`,
/// after which nothing more is consumed.
pub open spec fn run_events(acc: Seq<u8>, fin: bool, s: Seq<u8>) -> Seq<EventModel>
    decreases s.len(),
{
    if fin || s.len() == 0 {
        Seq::empty()
    } else if s[0] == 10u8 {
        match line_verdict(strip_cr(acc)) {
            LineVerdict::Silent => run_events(Seq::empty(), false, s.skip(1)),
            LineVerdict::Finish => seq![EventModel::Done],
            LineVerdict::Emit(c) => seq![EventModel::Token(c)] + run_events(
                Seq::empty(),
                false,
                s.skip(1),
            ),
        }
    } else {
        run_events(acc.push(s[0]), false, s.skip(1))
    }
}

/// The pending bytes left after consuming `s` from state `(acc, fin)`.
pub open spec fn run_buf(acc: Seq<u8>, fin: bool, s: Seq<u8>) -> Seq<u8>
    decreases s.len(),
{
    if fin || s.len() == 0 {
        acc
    } else if s[0] == 10u8 {
        match line_verdict(strip_cr(acc)) {
            LineVerdict::Silent => run_buf(Seq::empty(), false, s.skip(1)),
            LineVerdict::Finish => Seq::empty(),
            LineVerdict::Emit(c) => run_buf(Seq::empty(), false, s.skip(1)),
        }
    } else {
        run_buf(acc.push(s[0]), false, s.skip(1))
    }
}

/// The completion flag after consuming `s` from state `(acc, fin)`.
pub open spec fn run_fin(acc: Seq<u8>, fin: bool, s: Seq<u8>) -> bool
    decreases s.len(),
{
    if fin {
        true
    } else if s.len() == 0 {
        false
    } else if s[0] == 10u8 {
        match line_verdict(strip_cr(acc)) {
            LineVerdict::Silent => run_fin(Seq::empty(), false, s.skip(1)),
            LineVerdict::Finish => true,
            LineVerdict::Emit(c) => run_fin(Seq::empty(), false, s.skip(1)),
        }
    } else {
        run_fin(acc.push(s[0]), false, s.skip(1))
    }
}

/// The executable counterpart of [`LineVerdict`].
pub enum LineClass {
    Silent,
    Finish,
    Emit(String),
}

impl View for LineClass {
    type V = LineVerdict;

    open spec fn view(&self) -> LineVerdict {
        match self {
            LineClass::Silent => LineVerdict::Silent,
            LineClass::Finish => LineVerdict::Finish,
            LineClass::Emit(s) => LineVerdict::Emit(s@),
        }
    }
}

/// Classifies one complete line (carriage return already stripped).
fn classify_line(line: &Vec<u8>) -> (r: LineClass)
    ensures
        r@ == line_verdict(line@),
{
    if line.len() < 5 || line[0] != 100 || line[1] != 97 || line[2] != 116 || line[3] != 97
        || line[4] != 58 {
        proof {
            if line@.len() >= 5 {
                assert(!(line@.subrange(0, 5) =~= data_prefix()));
            }
        }
        return LineClass::Silent;
    }
    proof {
        assert(line@.subrange(0, 5) =~= data_prefix());
    }
    let start: usize = if line.len() > 5 && line[5] == 32 {
        6
    } else {
        5
    };
    let mut payload: Vec<u8> = Vec::new();
    let mut i: usize = start;
    while i < line.len()
        invariant
            start <= i <= line@.len(),
            payload@ == line@.subrange(start as int, i as int),
        decreases line@.len() - i,
    {
        payload.push(line[i]);
        proof {
            assert(payload@ =~= line@.subrange(start as int, i + 1 as int));
        }
        i = i + 1;
    }
    proof {
        assert(payload@ =~= payload_of(line@));
    }
    let is_done = payload.len() == 6 && payload[0] == 91 && payload[1] == 68 && payload[2] == 79
        && payload[3] == 78 && payload[4] == 69 && payload[5] == 93;
    proof {
        if is_done {
            assert(payload@ =~= done_marker());
        } else {
            assert(payload@ != done_marker());
        }
    }
    if is_done {
        return LineClass::Finish;
    }
    let text = lossy_decode(payload.as_slice());
    match parse_token_content(&text) {
        Some(content) => {
            if content.as_str().unicode_len() > 0 {
                LineClass::Emit(content)
            } else {
                LineClass::Silent
            }
        },
        None => LineClass::Silent,
    }
}

/// The stateful incremental parser. It carries the trailing partial line of
/// the stream between calls to [`StreamEventParser::feed`], and remembers
/// whether the completion sentinel has been seen; after the sentinel, no
/// further bytes are consumed and no further events are emitted.
pub struct StreamEventParser {
    buf: Vec<u8>,
    finished: bool,
}

impl StreamEventParser {
    /// The bytes of the trailing partial line, not yet completed by a
    /// newline.
    pub closed spec fn pending(&self) -> Seq<u8> {
        self.buf@
    }

    /// Whether the completion sentinel has been seen.
    pub closed spec fn is_finished(&self) -> bool {
        self.finished
    }

    /// A fresh parser: nothing pending, stream not finished.
    pub fn new() -> (p: StreamEventParser)
        ensures
            p.pending() == Seq::<u8>::empty(),
            !p.is_finished(),
    {
        StreamEventParser { buf: Vec::new(), finished: false }
    }

    /// Feeds one raw chunk and returns the events of every line that the
    /// chunk completes, in order. The result and the new state are exactly
    /// what [`run_events`], [`run_buf`] and [`run_fin`] give for the old
    /// state and the chunk's bytes.
    pub fn feed(&mut self, chunk: &[u8]) -> (events: Vec<StreamEvent>)
        ensures
            abs_events(events@) == run_events(
                old(self).pending(),
                old(self).is_finished(),
                chunk@,
            ),
            final(self).pending() == run_buf(old(self).pending(), old(self).is_finished(), chunk@),
            final(self).is_finished() == run_fin(
                old(self).pending(),
                old(self).is_finished(),
                chunk@,
            ),
    {
        let mut events: Vec<StreamEvent> = Vec::new();
        if self.finished {
            proof {
                assert(abs_events(events@) =~= run_events(self.pending(), true, chunk@));
            }
            return events;
        }
        let ghost acc0 = self.buf@;
        let mut i: usize = 0;
        proof {
            assert(chunk@.skip(0) =~= chunk@);
            assert(abs_events(events@) =~= Seq::<EventModel>::empty());
            assert(Seq::<EventModel>::empty() + run_events(acc0, false, chunk@) =~= run_events(
                acc0,
                false,
                chunk@,
            ));
        }
        while i < chunk.len() && !self.finished
            invariant
                0 <= i <= chunk@.len(),
                self.finished ==> {
                    &&& abs_events(events@) == run_events(acc0, false, chunk@)
                    &&& run_buf(acc0, false, chunk@) == self.buf@
                    &&& self.buf@ == Seq::<u8>::empty()
                    &&& run_fin(acc0, false, chunk@)
                },
                !self.finished ==> {
                    &&& run_events(acc0, false, chunk@) == abs_events(events@) + run_events(
                        self.buf@,
                        false,
                        chunk@.skip(i as int),
                    )
                    &&& run_buf(acc0, false, chunk@) == run_buf(
                        self.buf@,
                        false,
                        chunk@.skip(i as int),
                    )
                    &&& run_fin(acc0, false, chunk@) == run_fin(
                        self.buf@,
                        false,
                        chunk@.skip(i as int),
                    )
                },
            decreases chunk@.len() - i,
        {
            let ghost rest = chunk@.skip(i as int);
            let ghost acc_i = self.buf@;
            proof {
                assert(rest[0] == chunk@[i as int]);
                assert(rest.skip(1) =~= chunk@.skip(i + 1 as int));
            }
            let b = chunk[i];
            if b == 10 {
                if self.buf.len() > 0 && self.buf[self.buf.len() - 1] == 13 {
                    self.buf.pop();
                    proof {
                        assert(self.buf@ =~= strip_cr(acc_i));
                    }
                }
                proof {
                    assert(self.buf@ =~= strip_cr(acc_i));
                }
                let verdict = classify_line(&self.buf);
                self.buf.clear();
                match verdict {
                    LineClass::Silent => {},
                    LineClass::Finish => {
                        let ghost evs0 = events@;
                        events.push(StreamEvent::Done);
                        self.finished = true;
                        proof {
                            assert(abs_events(events@) =~= abs_events(evs0) + seq![
                                EventModel::Done,
                            ]);
                            assert(run_events(acc_i, false, rest) == seq![EventModel::Done]);
                            assert(abs_events(events@) =~= run_events(acc0, false, chunk@));
                        }
                    },
                    LineClass::Emit(s) => {
                        let ghost evs0 = events@;
                        let ghost c = s@;
                        events.push(StreamEvent::Token(s));
                        proof {
                            assert(abs_events(events@) =~= abs_events(evs0) + seq![
                                EventModel::Token(c),
                            ]);
                            assert(run_events(acc_i, false, rest) == seq![EventModel::Token(c)]
                                + run_events(Seq::empty(), false, rest.skip(1)));
                            assert(abs_events(evs0) + (seq![EventModel::Token(c)] + run_events(
                                Seq::empty(),
                                false,
                                rest.skip(1),
                            )) =~= abs_events(events@) + run_events(
                                Seq::empty(),
                                false,
                                rest.skip(1),
                            ));
                        }
                    },
                }
            } else {
                self.buf.push(b);
                proof {
                    assert(self.buf@ == acc_i.push(rest[0]));
                }
            }
            i = i + 1;
        }
        proof {
            if !self.finished {
                assert(i == chunk@.len());
                assert(chunk@.skip(i as int) =~= Seq::<u8>::empty());
                assert(abs_events(events@) + Seq::<EventModel>::empty() =~= abs_events(events@));
            }
        }
        events
    }
}

} // verus!
