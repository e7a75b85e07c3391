//! The laws of the stream parser, proved over its mathematical model
//! ([`run_events`], [`run_buf`], [`run_fin`]): where the chunks are cut does
//! not change the events; `Done` is emitted exactly once, always last, and
//! only for the sentinel; a line without a token is skipped without ending
//! the stream.

use vstd::prelude::*;

use crate::events::EventModel;
use crate::parser::{
    content_of, done_marker, line_verdict, lossy_of, payload_of, run_buf, run_events, run_fin,
    strip_cr, LineVerdict,
};

verus! {

/// Chunk-boundary invariance: consuming `a` and then `b` from any parser
/// state yields exactly the events, pending bytes and completion flag of
/// consuming `a + b` at once. So a stream split at arbitrary chunk
/// boundaries produces the same event sequence as the whole stream fed as
/// one chunk.
pub proof fn lemma_feed_split(acc: Seq<u8>, fin: bool, a: Seq<u8>, b: Seq<u8>)
    ensures
        run_events(acc, fin, a + b) == run_events(acc, fin, a) + run_events(
            run_buf(acc, fin, a),
            run_fin(acc, fin, a),
            b,
        ),
        run_buf(acc, fin, a + b) == run_buf(run_buf(acc, fin, a), run_fin(acc, fin, a), b),
        run_fin(acc, fin, a + b) == run_fin(run_buf(acc, fin, a), run_fin(acc, fin, a), b),
    decreases a.len(),
{
    if fin {
        assert(run_events(acc, fin, a + b) =~= Seq::<EventModel>::empty());
        assert(Seq::<EventModel>::empty() + Seq::<EventModel>::empty() =~= Seq::<
            EventModel,
        >::empty());
    } else if a.len() == 0 {
        assert(a + b =~= b);
        assert(Seq::<EventModel>::empty() + run_events(acc, false, b) =~= run_events(
            acc,
            false,
            b,
        ));
    } else {
        assert((a + b)[0] == a[0]);
        assert((a + b).skip(1) =~= a.skip(1) + b);
        if a[0] == 10u8 {
            match line_verdict(strip_cr(acc)) {
                LineVerdict::Silent => {
                    lemma_feed_split(Seq::empty(), false, a.skip(1), b);
                },
                LineVerdict::Finish => {
                    assert(seq![EventModel::Done] + Seq::<EventModel>::empty() =~= seq![
                        EventModel::Done,
                    ]);
                },
                LineVerdict::Emit(c) => {
                    lemma_feed_split(Seq::empty(), false, a.skip(1), b);
                    let hd = seq![EventModel::Token(c)];
                    let mid = run_events(Seq::empty(), false, a.skip(1));
                    let tl = run_events(
                        run_buf(Seq::empty(), false, a.skip(1)),
                        run_fin(Seq::empty(), false, a.skip(1)),
                        b,
                    );
                    assert(hd + (mid + tl) =~= (hd + mid) + tl);
                },
            }
        } else {
            lemma_feed_split(acc.push(a[0]), false, a.skip(1), b);
        }
    }
}

/// A byte stream cut into any number of chunks.
pub open spec fn concat_chunks(chunks: Seq<Seq<u8>>) -> Seq<u8>
    decreases chunks.len(),
{
    if chunks.len() == 0 {
        Seq::empty()
    } else {
        chunks[0] + concat_chunks(chunks.skip(1))
    }
}

/// The events of feeding the chunks one call after another, from parser
/// state `(acc, fin)`, all collected in order.
pub open spec fn chunked_events(acc: Seq<u8>, fin: bool, chunks: Seq<Seq<u8>>) -> Seq<EventModel>
    decreases chunks.len(),
{
    if chunks.len() == 0 {
        Seq::empty()
    } else {
        run_events(acc, fin, chunks[0]) + chunked_events(
            run_buf(acc, fin, chunks[0]),
            run_fin(acc, fin, chunks[0]),
            chunks.skip(1),
        )
    }
}

/// Chunk-boundary invariance for any number of chunks: feeding a byte
/// sequence cut into arbitrarily many chunks, one
/// [`crate::parser::StreamEventParser::feed`] call per chunk, collects
/// exactly the events of feeding the whole sequence as a single chunk.
pub proof fn lemma_chunking_is_invariant(acc: Seq<u8>, fin: bool, chunks: Seq<Seq<u8>>)
    ensures
        chunked_events(acc, fin, chunks) == run_events(acc, fin, concat_chunks(chunks)),
    decreases chunks.len(),
{
    if chunks.len() == 0 {
    } else {
        lemma_chunking_is_invariant(
            run_buf(acc, fin, chunks[0]),
            run_fin(acc, fin, chunks[0]),
            chunks.skip(1),
        );
        lemma_feed_split(acc, fin, chunks[0], concat_chunks(chunks.skip(1)));
    }
}

/// In any event sequence the parser emits, `Done` can only stand last: no
/// token follows the completion marker.
pub proof fn lemma_done_is_last(acc: Seq<u8>, fin: bool, s: Seq<u8>)
    ensures
        forall|i: int|
            0 <= i < run_events(acc, fin, s).len() && run_events(acc, fin, s)[i] is Done ==> i
                == run_events(acc, fin, s).len() - 1,
    decreases s.len(),
{
    if fin || s.len() == 0 {
    } else if s[0] == 10u8 {
        match line_verdict(strip_cr(acc)) {
            LineVerdict::Silent => {
                lemma_done_is_last(Seq::empty(), false, s.skip(1));
            },
            LineVerdict::Finish => {},
            LineVerdict::Emit(c) => {
                lemma_done_is_last(Seq::empty(), false, s.skip(1));
                let es = run_events(acc, fin, s);
                let rest = run_events(Seq::empty(), false, s.skip(1));
                assert forall|i: int| 0 <= i < es.len() && es[i] is Done implies i == es.len()
                    - 1 by {
                    assert(es[0] == EventModel::Token(c));
                    if i > 0 {
                        assert(es[i] == rest[i - 1]);
                    }
                }
            },
        }
    } else {
        lemma_done_is_last(acc.push(s[0]), false, s.skip(1));
    }
}

/// The completion marker is tied to the sentinel: a parser that is not yet
/// finished emits `Done`, exactly at the end, when consuming the bytes
/// finishes it, and emits no `Done` at all when it does not. Together with
/// [`lemma_done_is_last`]: the sentinel produces exactly one `Done`, and no
/// events for lines after it.
pub proof fn lemma_done_iff_finished(acc: Seq<u8>, s: Seq<u8>)
    ensures
        run_fin(acc, false, s) ==> run_events(acc, false, s).len() > 0 && run_events(
            acc,
            false,
            s,
        ).last() is Done,
        !run_fin(acc, false, s) ==> forall|i: int|
            0 <= i < run_events(acc, false, s).len() ==> !(run_events(acc, false, s)[i] is Done),
    decreases s.len(),
{
    if s.len() == 0 {
    } else if s[0] == 10u8 {
        match line_verdict(strip_cr(acc)) {
            LineVerdict::Silent => {
                lemma_done_iff_finished(Seq::empty(), s.skip(1));
            },
            LineVerdict::Finish => {},
            LineVerdict::Emit(c) => {
                lemma_done_iff_finished(Seq::empty(), s.skip(1));
                let es = run_events(acc, false, s);
                let rest = run_events(Seq::empty(), false, s.skip(1));
                if run_fin(acc, false, s) {
                    assert(es.last() == rest.last());
                } else {
                    assert forall|i: int| 0 <= i < es.len() implies !(es[i] is Done) by {
                        assert(es[0] == EventModel::Token(c));
                        if i > 0 {
                            assert(es[i] == rest[i - 1]);
                        }
                    }
                }
            },
        }
    } else {
        lemma_done_iff_finished(acc.push(s[0]), s.skip(1));
    }
}

/// Bytes without a newline only accumulate: consuming them moves them into
/// the pending line, emits nothing, and finishes nothing.
pub proof fn lemma_no_newline_accumulates(acc: Seq<u8>, line: Seq<u8>, tail: Seq<u8>)
    requires
        forall|i: int| 0 <= i < line.len() ==> line[i] != 10u8,
    ensures
        run_events(acc, false, line + tail) == run_events(acc + line, false, tail),
        run_buf(acc, false, line + tail) == run_buf(acc + line, false, tail),
        run_fin(acc, false, line + tail) == run_fin(acc + line, false, tail),
    decreases line.len(),
{
    if line.len() == 0 {
        assert(line + tail =~= tail);
        assert(acc + line =~= acc);
    } else {
        assert((line + tail)[0] == line[0]);
        assert((line + tail).skip(1) =~= line.skip(1) + tail);
        lemma_no_newline_accumulates(acc.push(line[0]), line.skip(1), tail);
        assert(acc.push(line[0]) + line.skip(1) =~= acc + line);
    }
}

/// A skipped line leaves no trace: when a complete line's verdict is
/// silent — it lacks the `data:` marker, or its payload has no non-empty
/// token — the stream behaves exactly as if the line were absent. In
/// particular a malformed or lossily decoded payload neither emits an
/// event nor ends parsing: the lines after it still produce their events.
pub proof fn lemma_silent_line_skipped(line: Seq<u8>, tail: Seq<u8>)
    requires
        forall|i: int| 0 <= i < line.len() ==> line[i] != 10u8,
        line_verdict(strip_cr(line)) is Silent,
    ensures
        run_events(Seq::empty(), false, line + seq![10u8] + tail) == run_events(
            Seq::empty(),
            false,
            tail,
        ),
        run_buf(Seq::empty(), false, line + seq![10u8] + tail) == run_buf(
            Seq::empty(),
            false,
            tail,
        ),
        run_fin(Seq::empty(), false, line + seq![10u8] + tail) == run_fin(
            Seq::empty(),
            false,
            tail,
        ),
{
    lemma_no_newline_accumulates(Seq::empty(), line, seq![10u8] + tail);
    assert(line + seq![10u8] + tail =~= line + (seq![10u8] + tail));
    assert(Seq::empty() + line =~= line);
    assert((seq![10u8] + tail)[0] == 10u8);
    assert((seq![10u8] + tail).skip(1) =~= tail);
}

/// A payload that the protocol does not recognise is no error: a marked
/// line whose payload is not the sentinel and carries no non-empty
/// `choices[0].delta.content` field — the record is malformed, or
/// `choices`, `delta` or `content` is missing or empty — is silent, so it
/// produces zero events.
pub proof fn lemma_no_content_is_silent(line: Seq<u8>)
    requires
        payload_of(line) != done_marker(),
        content_of(lossy_of(payload_of(line))) is None || content_of(lossy_of(payload_of(line)))
            == Some(Seq::<char>::empty()),
    ensures
        line_verdict(line) is Silent,
{
}

} // verus!
