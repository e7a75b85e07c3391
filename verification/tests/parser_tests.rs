use prism_engine::events::StreamEvent;
use prism_engine::parser::StreamEventParser;

fn feed_all(chunks: &[&[u8]]) -> Vec<StreamEvent> {
    let mut parser = StreamEventParser::new();
    let mut events: Vec<StreamEvent> = Vec::new();
    for chunk in chunks {
        events.extend(parser.feed(chunk));
    }
    events
}

fn token(s: &str) -> StreamEvent {
    StreamEvent::Token(s.to_string())
}

#[test]
fn single_chunk_stream() {
    let events = feed_all(&[
        b"data: {\"choices\":[{\"delta\":{\"content\":\"Hi\"}}]}\ndata: [DONE]\n",
    ]);
    assert_eq!(events, vec![token("Hi"), StreamEvent::Done]);
}

#[test]
fn end_to_end_split_chunks() {
    let events = feed_all(&[
        b"data: {\"choices\":[{\"delta\":{\"content\":\"He\"}}]}\n",
        b"llo\" ignored line\ndata: {\"choices\":[{\"delta\":{\"content\":\"!\"}}]}\ndata: [DONE]\n",
    ]);
    assert_eq!(events, vec![token("He"), token("!"), StreamEvent::Done]);
}

#[test]
fn chunk_boundaries_do_not_matter() {
    let stream: &[u8] =
        b"data: {\"choices\":[{\"delta\":{\"content\":\"ab\"}}]}\ndata: {\"choices\":[{\"delta\":{\"content\":\"cd\"}}]}\ndata: [DONE]\n";
    let whole = feed_all(&[stream]);
    assert_eq!(whole, vec![token("ab"), token("cd"), StreamEvent::Done]);
    for cut in 0..stream.len() {
        let split = feed_all(&[&stream[..cut], &stream[cut..]]);
        assert_eq!(split, whole);
    }
    let mut byte_by_byte = StreamEventParser::new();
    let mut events: Vec<StreamEvent> = Vec::new();
    for i in 0..stream.len() {
        events.extend(byte_by_byte.feed(&stream[i..i + 1]));
    }
    assert_eq!(events, whole);
}

#[test]
fn done_short_circuits_later_lines() {
    let events = feed_all(&[
        b"data: [DONE]\ndata: {\"choices\":[{\"delta\":{\"content\":\"late\"}}]}\n",
    ]);
    assert_eq!(events, vec![StreamEvent::Done]);
}

#[test]
fn nothing_after_done_across_feeds() {
    let mut parser = StreamEventParser::new();
    let first = parser.feed(b"data: [DONE]\n");
    assert_eq!(first, vec![StreamEvent::Done]);
    let second = parser.feed(b"data: {\"choices\":[{\"delta\":{\"content\":\"x\"}}]}\n");
    assert_eq!(second, vec![]);
}

#[test]
fn missing_fields_yield_no_events() {
    let events = feed_all(&[
        b"data: {\"nochoices\":1}\n",
        b"data: {\"choices\":[]}\n",
        b"data: {\"choices\":[{\"nodelta\":1}]}\n",
        b"data: {\"choices\":[{\"delta\":{}}]}\n",
        b"data: {\"choices\":[{\"delta\":{\"content\":\"\"}}]}\n",
        b"data: not json at all\n",
    ]);
    assert_eq!(events, vec![]);
}

#[test]
fn invalid_bytes_do_not_stop_the_stream() {
    let events = feed_all(&[
        b"data: \xff\xfe{broken}\n",
        b"\xff\xff\xff\n",
        b"data: {\"choices\":[{\"delta\":{\"content\":\"ok\"}}]}\ndata: [DONE]\n",
    ]);
    assert_eq!(events, vec![token("ok"), StreamEvent::Done]);
}

#[test]
fn invalid_bytes_inside_json_string_are_substituted() {
    let events = feed_all(&[b"data: {\"choices\":[{\"delta\":{\"content\":\"a\xffb\"}}]}\n"]);
    assert_eq!(events, vec![token("a\u{fffd}b")]);
}

#[test]
fn marker_without_space_is_tolerated() {
    let events = feed_all(&[b"data:[DONE]\n"]);
    assert_eq!(events, vec![StreamEvent::Done]);
    let events = feed_all(&[b"data:{\"choices\":[{\"delta\":{\"content\":\"x\"}}]}\n"]);
    assert_eq!(events, vec![token("x")]);
}

#[test]
fn carriage_return_line_endings() {
    let events = feed_all(&[
        b"data: {\"choices\":[{\"delta\":{\"content\":\"y\"}}]}\r\ndata: [DONE]\r\n",
    ]);
    assert_eq!(events, vec![token("y"), StreamEvent::Done]);
}

#[test]
fn partial_line_is_buffered_until_complete() {
    let mut parser = StreamEventParser::new();
    assert_eq!(parser.feed(b"data: [DO"), vec![]);
    assert_eq!(parser.feed(b"NE]"), vec![]);
    assert_eq!(parser.feed(b"\n"), vec![StreamEvent::Done]);
}

#[test]
fn empty_chunk_yields_no_events() {
    let mut parser = StreamEventParser::new();
    assert_eq!(parser.feed(b""), vec![]);
    assert_eq!(parser.feed(b"data: [DONE]"), vec![]);
    assert_eq!(parser.feed(b""), vec![]);
    assert_eq!(parser.feed(b"\n"), vec![StreamEvent::Done]);
}

#[test]
fn unmarked_lines_are_ignored() {
    let events = feed_all(&[
        b": comment\nevent: message\n\ndat\ndata\n  data: {\"choices\":[{\"delta\":{\"content\":\"x\"}}]}\n",
    ]);
    assert_eq!(events, vec![]);
}

#[test]
fn stream_without_done_is_just_tokens() {
    let events = feed_all(&[
        b"data: {\"choices\":[{\"delta\":{\"content\":\"a\"}}]}\ndata: {\"choices\":[{\"delta\":{\"content\":\"b\"}}]}\n",
    ]);
    assert_eq!(events, vec![token("a"), token("b")]);
}

#[test]
fn token_order_is_arrival_order() {
    let stream: Vec<u8> = (0..5)
        .flat_map(|i| {
            format!("data: {{\"choices\":[{{\"delta\":{{\"content\":\"t{}\"}}}}]}}\n", i)
                .into_bytes()
        })
        .collect();
    let events = feed_all(&[&stream]);
    let expected: Vec<StreamEvent> = (0..5).map(|i| token(&format!("t{}", i))).collect();
    assert_eq!(events, expected);
}
