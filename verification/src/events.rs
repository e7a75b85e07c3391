//! The events produced by the stream parser, and their mathematical model.

use vstd::prelude::*;

verus! {

/// One event of the streamed chat-completion response: a fragment of
/// generated text, or the marker that the stream is complete.
#[derive(Debug, Clone, PartialEq, Eq)]
pub enum StreamEvent {
    Token(String),
    Done,
}

/// The mathematical model of a [`StreamEvent`]: the token's text as a
/// sequence of characters, or the completion marker.
pub enum EventModel {
    Token(Seq<char>),
    Done,
}

impl View for StreamEvent {
    type V = EventModel;

    open spec fn view(&self) -> EventModel {
        match self {
            StreamEvent::Token(s) => EventModel::Token(s@),
            StreamEvent::Done => EventModel::Done,
        }
    }
}

/// The model of a sequence of events: each event replaced by its model.
pub open spec fn abs_events(es: Seq<StreamEvent>) -> Seq<EventModel> {
    es.map_values(|e: StreamEvent| e@)
}

} // verus!
