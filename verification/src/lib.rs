//! A small orchestration library for a local inference backend: it plans the
//! launch of the backend subprocess, tracks the single active process handle,
//! parses the backend's streamed chat-completion response incrementally into
//! discrete events, and classifies the outcome of a dispatched request.

pub mod dispatcher;
pub mod events;
pub mod laws;
pub mod parser;
pub mod supervisor;
