//! The outbound chat request and the classification of a dispatch's
//! outcome.
//!
//! The dispatcher's input/output — opening the streaming HTTP call and
//! awaiting each chunk — is the caller's; this module fixes what is sent
//! (the request payload and the endpoint) and what a dispatch returns for
//! each way the stream can end. The chunks themselves are consumed by
//! [`crate::parser::StreamEventParser::feed`], one call per chunk, and each
//! event is delivered to the subscriber in arrival order.

use vstd::prelude::*;
use vstd::string::StringExecFns;

verus! {

/// An error of a single dispatched request: the backend could not be
/// reached, or the connection was lost while the response was being read.
/// Non-fatal to the application; the caller may retry after a delay.
pub enum DispatchError {
    ConnectionError,
}

/// The outbound chat-completion payload: one user prompt, the fixed model
/// identifier, and streaming enabled.
pub struct ChatRequest {
    pub model: String,
    pub prompt: String,
    pub stream: bool,
}

impl ChatRequest {
    /// Builds the payload for one prompt: the model identifier is fixed
    /// and streaming is always requested.
    pub fn new(prompt: String) -> (r: ChatRequest)
        ensures
            r.model@ == "model.gguf"@,
            r.prompt == prompt,
            r.stream,
    {
        ChatRequest { model: String::from_str("model.gguf"), prompt, stream: true }
    }
}

/// The fixed local endpoint the request is posted to.
pub fn endpoint_url() -> (r: String)
    ensures
        r@ == "http://localhost:8080/v1/chat/completions"@,
{
    String::from_str("http://localhost:8080/v1/chat/completions")
}

/// The result of one dispatch, from how its stream went.
///
/// A dispatch that could not be sent fails with `ConnectionError`, and so
/// does one whose body reading broke off mid-stream; a body that ends
/// naturally — with or without the completion sentinel — is a normal
/// completion.
pub fn dispatch_outcome(connected: bool, read_failed: bool) -> (r: Result<(), DispatchError>)
    ensures
        r is Ok <==> connected && !read_failed,
        !(connected && !read_failed) ==> r == Err::<(), DispatchError>(
            DispatchError::ConnectionError,
        ),
{
    if connected && !read_failed {
        Ok(())
    } else {
        Err(DispatchError::ConnectionError)
    }
}

} // verus!
