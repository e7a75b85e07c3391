use prism_engine::dispatcher::{dispatch_outcome, endpoint_url, ChatRequest, DispatchError};

#[test]
fn chat_request_has_fixed_model_and_streaming() {
    let r = ChatRequest::new("Hello there".to_string());
    assert_eq!(r.model, "model.gguf");
    assert_eq!(r.prompt, "Hello there");
    assert!(r.stream);
}

#[test]
fn endpoint_is_the_local_chat_completions_url() {
    assert_eq!(endpoint_url(), "http://localhost:8080/v1/chat/completions");
}

#[test]
fn unreachable_backend_is_a_connection_error() {
    let r = dispatch_outcome(false, false);
    assert!(matches!(r, Err(DispatchError::ConnectionError)));
}

#[test]
fn broken_stream_is_a_connection_error() {
    let r = dispatch_outcome(true, true);
    assert!(matches!(r, Err(DispatchError::ConnectionError)));
}

#[test]
fn completed_stream_is_ok() {
    assert!(dispatch_outcome(true, false).is_ok());
}
