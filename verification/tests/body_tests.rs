use praxis::body::{BodyAccess, BodyBuffer, BodyBufferOverflow, BodyCapabilities, BodyMode};

#[test]
fn body_access_default_is_none() {
    assert_eq!(BodyAccess::default(), BodyAccess::NoAccess);
}

#[test]
fn body_access_variants_are_distinct() {
    assert_ne!(BodyAccess::NoAccess, BodyAccess::ReadOnly);
    assert_ne!(BodyAccess::ReadOnly, BodyAccess::ReadWrite);
    assert_ne!(BodyAccess::NoAccess, BodyAccess::ReadWrite);
}

#[test]
fn body_mode_default_is_stream() {
    assert_eq!(BodyMode::default(), BodyMode::Stream);
}

#[test]
fn body_mode_buffer_carries_limit() {
    let mode = BodyMode::Buffer { max_bytes: 4096 };
    assert!(matches!(mode, BodyMode::Buffer { max_bytes: 4096 }));
}

#[test]
fn body_mode_stream_buffer_unlimited() {
    let mode = BodyMode::StreamBuffer { max_bytes: None };
    assert!(matches!(mode, BodyMode::StreamBuffer { max_bytes: None }));
}

#[test]
fn body_mode_stream_buffer_with_limit() {
    let mode = BodyMode::StreamBuffer { max_bytes: Some(4096) };
    assert!(matches!(mode, BodyMode::StreamBuffer { max_bytes: Some(4096) }));
}

#[test]
fn body_mode_stream_buffer_is_distinct() {
    assert_ne!(BodyMode::StreamBuffer { max_bytes: None }, BodyMode::Buffer { max_bytes: 100 });
    assert_ne!(BodyMode::StreamBuffer { max_bytes: None }, BodyMode::Stream);
}

#[test]
fn body_capabilities_default_is_no_op() {
    let caps = BodyCapabilities::default();
    assert!(!caps.needs_request_body);
    assert!(!caps.needs_response_body);
    assert!(!caps.any_request_body_writer);
    assert!(!caps.any_response_body_writer);
    assert!(!caps.needs_request_context);
    assert_eq!(caps.request_body_mode, BodyMode::Stream);
    assert_eq!(caps.response_body_mode, BodyMode::Stream);
}

#[test]
fn buffer_empty_freeze_returns_empty_bytes() {
    let buf = BodyBuffer::new(1024);
    assert_eq!(buf.total_bytes(), 0);
    let frozen = buf.freeze();
    assert!(frozen.is_empty());
}

#[test]
fn buffer_single_chunk_freeze_avoids_copy() {
    let mut buf = BodyBuffer::new(1024);
    buf.push(b"hello".to_vec()).unwrap();
    assert_eq!(buf.total_bytes(), 5);
    assert_eq!(buf.freeze(), b"hello".to_vec());
}

#[test]
fn buffer_multiple_chunks_concatenate() {
    let mut buf = BodyBuffer::new(1024);
    buf.push(b"hello ".to_vec()).unwrap();
    buf.push(b"world".to_vec()).unwrap();
    assert_eq!(buf.total_bytes(), 11);
    assert_eq!(buf.freeze(), b"hello world".to_vec());
}

#[test]
fn buffer_rejects_overflow() {
    let mut buf = BodyBuffer::new(10);
    buf.push(b"12345".to_vec()).unwrap();
    let err = buf.push(b"123456".to_vec()).unwrap_err();
    assert_eq!(err.limit, 10);
    assert_eq!(err.attempted, 11);
}

#[test]
fn buffer_exact_limit_succeeds() {
    let mut buf = BodyBuffer::new(10);
    buf.push(b"12345".to_vec()).unwrap();
    buf.push(b"12345".to_vec()).unwrap();
    assert_eq!(buf.total_bytes(), 10);
    assert_eq!(buf.freeze().len(), 10);
}

#[test]
fn buffer_overflow_display_message() {
    let err = BodyBufferOverflow { limit: 100, attempted: 150 };
    assert_eq!(err.to_string(), "body exceeds maximum size: 150 bytes attempted, 100 byte limit");
}
