use mcp_inspector_desktop::relay::{scan_for_token, LogRelay, StreamKind};

fn relay() -> LogRelay {
    LogRelay::new(5174, 6277, "sess-1".to_string())
}

#[test]
fn readiness_line_yields_exact_url() {
    let mut r = relay();
    let line = b"Session token: abc123".to_vec();
    let (event, ready) = r.on_line(StreamKind::Stdout, line.clone());
    assert_eq!(event.kind, StreamKind::Stdout);
    assert_eq!(event.text, line);
    assert_eq!(event.session_id, "sess-1");
    let url = ready.expect("a readiness URL");
    assert_eq!(
        String::from_utf8(url).unwrap(),
        "http://localhost:5174?MCP_PROXY_PORT=6277&MCP_PROXY_AUTH_TOKEN=abc123"
    );
}

#[test]
fn readiness_emitted_once_across_lines() {
    let mut r = relay();
    let (_, first) = r.on_line(StreamKind::Stdout, b"Session token: abc123".to_vec());
    assert!(first.is_some());
    let (_, second) = r.on_line(StreamKind::Stdout, b"Session token: abc123".to_vec());
    assert!(second.is_none());
    let (_, third) = r.on_line(StreamKind::Stdout, b"Session token: other".to_vec());
    assert!(third.is_none());
}

#[test]
fn marker_without_trailing_text_gives_empty_token() {
    let mut r = relay();
    let (_, ready) = r.on_line(StreamKind::Stdout, b"Session token:".to_vec());
    let url = ready.expect("a readiness URL");
    assert_eq!(
        String::from_utf8(url).unwrap(),
        "http://localhost:5174?MCP_PROXY_PORT=6277&MCP_PROXY_AUTH_TOKEN="
    );
}

#[test]
fn token_is_trimmed_of_surrounding_whitespace() {
    let token = scan_for_token(&b"prefix Session token: \t tok-9 \r".to_vec());
    assert_eq!(token, Some(b"tok-9".to_vec()));
}

#[test]
fn line_without_marker_carries_no_token() {
    assert_eq!(scan_for_token(&b"Starting up on port 5174".to_vec()), None);
    assert_eq!(scan_for_token(&b"".to_vec()), None);
    assert_eq!(scan_for_token(&b"session token: lower".to_vec()), None);
}

#[test]
fn stderr_lines_never_signal_readiness() {
    let mut r = relay();
    let (event, ready) = r.on_line(StreamKind::Stderr, b"Session token: abc123".to_vec());
    assert_eq!(event.kind, StreamKind::Stderr);
    assert!(ready.is_none());
    let (_, later) = r.on_line(StreamKind::Stdout, b"Session token: abc123".to_vec());
    assert!(later.is_some());
}

#[test]
fn exited_signal_follows_both_streams_ending() {
    let mut r = relay();
    assert_eq!(r.on_eof(StreamKind::Stdout), None);
    assert_eq!(r.on_eof(StreamKind::Stderr), Some("sess-1".to_string()));
    assert_eq!(r.on_eof(StreamKind::Stderr), None);
    assert_eq!(r.on_eof(StreamKind::Stdout), None);
}

#[test]
fn exited_signal_order_is_stream_independent() {
    let mut r = relay();
    assert_eq!(r.on_eof(StreamKind::Stderr), None);
    assert_eq!(r.on_eof(StreamKind::Stdout), Some("sess-1".to_string()));
}
