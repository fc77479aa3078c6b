use aim::stream::StreamAssembler;
use aim::{transport_should_retry, MAX_CHUNK_DECODE_RETRIES, MAX_REQWEST_RETRIES};

#[test]
fn reassembles_single_chunk() {
    let mut a = StreamAssembler::new();
    a.feed("data: {\"choices\":[{\"delta\":{\"content\":\"Hello\"}}]}\n");
    a.feed("data: [DONE]\n");
    assert_eq!(a.finish(), "Hello");
}

#[test]
fn reassembles_across_chunk_boundary_mid_frame() {
    // The same frame split mid-JSON must give the same result as one chunk.
    let whole = "data: {\"choices\":[{\"delta\":{\"content\":\"AB\"}}]}\n";
    let mut one = StreamAssembler::new();
    one.feed(whole);
    let mut two = StreamAssembler::new();
    two.feed("data: {\"choi");
    two.feed("ces\":[{\"delta\":{\"content\":\"AB\"}}]}\n");
    assert_eq!(one.finish(), two.finish());
}

#[test]
fn keeps_partial_line_until_newline_arrives() {
    let mut a = StreamAssembler::new();
    a.feed("data: {\"choices\":[{\"delta\":{\"content\":\"X\"}}]}");
    // No newline yet: nothing is decoded.
    assert_eq!(a.content, "");
    a.feed("\n");
    assert_eq!(a.finish(), "X");
}

#[test]
fn concatenates_frames_in_order() {
    let mut a = StreamAssembler::new();
    a.feed("data: {\"choices\":[{\"delta\":{\"content\":\"one \"}}]}\r\n");
    a.feed("data: {\"choices\":[{\"delta\":{\"content\":\"two\"}}]}\n");
    assert_eq!(a.finish(), "one two");
}

#[test]
fn skips_malformed_frames_and_non_data_lines() {
    let mut a = StreamAssembler::new();
    a.feed("data: {not json}\n");
    a.feed(": comment line\n");
    a.feed("\n");
    a.feed("data: {\"choices\":[{\"delta\":{\"content\":\"ok\"}}]}\n");
    assert_eq!(a.finish(), "ok");
}

#[test]
fn reasoning_is_echoed_but_never_accumulated() {
    let mut a = StreamAssembler::new();
    let outs = a.feed(
        "data: {\"choices\":[{\"delta\":{\"reasoning_content\":\"thinking\",\"content\":\"said\"}}]}\n",
    );
    assert_eq!(outs, vec!["thinking".to_string(), "said".to_string()]);
    assert_eq!(a.finish(), "said");
}

#[test]
fn done_sentinel_contributes_nothing() {
    let mut a = StreamAssembler::new();
    let outs = a.feed("data: [DONE]\n");
    assert!(outs.is_empty());
    assert_eq!(a.finish(), "");
}

#[test]
fn trailing_partial_line_is_dropped_not_an_error() {
    let mut a = StreamAssembler::new();
    a.feed("data: {\"choices\":[{\"delta\":{\"content\":\"kept\"}}]}\ndata: {\"cho");
    assert_eq!(a.finish(), "kept");
}

#[test]
fn decode_retries_abort_only_past_the_cap() {
    let mut a = StreamAssembler::new();
    for _ in 0..MAX_CHUNK_DECODE_RETRIES {
        assert!(!a.on_decode_error());
    }
    // The next failure exceeds the cap and aborts the call.
    assert!(a.on_decode_error());
    assert!(a.on_decode_error());
}

#[test]
fn transport_retry_stops_past_the_cap() {
    assert!(transport_should_retry(1));
    assert!(transport_should_retry(MAX_REQWEST_RETRIES));
    assert!(!transport_should_retry(MAX_REQWEST_RETRIES + 1));
}
