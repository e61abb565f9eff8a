use ai_client::sse::{decode_all, PollResult, SseDecoder, StreamError, StreamItem};

fn items_of(chunks: Vec<Vec<u8>>) -> Vec<StreamItem> {
    decode_all(&chunks)
}

fn expect_ok(item: &StreamItem) -> &[u8] {
    match item {
        Ok(p) => p.as_slice(),
        Err(_) => panic!("expected a payload item"),
    }
}

#[test]
fn single_event_then_sentinel_yields_one_item() {
    // One JSON event, then the [DONE] sentinel: exactly one item.
    let body = b"data: {\"a\":1}\n\ndata: [DONE]\n\n".to_vec();
    let items = items_of(vec![body]);
    assert_eq!(items.len(), 1);
    assert_eq!(expect_ok(&items[0]), b"{\"a\":1}");
    let v: serde_json::Value = serde_json::from_slice(expect_ok(&items[0])).unwrap();
    assert_eq!(v.get("a").and_then(serde_json::Value::as_i64), Some(1));
}

#[test]
fn split_mid_payload_matches_unsplit() {
    // The same bytes split mid-payload decode into the same single item.
    let split = items_of(vec![b"data: {\"a\"".to_vec(), b":1}\n\n".to_vec()]);
    let whole = items_of(vec![b"data: {\"a\":1}\n\n".to_vec()]);
    assert_eq!(split.len(), 1);
    assert_eq!(whole.len(), 1);
    assert_eq!(expect_ok(&split[0]), expect_ok(&whole[0]));
    assert_eq!(expect_ok(&split[0]), b"{\"a\":1}");
}

#[test]
fn byte_at_a_time_matches_whole_body() {
    // Multi-byte characters included: one byte per chunk still decodes
    // identically, because incomplete scalars are held back.
    let body: &[u8] =
        "data: {\"a\":\"h\u{e9}\u{1f980}\"}\n\n: ping\n\ndata: {\"b\":[2,3]}\n\ndata: [DONE]\n\n"
        .as_bytes();
    let one_chunk = items_of(vec![body.to_vec()]);
    let byte_chunks: Vec<Vec<u8>> = body.iter().map(|b| vec![*b]).collect();
    let many_chunks = items_of(byte_chunks);
    assert_eq!(one_chunk.len(), 2);
    assert_eq!(many_chunks.len(), 2);
    for (a, b) in one_chunk.iter().zip(many_chunks.iter()) {
        assert_eq!(expect_ok(a), expect_ok(b));
    }
}

#[test]
fn block_without_data_line_is_skipped() {
    // A comment-only block yields nothing and the next block is still
    // processed.
    let items = items_of(vec![b": keep-alive\n\ndata: {\"x\":2}\n\n".to_vec()]);
    assert_eq!(items.len(), 1);
    assert_eq!(expect_ok(&items[0]), b"{\"x\":2}");
}

#[test]
fn sentinel_yields_no_item() {
    assert_eq!(items_of(vec![b"data: [DONE]\n\n".to_vec()]).len(), 0);
    // Surrounding whitespace does not make the sentinel an event.
    assert_eq!(items_of(vec![b"data:   [DONE]  \n\n".to_vec()]).len(), 0);
    assert_eq!(items_of(vec![b"data: [DONE]\r\n\n".to_vec()]).len(), 0);
}

#[test]
fn sentinel_line_is_skipped_within_block() {
    // A sentinel data line does not hide a later data line of the block.
    let items = items_of(vec![b"data: [DONE]\ndata: {\"a\":1}\n\n".to_vec()]);
    assert_eq!(items.len(), 1);
    assert_eq!(expect_ok(&items[0]), b"{\"a\":1}");
}

#[test]
fn first_data_line_wins() {
    let items = items_of(vec![b"data: 1\ndata: 2\n\n".to_vec()]);
    assert_eq!(items.len(), 1);
    assert_eq!(expect_ok(&items[0]), b"1");
}

#[test]
fn crlf_line_ending_is_stripped() {
    let items = items_of(vec![b"data: 7\r\n\n".to_vec()]);
    assert_eq!(items.len(), 1);
    assert_eq!(expect_ok(&items[0]), b"7");
}

#[test]
fn invalid_json_yields_one_decode_error_and_stream_continues() {
    let items = items_of(vec![b"data: {oops\n\ndata: {\"k\":3}\n\n".to_vec()]);
    assert_eq!(items.len(), 2);
    match &items[0] {
        Err(StreamError::Decode { payload, message }) => {
            assert_eq!(payload.as_slice(), b"{oops");
            assert!(!message.is_empty());
        },
        _ => panic!("expected a decode error"),
    }
    assert_eq!(expect_ok(&items[1]), b"{\"k\":3}");
}

#[test]
fn dangling_partial_event_is_dropped() {
    // The transport ends mid-buffer: the complete event is emitted, the
    // dangling tail is not.
    let items = items_of(vec![b"data: {\"a\":1}\n\ndata: {\"b\":2}".to_vec()]);
    assert_eq!(items.len(), 1);
    assert_eq!(expect_ok(&items[0]), b"{\"a\":1}");
}

#[test]
fn invalid_utf8_chunk_closes_with_one_encoding_error() {
    let items = items_of(vec![b"data: 1\n\n".to_vec(), vec![0xff, 0xfe]]);
    assert_eq!(items.len(), 2);
    assert_eq!(expect_ok(&items[0]), b"1");
    assert!(matches!(items[1], Err(StreamError::Encoding(_))));
}

#[test]
fn invalid_utf8_drops_events_after_the_bad_chunk() {
    let items = items_of(vec![vec![0xc0], b"data: 1\n\n".to_vec()]);
    assert_eq!(items.len(), 1);
    assert!(matches!(items[0], Err(StreamError::Encoding(_))));
}

#[test]
fn driver_asks_for_input_and_closes_cleanly() {
    let mut d = SseDecoder::new();
    assert!(matches!(d.poll(), PollResult::NeedInput));
    assert!(d.feed(b"data: {\"a\":1}\n\n"));
    match d.poll() {
        PollResult::Item(Ok(p)) => assert_eq!(p.as_slice(), b"{\"a\":1}"),
        _ => panic!("expected the buffered event"),
    }
    assert!(matches!(d.poll(), PollResult::NeedInput));
    d.end_input();
    assert!(matches!(d.poll(), PollResult::Closed));
    assert!(d.is_closed());
    // Once closed, the stream stays closed.
    assert!(matches!(d.poll(), PollResult::Closed));
}

#[test]
fn transport_failure_is_one_terminal_item() {
    let mut d = SseDecoder::new();
    assert!(d.feed(b"data: {\"a\":1}\n\n"));
    let item = d.transport_failed("connection reset".to_string());
    match item {
        Err(StreamError::Transport(m)) => assert_eq!(m, "connection reset"),
        _ => panic!("expected a transport error item"),
    }
    assert!(d.is_closed());
    assert!(matches!(d.poll(), PollResult::Closed));
}

#[test]
fn multibyte_text_decodes() {
    // Two- and four-byte UTF-8 sequences pass the chunk validation.
    let body = "data: \"h\u{e9}llo \u{1f980}\"\n\n".as_bytes().to_vec();
    let items = items_of(vec![body]);
    assert_eq!(items.len(), 1);
    let v: serde_json::Value = serde_json::from_slice(expect_ok(&items[0])).unwrap();
    assert_eq!(v.as_str(), Some("h\u{e9}llo \u{1f980}"));
}

#[test]
fn multibyte_split_across_chunks_matches_unsplit() {
    // A character split across two chunks is held back until its
    // continuation arrives: the split and unsplit transcripts decode
    // into the same single item.
    let whole = "data: \"\u{e9}\"\n\n".as_bytes().to_vec();
    let first: Vec<u8> = whole[..8].to_vec();
    let rest: Vec<u8> = whole[8..].to_vec();
    assert!(std::str::from_utf8(&first).is_err());
    let split = items_of(vec![first, rest]);
    let unsplit = items_of(vec![whole]);
    assert_eq!(split.len(), 1);
    assert_eq!(unsplit.len(), 1);
    assert_eq!(expect_ok(&split[0]), expect_ok(&unsplit[0]));
    assert_eq!(expect_ok(&split[0]), "\"\u{e9}\"".as_bytes());
}

#[test]
fn trailing_incomplete_scalar_is_dropped_quietly() {
    // The transport ends in the middle of a character: the complete
    // event is emitted and the held-back half character is dropped
    // like any other dangling tail.
    let mut body = b"data: 1\n\n".to_vec();
    body.push(0xc3);
    let items = items_of(vec![body]);
    assert_eq!(items.len(), 1);
    assert_eq!(expect_ok(&items[0]), b"1");
}

#[test]
fn events_before_corrupt_bytes_still_come_out() {
    // Complete events that precede the corruption are emitted before
    // the one terminal encoding-error item, even within one chunk.
    let mut body = b"data: 1\n\ndata: 2\n\n".to_vec();
    body.push(0xff);
    let items = items_of(vec![body]);
    assert_eq!(items.len(), 3);
    assert_eq!(expect_ok(&items[0]), b"1");
    assert_eq!(expect_ok(&items[1]), b"2");
    assert!(matches!(items[2], Err(StreamError::Encoding(_))));
}

#[test]
fn overlong_and_surrogate_bytes_are_rejected() {
    // An overlong two-byte encoding of '/' and a surrogate encoding are
    // both invalid UTF-8.
    let items = items_of(vec![vec![0xc0, 0xaf]]);
    assert!(matches!(items[0], Err(StreamError::Encoding(_))));
    let items = items_of(vec![vec![0xed, 0xa0, 0x80]]);
    assert!(matches!(items[0], Err(StreamError::Encoding(_))));
}

#[test]
fn empty_transcript_yields_nothing() {
    assert_eq!(items_of(Vec::new()).len(), 0);
    assert_eq!(items_of(vec![Vec::new()]).len(), 0);
}
