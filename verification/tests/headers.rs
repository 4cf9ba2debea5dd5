use copilot_lmstudio_config::codec::JsonError;
use copilot_lmstudio_config::forward::{
    build_upstream_url, finish_response_body, forwarded_headers, forwards_header,
    patch_stream_chunk, prepare_request, prepare_request_body, RequestPatch,
};
use copilot_lmstudio_config::headers::{
    classify_response, contains_bytes, is_json_request, is_json_response,
    sanitize_response_headers, value_is_text, Header, ResponseKind,
};
use http::{HeaderMap, HeaderValue};

fn header(name: &str, value: &str) -> Header {
    Header { name: name.to_string(), value: value.as_bytes().to_vec() }
}

#[test]
fn sanitizes_decompressed_headers() {
    let mut headers = HeaderMap::new();
    headers.insert("content-encoding", HeaderValue::from_static("gzip"));
    headers.insert("transfer-encoding", HeaderValue::from_static("chunked"));
    headers.insert("content-length", HeaderValue::from_static("42"));
    headers.insert("content-type", HeaderValue::from_static("application/json"));

    sanitize_response_headers(&mut headers);

    assert!(headers.get("content-encoding").is_none());
    assert!(headers.get("transfer-encoding").is_none());
    assert!(headers.get("content-length").is_none());
    assert_eq!(headers.get("content-type").unwrap(), "application/json");
}

#[test]
fn sanitizing_keeps_every_other_header_and_all_its_values() {
    let mut headers = HeaderMap::new();
    headers.append("set-cookie", HeaderValue::from_static("a=1"));
    headers.append("content-length", HeaderValue::from_static("1"));
    headers.append("content-length", HeaderValue::from_static("2"));
    headers.append("set-cookie", HeaderValue::from_static("b=2"));
    headers.append("cache-control", HeaderValue::from_static("no-store"));
    headers.append("x-trace-id", HeaderValue::from_static("t"));

    sanitize_response_headers(&mut headers);

    assert_eq!(headers.len(), 4);
    let cookies: Vec<&HeaderValue> = headers.get_all("set-cookie").iter().collect();
    assert_eq!(cookies, vec!["a=1", "b=2"]);
    assert_eq!(headers.get("cache-control").unwrap(), "no-store");
    assert_eq!(headers.get("x-trace-id").unwrap(), "t");

    sanitize_response_headers(&mut headers);
    assert_eq!(headers.len(), 4);
}

#[test]
fn json_content_type_is_recognised() {
    let mut headers = HeaderMap::new();
    assert!(!is_json_request(&headers));
    assert!(!is_json_response(&headers));
    headers.insert("content-type", HeaderValue::from_static("application/json; charset=utf-8"));
    assert!(is_json_request(&headers));
    assert!(is_json_response(&headers));
    headers.insert("content-type", HeaderValue::from_static("text/plain"));
    assert!(!is_json_request(&headers));
    headers.insert("content-type", HeaderValue::from_static("Application/JSON"));
    assert!(!is_json_response(&headers));
    headers.insert("content-type", HeaderValue::from_bytes(b"application/json\xfa").unwrap());
    assert!(!is_json_request(&headers));
}

#[test]
fn only_the_first_content_type_counts() {
    let mut headers = HeaderMap::new();
    headers.append("content-type", HeaderValue::from_static("text/plain"));
    headers.append("content-type", HeaderValue::from_static("application/json"));
    assert!(!is_json_request(&headers));
}

#[test]
fn event_streams_are_streamed() {
    let mut headers = HeaderMap::new();
    assert_eq!(classify_response(&headers), ResponseKind::Buffered);
    headers.insert("content-type", HeaderValue::from_static("text/event-stream; charset=utf-8"));
    assert_eq!(classify_response(&headers), ResponseKind::Streaming);
    headers.insert("content-type", HeaderValue::from_static("application/json"));
    assert_eq!(classify_response(&headers), ResponseKind::Buffered);
}

#[test]
fn header_text_and_search() {
    assert!(value_is_text(b"abc \t~"));
    assert!(!value_is_text(b"a\x7f"));
    assert!(!value_is_text(b"a\x1f"));
    assert!(value_is_text(b""));
    assert!(contains_bytes(b"xxabcxx", b"abc"));
    assert!(contains_bytes(b"abc", b"abc"));
    assert!(contains_bytes(b"abc", b""));
    assert!(contains_bytes(b"", b""));
    assert!(!contains_bytes(b"ab", b"abc"));
    assert!(!contains_bytes(b"abxabyab", b"abc"));
    assert!(contains_bytes(b"aab", b"ab"));
}

#[test]
fn hop_headers_are_not_forwarded() {
    for name in ["host", "connection", "accept-encoding", "content-length", "sec-fetch-mode", "sec-"] {
        assert!(!forwards_header(name));
    }
    for name in ["content-type", "authorization", "se", "sec", "x-sec-y", "hosts", "accept"] {
        assert!(forwards_header(name));
    }
}

#[test]
fn forwarded_headers_keep_order_and_duplicates() {
    let list = vec![
        header("host", "localhost"),
        header("accept", "a"),
        header("sec-ch-ua", "x"),
        header("accept", "b"),
        header("content-length", "3"),
        header("authorization", "k"),
    ];
    assert_eq!(
        forwarded_headers(list),
        vec![header("accept", "a"), header("accept", "b"), header("authorization", "k")]
    );
}

#[test]
fn upstream_address_is_base_path_and_query() {
    assert_eq!(build_upstream_url("http://localhost:1234", "/v1/chat", ""), "http://localhost:1234/v1/chat");
    assert_eq!(build_upstream_url("http://localhost:1234///", "/v1/chat", "a=1&b=2"), "http://localhost:1234/v1/chat?a=1&b=2");
    assert_eq!(build_upstream_url("", "/", "q"), "/?q");
    assert_eq!(build_upstream_url("//", "", ""), "");
}

#[test]
fn bodies_not_declared_as_json_pass_through() {
    let body = br#"{"tools":[{"parameters":{}}]}"#.to_vec();
    assert_eq!(prepare_request_body(false, body.clone()), body);
    assert_eq!(finish_response_body(false, br#"{"usage":{}}"#.to_vec()), br#"{"usage":{}}"#.to_vec());
    assert_eq!(prepare_request_body(false, vec![0, 159, 146, 150]), vec![0, 159, 146, 150]);
}

#[test]
fn bodies_declared_as_json_are_corrected_or_passed_through() {
    assert_eq!(
        prepare_request_body(true, br#"{"tools":[{"parameters":{}}]}"#.to_vec()),
        br#"{"tools":[{"parameters":{"type":"object","properties":{}}}]}"#.to_vec()
    );
    assert_eq!(prepare_request_body(true, b"{oops".to_vec()), b"{oops".to_vec());
    assert_eq!(prepare_request_body(true, Vec::new()), Vec::<u8>::new());
    assert_eq!(
        finish_response_body(true, br#"{ "usage" : { } }"#.to_vec()),
        br#"{"usage":{"input_tokens_details":{"cached_tokens":0},"output_tokens_details":{"reasoning_tokens":0}}}"#.to_vec()
    );
    assert_eq!(finish_response_body(true, b"<html>".to_vec()), b"<html>".to_vec());
}

#[test]
fn chunks_that_cannot_be_corrected_pass_through() {
    assert_eq!(patch_stream_chunk(b"data: \xff".to_vec()), b"data: \xff".to_vec());
    assert_eq!(patch_stream_chunk(b"data: [DONE]\n\n".to_vec()), b"data: [DONE]\n\n".to_vec());
    assert_eq!(
        patch_stream_chunk(b"data: {\"response\":{\"usage\":{}}}\n\n".to_vec()),
        b"data: {\"response\":{\"usage\":{\"input_tokens_details\":{\"cached_tokens\":0},\"output_tokens_details\":{\"reasoning_tokens\":0}}}}\n\n".to_vec()
    );
}

#[test]
fn the_request_correction_is_reported() {
    assert_eq!(
        prepare_request(true, br#"{"tools":[{"parameters":{}},{"parameters":{}},{}]}"#.to_vec()),
        (
            br#"{"tools":[{"parameters":{"type":"object","properties":{}}},{"parameters":{"type":"object","properties":{}}},{}]}"#.to_vec(),
            RequestPatch::Applied { corrected: 2 }
        )
    );
    assert_eq!(
        prepare_request(true, br#"{"a": 1}"#.to_vec()),
        (br#"{"a":1}"#.to_vec(), RequestPatch::Applied { corrected: 0 })
    );
    assert_eq!(
        prepare_request(true, b"{oops".to_vec()),
        (b"{oops".to_vec(), RequestPatch::Failed(JsonError::InvalidJson))
    );
    assert_eq!(prepare_request(true, Vec::new()), (Vec::new(), RequestPatch::Skipped));
    assert_eq!(
        prepare_request(false, br#"{"tools":[{"parameters":{}}]}"#.to_vec()),
        (br#"{"tools":[{"parameters":{}}]}"#.to_vec(), RequestPatch::Skipped)
    );
}
