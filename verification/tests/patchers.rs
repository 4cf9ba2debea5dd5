use bytes::Bytes;
use copilot_lmstudio_config::body::{fix_request_body, fix_response_body};
use copilot_lmstudio_config::codec::JsonError;
use copilot_lmstudio_config::frame::{decode_frame, encode_frame, fix_streaming_chunk, Frame};
use copilot_lmstudio_config::json::{Json, Member};
use copilot_lmstudio_config::patch::{
    apply_default_schema, count_tool_patches, needs_event_patch, needs_tool_patch, patch_event,
    patch_request, patch_response, patch_tool,
};
use serde_json::Value;

fn value(text: &str) -> Value {
    serde_json::from_str(text).unwrap()
}

fn doc(text: &str) -> Json {
    Json::from_text(text).unwrap()
}

#[test]
fn fixes_missing_tool_parameter_schema() {
    let input = value(
        r#"{
            "tools": [
                { "function": { "parameters": {} } },
                { "parameters": {} },
                {
                    "function": {
                        "parameters": {
                            "type": "object",
                            "properties": { "foo": { "type": "string" } }
                        }
                    }
                }
            ]
        }"#,
    );

    let bytes = Bytes::from(serde_json::to_vec(&input).unwrap());
    let fixed = fix_request_body(&bytes).expect("request body fix should succeed");
    let fixed_json: Value = serde_json::from_slice(&fixed).unwrap();
    let tools = fixed_json["tools"]
        .as_array()
        .expect("tools should remain an array");

    let first_params = tools[0]["function"]["parameters"].as_object().unwrap();
    assert_eq!(first_params["type"], "object");
    assert!(first_params["properties"].as_object().unwrap().is_empty());

    let second_params = tools[1]["parameters"].as_object().unwrap();
    assert_eq!(second_params["type"], "object");
    assert!(second_params["properties"].as_object().unwrap().is_empty());

    let third_params = tools[2]["function"]["parameters"].as_object().unwrap();
    assert_eq!(third_params["type"], "object");
    assert_eq!(
        third_params["properties"].as_object().unwrap()["foo"],
        value(r#"{ "type": "string" }"#)
    );
}

#[test]
fn adds_missing_usage_details() {
    let input = value(r#"{ "usage": {} }"#);

    let bytes = Bytes::from(serde_json::to_vec(&input).unwrap());
    let fixed = fix_response_body(&bytes).expect("response body fix should succeed");
    let fixed_json: Value = serde_json::from_slice(&fixed).unwrap();
    let usage = fixed_json["usage"].as_object().unwrap();

    assert_eq!(usage["input_tokens_details"], value(r#"{ "cached_tokens": 0 }"#));
    assert_eq!(
        usage["output_tokens_details"],
        value(r#"{ "reasoning_tokens": 0 }"#)
    );
}

#[test]
fn fixes_streaming_usage_chunks() {
    let chunk = Bytes::from("data: {\"response\":{\"usage\":{}}}\n\n");
    let fixed = fix_streaming_chunk(&chunk).expect("stream chunk fix should succeed");
    assert_ne!(fixed, chunk);

    let fixed_str = std::str::from_utf8(&fixed).unwrap();
    assert!(fixed_str.contains("input_tokens_details"));
    assert!(fixed_str.contains("output_tokens_details"));
}

#[test]
fn leaves_done_streaming_marker_untouched() {
    let chunk = Bytes::from("data: [DONE]\n\n");
    let fixed = fix_streaming_chunk(&chunk).expect("[DONE] chunk fix should succeed");
    assert_eq!(fixed, chunk);
}

#[test]
fn request_patch_gives_exact_bytes() {
    let fixed =
        fix_request_body(br#"{"tools":[{"function":{"parameters":{}}},{"parameters":{}}]}"#)
            .unwrap();
    assert_eq!(
        String::from_utf8(fixed).unwrap(),
        r#"{"tools":[{"function":{"parameters":{"type":"object","properties":{}}}},{"parameters":{"type":"object","properties":{}}}]}"#
    );
}

#[test]
fn request_patch_is_idempotent_on_bytes() {
    let body = br#"{"model":"m","tools":[{"function":{"name":"f","parameters":{"x":1.5}}},{"parameters":{"properties":{"a":{}}}},{"function":null,"parameters":{}},7],"z":[1,2]}"#;
    let once = fix_request_body(body).unwrap();
    let twice = fix_request_body(&once).unwrap();
    assert_eq!(once, twice);
    assert_eq!(
        String::from_utf8(once).unwrap(),
        r#"{"model":"m","tools":[{"function":{"name":"f","parameters":{"x":1.5,"type":"object","properties":{}}}},{"parameters":{"properties":{"a":{}},"type":"object"}},{"function":null,"parameters":{"type":"object","properties":{}}},7],"z":[1,2]}"#
    );
}

#[test]
fn request_patch_keeps_key_order_and_unrelated_members() {
    let body = br#"{"zeta":1,"alpha":{"b":2,"a":[true,null,"x"]},"tools":[]}"#;
    let fixed = fix_request_body(body).unwrap();
    assert_eq!(fixed, body.to_vec());
}

#[test]
fn typed_parameters_without_properties_are_not_modified() {
    let tool = doc(r#"{"function":{"parameters":{"type":"object"}}}"#);
    let expected = doc(r#"{"function":{"parameters":{"type":"object"}}}"#);
    assert_eq!(patch_tool(tool), expected);
    let body = br#"{"tools":[{"parameters":{"type":"string"}}]}"#;
    assert_eq!(fix_request_body(body).unwrap(), body.to_vec());
}

#[test]
fn parameters_that_are_no_object_are_untouched() {
    assert_eq!(apply_default_schema(doc("[1]")), doc("[1]"));
    assert_eq!(apply_default_schema(doc("null")), doc("null"));
    assert_eq!(patch_tool(doc(r#"{"parameters":"x"}"#)), doc(r#"{"parameters":"x"}"#));
    assert_eq!(patch_tool(doc(r#"{"name":"n"}"#)), doc(r#"{"name":"n"}"#));
    assert_eq!(patch_tool(doc("3")), doc("3"));
}

#[test]
fn a_function_without_parameters_does_not_hide_the_tools_own() {
    assert_eq!(
        patch_tool(doc(r#"{"function":{"name":"f"},"parameters":{}}"#)),
        doc(r#"{"function":{"name":"f"},"parameters":{"type":"object","properties":{}}}"#)
    );
    assert_eq!(
        patch_tool(doc(r#"{"function":null,"parameters":{"properties":{}}}"#)),
        doc(r#"{"function":null,"parameters":{"properties":{},"type":"object"}}"#)
    );
    assert_eq!(
        fix_request_body(br#"{"tools":[{"function":{"name":"f"},"parameters":{}}]}"#).unwrap(),
        br#"{"tools":[{"function":{"name":"f"},"parameters":{"type":"object","properties":{}}}]}"#
            .to_vec()
    );
}

#[test]
fn parameters_under_function_come_first() {
    assert_eq!(
        patch_tool(doc(r#"{"function":{"parameters":{}},"parameters":{}}"#)),
        doc(r#"{"function":{"parameters":{"type":"object","properties":{}}},"parameters":{}}"#)
    );
    assert_eq!(
        patch_tool(doc(r#"{"function":{"parameters":{"type":"x"}},"parameters":{}}"#)),
        doc(r#"{"function":{"parameters":{"type":"x"}},"parameters":{}}"#)
    );
    assert_eq!(
        patch_tool(doc(r#"{"function":{"parameters":null},"parameters":{}}"#)),
        doc(r#"{"function":{"parameters":null},"parameters":{}}"#)
    );
}

#[test]
fn tools_that_need_the_schema_are_counted() {
    assert!(needs_tool_patch(&doc(r#"{"parameters":{}}"#)));
    assert!(needs_tool_patch(&doc(r#"{"function":{"parameters":{"a":1}}}"#)));
    assert!(needs_tool_patch(&doc(r#"{"function":{"name":"f"},"parameters":{}}"#)));
    assert!(!needs_tool_patch(&doc(r#"{"function":{"parameters":{"type":"x"}},"parameters":{}}"#)));
    assert!(!needs_tool_patch(&doc(r#"{"parameters":[]}"#)));
    assert!(!needs_tool_patch(&doc("7")));
    assert_eq!(
        count_tool_patches(&doc(
            r#"{"tools":[{"parameters":{}},{"parameters":{"type":"o"}},{"function":{"parameters":{}}},3]}"#
        )),
        2
    );
    assert_eq!(count_tool_patches(&doc(r#"{"tools":{"parameters":{}}}"#)), 0);
    assert_eq!(count_tool_patches(&doc(r#"{"tools":[]}"#)), 0);
    assert_eq!(count_tool_patches(&doc("[]")), 0);
}

#[test]
fn default_schema_adds_what_is_missing() {
    assert_eq!(
        apply_default_schema(doc("{}")),
        doc(r#"{"type":"object","properties":{}}"#)
    );
    assert_eq!(
        apply_default_schema(doc(r#"{"properties":{"a":1}}"#)),
        doc(r#"{"properties":{"a":1},"type":"object"}"#)
    );
}

#[test]
fn tools_that_are_no_array_are_left_alone() {
    let body = br#"{"tools":{"parameters":{}}}"#;
    assert_eq!(fix_request_body(body).unwrap(), body.to_vec());
    assert_eq!(patch_request(doc("[1,2]")), doc("[1,2]"));
}

#[test]
fn request_body_that_is_no_json_is_an_error() {
    assert_eq!(fix_request_body(b"not json"), Err(JsonError::InvalidJson));
    assert_eq!(fix_request_body(b""), Err(JsonError::InvalidJson));
    assert_eq!(fix_response_body(b"{\"usage\":"), Err(JsonError::InvalidJson));
}

#[test]
fn response_patch_gives_exact_bytes() {
    let fixed = fix_response_body(br#"{"usage":{}}"#).unwrap();
    assert_eq!(
        String::from_utf8(fixed).unwrap(),
        r#"{"usage":{"input_tokens_details":{"cached_tokens":0},"output_tokens_details":{"reasoning_tokens":0}}}"#
    );
}

#[test]
fn response_patch_inserts_only_the_missing_member() {
    let fixed = fix_response_body(
        br#"{"id":"r","usage":{"output_tokens_details":{"reasoning_tokens":7},"total":3}}"#,
    )
    .unwrap();
    assert_eq!(
        String::from_utf8(fixed).unwrap(),
        r#"{"id":"r","usage":{"output_tokens_details":{"reasoning_tokens":7},"total":3,"input_tokens_details":{"cached_tokens":0}}}"#
    );
}

#[test]
fn complete_usage_is_left_alone() {
    let text = r#"{"usage":{"input_tokens_details":null,"output_tokens_details":5}}"#;
    assert_eq!(patch_response(doc(text)), doc(text));
    assert_eq!(fix_response_body(text.as_bytes()).unwrap(), text.as_bytes().to_vec());
    assert_eq!(patch_response(doc(r#"{"usage":[]}"#)), doc(r#"{"usage":[]}"#));
    assert_eq!(patch_response(doc(r#"{"other":{}}"#)), doc(r#"{"other":{}}"#));
}

#[test]
fn response_patch_is_idempotent() {
    let once = fix_response_body(br#"{"usage":{"input_tokens_details":{"cached_tokens":4}}}"#)
        .unwrap();
    let twice = fix_response_body(&once).unwrap();
    assert_eq!(once, twice);
}

#[test]
fn stream_patch_rewraps_the_frame() {
    let fixed = fix_streaming_chunk(b"data: {\"response\":{\"usage\":{}}}\n\n").unwrap();
    assert_eq!(
        String::from_utf8(fixed).unwrap(),
        "data: {\"response\":{\"usage\":{\"input_tokens_details\":{\"cached_tokens\":0},\"output_tokens_details\":{\"reasoning_tokens\":0}}}}\n\n"
    );
}

#[test]
fn stream_patch_passes_other_chunks_through() {
    for chunk in [
        &b"event: ping\n\n"[..],
        b"data: {\"response\":{\"usage\":{\"input_tokens_details\":1,\"output_tokens_details\":2}}}\n\n",
        b"data: {\"usage\":{}}\n\n",
        b"data: {broken\n\n",
        b"data: \n\n",
        b"",
        b"data:{\"response\":{\"usage\":{}}}\n\n",
        b" data: {\"response\":{\"usage\":{}}}\n\n",
    ] {
        assert_eq!(fix_streaming_chunk(chunk).unwrap(), chunk.to_vec());
    }
}

#[test]
fn a_repeated_prefix_is_part_of_the_payload() {
    let chunk = b"data: data: {\"response\":{\"usage\":{}}}\n\n";
    assert_eq!(fix_streaming_chunk(chunk).unwrap(), chunk.to_vec());
    assert_eq!(
        decode_frame("data: data: {\"response\":{\"usage\":{}}}\n\n"),
        Frame::Data("data: {\"response\":{\"usage\":{}}}".to_string())
    );
}

#[test]
fn stream_patch_strips_the_white_space_around_the_payload() {
    let fixed =
        fix_streaming_chunk("data: \u{a0}\t{\"response\":{\"usage\":{}}} \r\n\u{2003}".as_bytes())
            .unwrap();
    assert_eq!(
        String::from_utf8(fixed).unwrap(),
        "data: {\"response\":{\"usage\":{\"input_tokens_details\":{\"cached_tokens\":0},\"output_tokens_details\":{\"reasoning_tokens\":0}}}}\n\n"
    );
}

#[test]
fn stream_chunk_that_is_no_text_is_an_error() {
    assert_eq!(fix_streaming_chunk(b"data: \xff\n\n"), Err(JsonError::InvalidUtf8));
}

#[test]
fn frames_decode_and_encode() {
    assert_eq!(decode_frame("data: [DONE]\n\n"), Frame::Done);
    assert_eq!(decode_frame("data: data: x y \n"), Frame::Data("data: x y".to_string()));
    assert_eq!(decode_frame("data:  x y \n"), Frame::Data("x y".to_string()));
    assert_eq!(decode_frame("data:x"), Frame::Foreign);
    assert_eq!(decode_frame(""), Frame::Foreign);
    assert_eq!(decode_frame("data: "), Frame::Data(String::new()));
    assert_eq!(encode_frame("{}"), b"data: {}\n\n".to_vec());
}

#[test]
fn event_patch_is_needed_only_for_incomplete_usage() {
    assert!(needs_event_patch(&doc(r#"{"response":{"usage":{}}}"#)));
    assert!(needs_event_patch(&doc(r#"{"response":{"usage":{"input_tokens_details":1}}}"#)));
    assert!(!needs_event_patch(&doc(r#"{"response":{"usage":[]}}"#)));
    assert!(!needs_event_patch(&doc(r#"{"response":[]}"#)));
    assert!(!needs_event_patch(&doc(r#"{"usage":{}}"#)));
    assert_eq!(
        patch_event(doc(r#"{"response":{"usage":{"input_tokens_details":1}}}"#)),
        doc(r#"{"response":{"usage":{"input_tokens_details":1,"output_tokens_details":{"reasoning_tokens":0}}}}"#)
    );
}

#[test]
fn documents_hold_their_members_in_order() {
    let parsed = doc(r#"{"b":1,"a":"x"}"#);
    let built = Json::Object(vec![
        Member { key: "b".to_string(), value: Json::unsigned(1) },
        Member { key: "a".to_string(), value: Json::text("x") },
    ]);
    assert_eq!(parsed, built);
    assert_eq!(parsed.get("a"), Some(&Json::Text("x".to_string())));
    assert_eq!(parsed.get("c"), None);
    assert_eq!(doc("[1]").get("a"), None);
    assert_eq!(built.to_text().unwrap(), r#"{"b":1,"a":"x"}"#);
    assert_eq!(Json::empty_object().to_bytes().unwrap(), b"{}".to_vec());
}

#[test]
fn numbers_survive_being_written_and_read_again() {
    for number in [
        "-3.582e-258",
        "7.60596243550e-157",
        "5.9296866018956318e-159",
        "2.1644150265940196331533e-301",
        "-1.681423937232680e195",
        "-3.6790612661878495720e93",
        "0.1",
        "-0",
        "18446744073709551615",
        "18446744073709551616",
        "-9223372036854775808",
        "1e22",
    ] {
        let body = format!("{{\"tools\":[{{\"parameters\":{{\"x\":{}}}}}],\"y\":[{}]}}", number, number);
        let once = fix_request_body(body.as_bytes()).unwrap();
        let twice = fix_request_body(&once).unwrap();
        assert_eq!(once, twice);
        let once = fix_response_body(body.as_bytes()).unwrap();
        let twice = fix_response_body(&once).unwrap();
        assert_eq!(once, twice);
    }
    assert_eq!(
        fix_response_body(b"{\"usage\":[-3.582e-258, 1.50, 1E2]}").unwrap(),
        b"{\"usage\":[-3.582e-258,1.5,100.0]}".to_vec()
    );
}
