use discord_cv_bot::json::{parse_json, json_text, json_text_pretty, JsonValue};
use discord_cv_bot::rpc::{
    body_text, complete_request, frame_error_to_mcp, notification_text, request_text,
    response_parts, McpError,
};
use discord_cv_bot::frame::FrameError;

#[test]
fn request_text_is_exact() {
    let params = String::from("{\"a\":1}");
    let text = request_text(7, "tools/call", Some(&params));
    assert_eq!(
        text,
        "{\"jsonrpc\":\"2.0\",\"id\":7,\"method\":\"tools/call\",\"params\":{\"a\":1}}"
    );
}

#[test]
fn request_without_params_omits_the_key() {
    let text = request_text(3, "tools/list", None);
    assert_eq!(text, "{\"jsonrpc\":\"2.0\",\"id\":3,\"method\":\"tools/list\"}");
}

#[test]
fn request_method_is_json_escaped() {
    let text = request_text(1, "we\"ird\\name", None);
    assert_eq!(
        text,
        "{\"jsonrpc\":\"2.0\",\"id\":1,\"method\":\"we\\\"ird\\\\name\"}"
    );
}

#[test]
fn notification_without_params_writes_null() {
    let text = notification_text("notifications/initialized", None);
    assert_eq!(
        text,
        "{\"jsonrpc\":\"2.0\",\"method\":\"notifications/initialized\",\"params\":null}"
    );
}

#[test]
fn remote_error_envelope_becomes_protocol_error_with_code_and_text() {
    let doc = parse_json(
        "{\"jsonrpc\":\"2.0\",\"id\":1,\"error\":{\"code\":-32601,\"message\":\"Method not found\"}}",
    )
    .unwrap();
    let parts = response_parts(&doc).unwrap();
    assert_eq!(parts.id, Some(1));
    match complete_request(parts) {
        Err(e) => {
            let m = e.message();
            assert_eq!(m, "Protocol error: RPC error -32601: Method not found");
            assert!(m.contains("-32601"));
            assert!(m.contains("Method not found"));
        }
        Ok(_) => panic!("expected the remote error to propagate"),
    }
}

#[test]
fn envelope_with_neither_result_nor_error_is_protocol_error() {
    let doc = parse_json("{\"jsonrpc\":\"2.0\",\"id\":4}").unwrap();
    let parts = response_parts(&doc).unwrap();
    match complete_request(parts) {
        Err(e) => assert_eq!(e.message(), "Protocol error: Empty result in response"),
        Ok(_) => panic!("expected an error"),
    }
}

#[test]
fn envelope_with_result_hands_it_back() {
    let doc = parse_json("{\"jsonrpc\":\"2.0\",\"id\":2,\"result\":{\"tools\":[]}}").unwrap();
    let parts = response_parts(&doc).unwrap();
    let value = complete_request(parts).unwrap();
    assert_eq!(json_text(value), "{\"tools\":[]}");
}

#[test]
fn envelope_without_protocol_tag_is_rejected() {
    let doc = parse_json("{\"id\":1,\"result\":5}").unwrap();
    match response_parts(&doc) {
        Err(McpError::Json(_)) => {}
        _ => panic!("expected a JSON error"),
    }
}

#[test]
fn envelope_error_member_must_carry_code_and_message() {
    let doc = parse_json("{\"jsonrpc\":\"2.0\",\"error\":{\"code\":-1}}").unwrap();
    assert!(response_parts(&doc).is_err());
    let doc = parse_json("{\"jsonrpc\":\"2.0\",\"error\":{\"message\":\"m\"}}").unwrap();
    assert!(response_parts(&doc).is_err());
    let doc = parse_json("{\"jsonrpc\":\"2.0\",\"error\":\"boom\"}").unwrap();
    assert!(response_parts(&doc).is_err());
}

#[test]
fn negative_or_fractional_id_is_rejected() {
    let doc = parse_json("{\"jsonrpc\":\"2.0\",\"id\":-4,\"result\":1}").unwrap();
    assert!(response_parts(&doc).is_err());
}

#[test]
fn parse_json_accepts_exactly_json() {
    assert!(parse_json("{\"a\":1}").is_ok());
    assert!(parse_json(" [1, 2, 3] ").is_ok());
    assert!(parse_json("{not json").is_err());
    assert!(parse_json("").is_err());
}

#[test]
fn parse_json_reads_structure_not_text() {
    let doc = parse_json("{\"a\": 1, \"b\": [true, null, \"x\"]}").unwrap();
    let a = doc.lookup("a").unwrap();
    assert_eq!(a.as_u64(), Some(1));
    let b = doc.lookup("b").unwrap();
    let items = b.as_array().unwrap();
    assert_eq!(items.len(), 3);
    assert!(items[1].is_null());
    assert_eq!(items[2].as_str().map(|s| s.as_str()), Some("x"));
}

#[test]
fn serializer_and_parser_agree() {
    let text = "{\"k\":[1,-2,true,null,\"line\\nbreak\"],\"z\":\"ok\"}";
    let doc = parse_json(text).unwrap();
    let rendered = json_text(&doc);
    let doc2 = parse_json(rendered.as_str()).unwrap();
    assert_eq!(json_text(&doc2), rendered);
    assert_eq!(rendered, text);
}

#[test]
fn serializer_escapes_controls_and_quotes() {
    let v = JsonValue::Str(String::from("a\"b\\c\nd\te\u{1}f"));
    assert_eq!(json_text(&v), "\"a\\\"b\\\\c\\nd\\te\\u0001f\"");
}

#[test]
fn body_text_requires_utf8() {
    assert_eq!(body_text(b"ok".to_vec()).unwrap(), "ok");
    match body_text(vec![0xff, 0xfe]) {
        Err(e) => assert_eq!(e.message(), "Protocol error: Invalid UTF-8 in response"),
        Ok(_) => panic!("expected invalid UTF-8 to fail"),
    }
}

#[test]
fn frame_errors_surface_with_their_messages() {
    assert_eq!(
        frame_error_to_mcp(FrameError::ConnectionClosed).message(),
        "Protocol error: Connection closed"
    );
    assert_eq!(
        frame_error_to_mcp(FrameError::MissingContentLength).message(),
        "Protocol error: Missing Content-Length header"
    );
    assert_eq!(
        frame_error_to_mcp(FrameError::InvalidContentLength).message(),
        "Protocol error: Invalid Content-Length"
    );
    assert_eq!(
        frame_error_to_mcp(FrameError::BodyClosed).message(),
        "IO error: connection closed before the full body arrived"
    );
}

#[test]
fn pretty_serializer_indents_by_two_spaces() {
    let doc = parse_json("{\"a\":[true,null],\"b\":{\"c\":\"x\"},\"d\":[],\"e\":{}}").unwrap();
    assert_eq!(
        json_text_pretty(&doc),
        "{\n  \"a\": [\n    true,\n    null\n  ],\n  \"b\": {\n    \"c\": \"x\"\n  },\n  \"d\": [],\n  \"e\": {}\n}"
    );
    // The pretty text parses back to the same document.
    let again = parse_json(&json_text_pretty(&doc)).unwrap();
    assert_eq!(json_text(&again), json_text(&doc));
}
