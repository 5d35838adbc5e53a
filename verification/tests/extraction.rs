use discord_cv_bot::extract::{extract_json_from_response, extract_text_from_result};
use discord_cv_bot::json::parse_json;

#[test]
fn direct_object_with_surrounding_whitespace() {
    let input = "  {\"a\": 1, \"b\": {\"c\": 2}}  ";
    assert_eq!(
        extract_json_from_response(input).unwrap(),
        "{\"a\": 1, \"b\": {\"c\": 2}}"
    );
}

#[test]
fn direct_object_stops_at_balanced_brace() {
    let input = "{\"a\": {\"b\": 2}} trailing prose {";
    assert_eq!(extract_json_from_response(input).unwrap(), "{\"a\": {\"b\": 2}}");
}

#[test]
fn fenced_block_is_preferred_over_loose_span() {
    let input = "Here is the result:\n```json\n{\"x\": true}\n```\nAnything else?";
    assert_eq!(extract_json_from_response(input).unwrap(), "{\"x\": true}");
}

#[test]
fn fenced_block_without_trailing_newline_uses_last_fence() {
    let input = "intro ```json\n{\"x\": 1}\n``` tail without newline after fence";
    assert_eq!(extract_json_from_response(input).unwrap(), "{\"x\": 1}");
}

#[test]
fn loose_span_falls_back_to_first_and_last_brace() {
    let input = "The object {\"y\": [1,2,3]} sits mid-sentence.";
    assert_eq!(extract_json_from_response(input).unwrap(), "{\"y\": [1,2,3]}");
}

#[test]
fn no_braces_anywhere_fails_with_the_original_text() {
    let input = "nothing structured to see here";
    match extract_json_from_response(input) {
        Err(e) => {
            assert_eq!(
                e.message(),
                "Extraction error: No JSON found in response: nothing structured to see here"
            );
        }
        Ok(_) => panic!("expected extraction to fail"),
    }
}

#[test]
fn closing_before_opening_brace_fails() {
    let input = "} backwards {";
    assert!(extract_json_from_response(input).is_err());
}

#[test]
fn tool_reply_prefers_first_text_block() {
    let doc = parse_json(
        "{\"content\":[{\"type\":\"image\"},{\"type\":\"text\",\"text\":\"first\"},{\"text\":\"second\"}]}",
    )
    .unwrap();
    assert_eq!(extract_text_from_result(&doc), "first");
}

#[test]
fn tool_reply_takes_content_string() {
    let doc = parse_json("{\"content\":\"plain answer\"}").unwrap();
    assert_eq!(extract_text_from_result(&doc), "plain answer");
}

#[test]
fn tool_reply_falls_back_to_text_member() {
    let doc = parse_json("{\"text\":\"top level\"}").unwrap();
    assert_eq!(extract_text_from_result(&doc), "top level");
}

#[test]
fn tool_reply_last_resort_pretty_prints_whole_result() {
    let doc = parse_json("{\"status\":\"done\",\"steps\":[1,2]}").unwrap();
    assert_eq!(
        extract_text_from_result(&doc),
        "{\n  \"status\": \"done\",\n  \"steps\": [\n    1,\n    2\n  ]\n}"
    );
}

#[test]
fn tool_reply_array_without_text_blocks_falls_through() {
    let doc = parse_json("{\"content\":[{\"type\":\"image\"}],\"text\":\"via text\"}").unwrap();
    assert_eq!(extract_text_from_result(&doc), "via text");
}

#[test]
fn empty_fenced_block_falls_through_to_loose_span() {
    let input = "x ```json``` and then {\"a\":1} after";
    assert_eq!(extract_json_from_response(input).unwrap(), "{\"a\":1}");
}

#[test]
fn fenced_content_is_trimmed() {
    let input = "pre ```json\n   {\"a\": 2}\n\n``` post";
    assert_eq!(extract_json_from_response(input).unwrap(), "{\"a\": 2}");
}

#[test]
fn fence_without_braces_still_extracts_its_content() {
    // No brace anywhere, but a fenced block: the fenced text is returned.
    let input = "pre ```json\ntrue\n``` post";
    assert_eq!(extract_json_from_response(input).unwrap(), "true");
}
