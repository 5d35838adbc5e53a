use discord_cv_bot::frame::{decode_message, encode_message, DecodeStep, FrameError};

fn decode_all(input: &[u8], eof: bool) -> DecodeStep {
    let v: Vec<u8> = input.to_vec();
    decode_message(&v, eof)
}

fn roundtrip(body: &str) {
    let encoded = encode_message(body);
    match decode_all(&encoded, false) {
        DecodeStep::Message { body: out, consumed } => {
            assert_eq!(out, body.as_bytes().to_vec());
            assert_eq!(consumed, encoded.len());
        }
        _ => panic!("expected a complete message"),
    }
}

#[test]
fn roundtrip_plain_body() {
    roundtrip("{\"jsonrpc\":\"2.0\",\"id\":1}");
}

#[test]
fn roundtrip_empty_body() {
    roundtrip("");
}

#[test]
fn roundtrip_body_containing_header_separator() {
    roundtrip("abc\r\n\r\nContent-Length: 99\r\n\r\nxyz");
}

#[test]
fn roundtrip_multibyte_body() {
    roundtrip("r\u{e9}sum\u{e9} \u{1f600} ok");
}

#[test]
fn declared_length_counts_bytes_not_characters() {
    let body = "caf\u{e9} \u{1f600}";
    assert_eq!(body.chars().count(), 6);
    assert_eq!(body.len(), 10);
    let encoded = encode_message(body);
    let expected_header = "Content-Length: 10\r\n\r\n";
    assert_eq!(&encoded[..expected_header.len()], expected_header.as_bytes());
    assert_eq!(&encoded[expected_header.len()..], body.as_bytes());
}

#[test]
fn roundtrip_leaves_later_bytes_alone() {
    let first = encode_message("one");
    let second = encode_message("two!");
    let mut stream = first.clone();
    stream.extend_from_slice(&second);
    match decode_all(&stream, false) {
        DecodeStep::Message { body, consumed } => {
            assert_eq!(body, b"one".to_vec());
            assert_eq!(consumed, first.len());
            let rest = stream[consumed..].to_vec();
            match decode_message(&rest, true) {
                DecodeStep::Message { body, consumed } => {
                    assert_eq!(body, b"two!".to_vec());
                    assert_eq!(consumed, rest.len());
                }
                _ => panic!("expected the second message"),
            }
        }
        _ => panic!("expected the first message"),
    }
}

#[test]
fn close_after_header_line_is_protocol_error() {
    let step = decode_all(b"Content-Length: 5\r\n", true);
    match step {
        DecodeStep::Fail(e) => assert_eq!(e, FrameError::ConnectionClosed),
        _ => panic!("expected a failure"),
    }
}

#[test]
fn open_stream_after_header_line_just_waits() {
    match decode_all(b"Content-Length: 5\r\n", false) {
        DecodeStep::Incomplete => {}
        _ => panic!("expected to wait for more input"),
    }
}

#[test]
fn missing_content_length_is_protocol_error() {
    match decode_all(b"X-Unrelated: yes\r\nAnother: 3\r\n\r\n", false) {
        DecodeStep::Fail(e) => assert_eq!(e, FrameError::MissingContentLength),
        _ => panic!("expected a failure"),
    }
}

#[test]
fn empty_header_block_is_missing_content_length() {
    match decode_all(b"\r\nBODYBYTES", true) {
        DecodeStep::Fail(e) => assert_eq!(e, FrameError::MissingContentLength),
        _ => panic!("expected a failure"),
    }
}

#[test]
fn header_name_is_case_sensitive() {
    match decode_all(b"content-length: 3\r\n\r\nabc", true) {
        DecodeStep::Fail(e) => assert_eq!(e, FrameError::MissingContentLength),
        _ => panic!("expected a failure"),
    }
}

#[test]
fn non_numeric_length_is_invalid() {
    match decode_all(b"Content-Length: five\r\n\r\n", false) {
        DecodeStep::Fail(e) => assert_eq!(e, FrameError::InvalidContentLength),
        _ => panic!("expected a failure"),
    }
}

#[test]
fn empty_length_value_is_invalid() {
    match decode_all(b"Content-Length:\r\n\r\n", false) {
        DecodeStep::Fail(e) => assert_eq!(e, FrameError::InvalidContentLength),
        _ => panic!("expected a failure"),
    }
}

#[test]
fn oversized_length_value_is_invalid() {
    match decode_all(b"Content-Length: 99999999999999999999999999\r\n\r\nabc", false) {
        DecodeStep::Fail(e) => assert_eq!(e, FrameError::InvalidContentLength),
        _ => panic!("expected a failure"),
    }
}

#[test]
fn last_content_length_line_wins() {
    match decode_all(b"Content-Length: 1\r\nContent-Length: 3\r\n\r\nabcdef", false) {
        DecodeStep::Message { body, consumed } => {
            assert_eq!(body, b"abc".to_vec());
            assert_eq!(consumed, b"Content-Length: 1\r\nContent-Length: 3\r\n\r\nabc".len());
        }
        _ => panic!("expected a message"),
    }
}

#[test]
fn unrelated_headers_are_ignored() {
    match decode_all(b"X-First: a\r\nContent-Length: 2\r\nX-Last: b\r\n\r\nhi", false) {
        DecodeStep::Message { body, .. } => assert_eq!(body, b"hi".to_vec()),
        _ => panic!("expected a message"),
    }
}

#[test]
fn zero_length_body_is_read_exactly() {
    match decode_all(b"Content-Length: 0\r\n\r\nNEXT", false) {
        DecodeStep::Message { body, consumed } => {
            assert_eq!(body, Vec::<u8>::new());
            assert_eq!(consumed, b"Content-Length: 0\r\n\r\n".len());
        }
        _ => panic!("expected an empty message"),
    }
}

#[test]
fn body_shortfall_waits_or_fails_by_stream_state() {
    let input = b"Content-Length: 10\r\n\r\nabcd";
    match decode_all(input, false) {
        DecodeStep::Incomplete => {}
        _ => panic!("expected to wait for the rest of the body"),
    }
    match decode_all(input, true) {
        DecodeStep::Fail(e) => assert_eq!(e, FrameError::BodyClosed),
        _ => panic!("expected a failure on the closed stream"),
    }
}

#[test]
fn bare_newline_line_endings_are_tolerated() {
    match decode_all(b"Content-Length: 2\n\nok", false) {
        DecodeStep::Message { body, .. } => assert_eq!(body, b"ok".to_vec()),
        _ => panic!("expected a message"),
    }
}

#[test]
fn length_value_tolerates_surrounding_whitespace() {
    match decode_all(b"Content-Length:   2  \r\n\r\nok", false) {
        DecodeStep::Message { body, .. } => assert_eq!(body, b"ok".to_vec()),
        _ => panic!("expected a message"),
    }
}

#[test]
fn indented_content_length_line_still_counts() {
    match decode_all(b"  Content-Length: 2\r\n\r\nok", false) {
        DecodeStep::Message { body, .. } => assert_eq!(body, b"ok".to_vec()),
        _ => panic!("expected a message"),
    }
}
