//! JSON-RPC 2.0 envelopes over the framed wire: the exact text of outgoing
//! requests and notifications, and the reading of response envelopes.

use vstd::prelude::*;
use vstd::string::*;
use crate::text::{dec_digits, int_digits, u64_to_string, i64_to_string, bytes_to_string};
use crate::json::{JsonValue, spec_lookup, obj_get, quoted, push_quoted};

verus! {

/// Everything that can go wrong in the protocol client.
#[derive(Debug)]
pub enum McpError {
    /// Opening the connection failed, or there is none.
    Connection(String),
    /// Reading or writing an established stream failed.
    Io(String),
    /// Text that should have been JSON was not.
    Json(String),
    /// Broken framing, a remote error envelope, or an envelope with neither
    /// result nor error.
    Protocol(String),
    /// The remote tool's reply could not be turned into the typed result.
    Extraction(String),
    Timeout,
}

/// The rendered form of an error, one line per variant.
pub open spec fn mcp_error_chars(e: McpError) -> Seq<char> {
    match e {
        McpError::Connection(m) => "Connection error: "@ + m@,
        McpError::Io(m) => "IO error: "@ + m@,
        McpError::Json(m) => "JSON error: "@ + m@,
        McpError::Protocol(m) => "Protocol error: "@ + m@,
        McpError::Extraction(m) => "Extraction error: "@ + m@,
        McpError::Timeout => "Timeout"@,
    }
}

impl McpError {
    /// The error as one line of text, `mcp_error_chars`.
    pub fn message(&self) -> (r: String)
        ensures
            r@ == mcp_error_chars(*self),
    {
        match self {
            McpError::Connection(m) => {
                let mut s = String::from_str("Connection error: ");
                s.append(m.as_str());
                s
            },
            McpError::Io(m) => {
                let mut s = String::from_str("IO error: ");
                s.append(m.as_str());
                s
            },
            McpError::Json(m) => {
                let mut s = String::from_str("JSON error: ");
                s.append(m.as_str());
                s
            },
            McpError::Protocol(m) => {
                let mut s = String::from_str("Protocol error: ");
                s.append(m.as_str());
                s
            },
            McpError::Extraction(m) => {
                let mut s = String::from_str("Extraction error: ");
                s.append(m.as_str());
                s
            },
            McpError::Timeout => String::from_str("Timeout"),
        }
    }
}

// ---------------------------------------------------------------------------
// Outgoing envelopes.
// ---------------------------------------------------------------------------

/// The exact text of a request envelope: protocol tag, the correlation id,
/// the method name, and the params document if there is one (none: the key
/// is left out entirely).
pub open spec fn request_chars(id: u64, method: Seq<char>, params: Option<Seq<char>>) -> Seq<
    char,
> {
    let head = "{\"jsonrpc\":\"2.0\",\"id\":"@ + dec_digits(id as nat) + ",\"method\":"@ + quoted(
        method,
    );
    match params {
        None => head + "}"@,
        Some(p) => head + ",\"params\":"@ + p + "}"@,
    }
}

/// The exact text of a notification envelope: no id, so no reply can ever be
/// correlated with it; a missing params document is written as null.
pub open spec fn notification_chars(method: Seq<char>, params: Option<Seq<char>>) -> Seq<char> {
    let head = "{\"jsonrpc\":\"2.0\",\"method\":"@ + quoted(method);
    match params {
        None => head + ",\"params\":null}"@,
        Some(p) => head + ",\"params\":"@ + p + "}"@,
    }
}

/// Writes a request envelope. `params` is the params document, already
/// serialized (`json_text` serializes a built value).
pub fn request_text(id: u64, method: &str, params: Option<&String>) -> (r: String)
    ensures
        r@ == request_chars(
            id,
            method@,
            match params {
                Some(p) => Some(p@),
                None => None,
            },
        ),
{
    let mut out = String::from_str("{\"jsonrpc\":\"2.0\",\"id\":");
    let id_digits = u64_to_string(id);
    out.append(id_digits.as_str());
    out.append(",\"method\":");
    push_quoted(&mut out, method);
    match params {
        None => {
            out.append("}");
        },
        Some(p) => {
            out.append(",\"params\":");
            out.append(p.as_str());
            out.append("}");
        },
    }
    out
}

/// Writes a notification envelope.
pub fn notification_text(method: &str, params: Option<&String>) -> (r: String)
    ensures
        r@ == notification_chars(
            method@,
            match params {
                Some(p) => Some(p@),
                None => None,
            },
        ),
{
    let mut out = String::from_str("{\"jsonrpc\":\"2.0\",\"method\":");
    push_quoted(&mut out, method);
    match params {
        None => {
            out.append(",\"params\":null}");
        },
        Some(p) => {
            out.append(",\"params\":");
            out.append(p.as_str());
            out.append("}");
        },
    }
    out
}

// ---------------------------------------------------------------------------
// Incoming envelopes.
// ---------------------------------------------------------------------------

/// A remote error, the envelope's `error` member.
pub struct RpcErrorInfo {
    pub code: i64,
    pub message: String,
}

/// A response envelope, reduced to the members that matter. The protocol tag
/// has been checked; any `data` under the error is dropped.
pub struct ResponseParts<'a> {
    /// The echoed request id, if the envelope carried a numeric one.
    pub id: Option<u64>,
    pub result: Option<&'a JsonValue>,
    pub error: Option<RpcErrorInfo>,
}

/// The id member: absent or null means none; a non-negative number that fits
/// is taken; anything else is a malformed envelope.
pub open spec fn id_field_wf(v: JsonValue) -> bool {
    match spec_lookup(v, "id"@) {
        None => true,
        Some(JsonValue::Null) => true,
        Some(JsonValue::UInt(_)) => true,
        Some(_) => false,
    }
}

pub open spec fn spec_id(v: JsonValue) -> Option<u64> {
    match spec_lookup(v, "id"@) {
        Some(JsonValue::UInt(n)) => Some(n),
        _ => None,
    }
}

/// The result member: absent or null means none; otherwise the value.
pub open spec fn spec_result(v: JsonValue) -> Option<JsonValue> {
    match spec_lookup(v, "result"@) {
        None => None,
        Some(JsonValue::Null) => None,
        Some(x) => Some(x),
    }
}

/// The error member: absent or null means none; an object needs an integer
/// `code` and a string `message`.
pub open spec fn error_field_wf(v: JsonValue) -> bool {
    match spec_lookup(v, "error"@) {
        None => true,
        Some(JsonValue::Null) => true,
        Some(JsonValue::Obj(fields)) => {
            &&& (match obj_get(fields@, "code"@) {
                Some(JsonValue::Int(_)) => true,
                Some(JsonValue::UInt(c)) => c <= i64::MAX,
                _ => false,
            })
            &&& (obj_get(fields@, "message"@) matches Some(JsonValue::Str(_)))
        },
        Some(_) => false,
    }
}

pub open spec fn spec_error(v: JsonValue) -> Option<RpcErrorInfo> {
    match spec_lookup(v, "error"@) {
        Some(JsonValue::Obj(fields)) => {
            let code = match obj_get(fields@, "code"@) {
                Some(JsonValue::Int(c)) => c,
                Some(JsonValue::UInt(c)) => c as i64,
                _ => 0,
            };
            match obj_get(fields@, "message"@) {
                Some(JsonValue::Str(m)) => Some(RpcErrorInfo { code, message: m }),
                _ => None,
            }
        },
        _ => None,
    }
}

/// A well-formed response envelope: an object with the protocol tag, whose
/// id and error members have the expected shapes.
pub open spec fn envelope_wf(v: JsonValue) -> bool {
    &&& v is Obj
    &&& spec_lookup(v, "jsonrpc"@) matches Some(JsonValue::Str(_))
    &&& id_field_wf(v)
    &&& error_field_wf(v)
}

/// Reads a parsed response document into its envelope members; a document
/// that is not a well-formed envelope is a JSON error, as a deserializer
/// would report it.
pub fn response_parts<'a>(v: &'a JsonValue) -> (r: Result<ResponseParts<'a>, McpError>)
    ensures
        match r {
            Ok(p) => {
                &&& envelope_wf(*v)
                &&& p.id == spec_id(*v)
                &&& (match p.result {
                    Some(x) => spec_result(*v) == Some(*x),
                    None => spec_result(*v) is None,
                })
                &&& p.error == spec_error(*v)
            },
            Err(e) => !envelope_wf(*v) && e is Json,
        },
{
    if !matches!(v, JsonValue::Obj(_)) {
        return Err(McpError::Json(String::from_str("response envelope: not an object")));
    }
    match v.lookup("jsonrpc") {
        Some(tag) => {
            if tag.as_str().is_none() {
                return Err(
                    McpError::Json(String::from_str("response envelope: jsonrpc tag not a string")),
                );
            }
        },
        None => {
            return Err(McpError::Json(String::from_str("response envelope: missing jsonrpc tag")));
        },
    }
    let id: Option<u64> = match v.lookup("id") {
        None => None,
        Some(idv) => {
            if idv.is_null() {
                None
            } else {
                match idv.as_u64() {
                    Some(n) => Some(n),
                    None => {
                        return Err(
                            McpError::Json(
                                String::from_str("response envelope: id not a non-negative number"),
                            ),
                        );
                    },
                }
            }
        },
    };
    let error: Option<RpcErrorInfo> = match v.lookup("error") {
        None => None,
        Some(ev) => {
            if ev.is_null() {
                None
            } else if matches!(ev, JsonValue::Obj(_)) {
                let code: i64 = match ev.lookup("code") {
                    Some(cv) => match cv.as_i64() {
                        Some(c) => c,
                        None => {
                            return Err(
                                McpError::Json(
                                    String::from_str(
                                        "response envelope: error code not an integer",
                                    ),
                                ),
                            );
                        },
                    },
                    None => {
                        return Err(
                            McpError::Json(
                                String::from_str("response envelope: error without code"),
                            ),
                        );
                    },
                };
                let message: String = match ev.lookup("message") {
                    Some(mv) => match mv.as_str() {
                        Some(m) => m.clone(),
                        None => {
                            return Err(
                                McpError::Json(
                                    String::from_str(
                                        "response envelope: error message not a string",
                                    ),
                                ),
                            );
                        },
                    },
                    None => {
                        return Err(
                            McpError::Json(
                                String::from_str("response envelope: error without message"),
                            ),
                        );
                    },
                };
                Some(RpcErrorInfo { code, message })
            } else {
                return Err(
                    McpError::Json(String::from_str("response envelope: error not an object")),
                );
            }
        },
    };
    let result: Option<&'a JsonValue> = match v.lookup("result") {
        None => None,
        Some(rv) => {
            if rv.is_null() {
                None
            } else {
                Some(rv)
            }
        },
    };
    Ok(ResponseParts { id, result, error })
}

/// How a failed framed read surfaces: broken framing is a Protocol error
/// with the matching message; a stream that closed inside the body is an IO
/// error, as an exact read reports it.
pub fn frame_error_to_mcp(e: crate::frame::FrameError) -> (r: McpError)
    ensures
        e == crate::frame::FrameError::ConnectionClosed ==> (r matches McpError::Protocol(m) && m@
            == "Connection closed"@),
        e == crate::frame::FrameError::MissingContentLength ==> (r matches McpError::Protocol(m)
            && m@ == "Missing Content-Length header"@),
        e == crate::frame::FrameError::InvalidContentLength ==> (r matches McpError::Protocol(m)
            && m@ == "Invalid Content-Length"@),
        e == crate::frame::FrameError::BodyClosed ==> (r matches McpError::Io(m) && m@
            == "connection closed before the full body arrived"@),
{
    match e {
        crate::frame::FrameError::ConnectionClosed => McpError::Protocol(
            String::from_str("Connection closed"),
        ),
        crate::frame::FrameError::MissingContentLength => McpError::Protocol(
            String::from_str("Missing Content-Length header"),
        ),
        crate::frame::FrameError::InvalidContentLength => McpError::Protocol(
            String::from_str("Invalid Content-Length"),
        ),
        crate::frame::FrameError::BodyClosed => McpError::Io(
            String::from_str("connection closed before the full body arrived"),
        ),
    }
}

/// Decodes a framed body's bytes as text; a body that is not UTF-8 is a
/// Protocol error.
pub fn body_text(body: Vec<u8>) -> (r: Result<String, McpError>)
    ensures
        match r {
            Ok(s) => vstd::utf8::valid_utf8(body@) && vstd::utf8::encode_utf8(s@) == body@,
            Err(e) => !vstd::utf8::valid_utf8(body@) && (e matches McpError::Protocol(m) && m@
                == "Invalid UTF-8 in response"@),
        },
{
    match bytes_to_string(body) {
        Some(s) => Ok(s),
        None => Err(McpError::Protocol(String::from_str("Invalid UTF-8 in response"))),
    }
}

/// The Protocol error text that carries a remote error envelope onward: the
/// remote code, then the remote message.
pub open spec fn rpc_error_chars(code: int, message: Seq<char>) -> Seq<char> {
    "RPC error "@ + int_digits(code) + ": "@ + message
}

/// Decides a response envelope: a remote error is a Protocol error carrying
/// its code and message; no error and no result is a Protocol error too; a
/// result is handed back as is.
pub fn complete_request<'a>(parts: ResponseParts<'a>) -> (r: Result<&'a JsonValue, McpError>)
    ensures
        match parts.error {
            Some(e) => (r matches Err(McpError::Protocol(m)) && m@ == rpc_error_chars(
                e.code as int,
                e.message@,
            )),
            None => match parts.result {
                Some(val) => r == Ok::<&'a JsonValue, McpError>(val),
                None => (r matches Err(McpError::Protocol(m)) && m@
                    == "Empty result in response"@),
            },
        },
{
    match parts.error {
        Some(e) => {
            let mut m = String::from_str("RPC error ");
            let code_digits = i64_to_string(e.code);
            m.append(code_digits.as_str());
            m.append(": ");
            m.append(e.message.as_str());
            proof {
                assert(m@ =~= rpc_error_chars(e.code as int, e.message@));
            }
            Err(McpError::Protocol(m))
        },
        None => match parts.result {
            Some(val) => Ok(val),
            None => Err(McpError::Protocol(String::from_str("Empty result in response"))),
        },
    }
}

} // verus!
