use discord_cv_bot::frame::{decode_message, DecodeStep};
use discord_cv_bot::json::parse_json;
use discord_cv_bot::mcp_client::{
    default_host, escape_prompt, initialize_params, port_or_default, McpClient, SessionState,
};
use discord_cv_bot::rpc::{body_text, request_text};

fn framed_body(msg: &Vec<u8>) -> String {
    match decode_message(msg, true) {
        DecodeStep::Message { body, consumed } => {
            assert_eq!(consumed, msg.len());
            body_text(body).unwrap()
        }
        _ => panic!("the client must emit a whole frame"),
    }
}

fn ready_client() -> McpClient {
    let mut client = McpClient::new("claudecode", 8080);
    let _init = client.begin_handshake();
    client.handshake_reply(true);
    let _note = client.initialized_notification();
    client
}

#[test]
fn handshake_sends_initialize_then_notification_in_order() {
    let mut client = McpClient::new("claudecode", 8080);
    assert!(client.needs_connect());
    assert_eq!(client.state, SessionState::Disconnected);

    let init = client.begin_handshake();
    assert_eq!(client.state, SessionState::InitializeSent);
    let params = initialize_params();
    assert_eq!(
        framed_body(&init),
        request_text(1, "initialize", Some(&params))
    );

    client.handshake_reply(true);
    assert_eq!(client.state, SessionState::NotifyDue);

    let note = client.initialized_notification();
    assert_eq!(
        framed_body(&note),
        "{\"jsonrpc\":\"2.0\",\"method\":\"notifications/initialized\",\"params\":null}"
    );
    assert_eq!(client.state, SessionState::Ready);
    assert!(!client.needs_connect());
}

#[test]
fn failed_handshake_leaves_the_session_unusable() {
    let mut client = McpClient::new("claudecode", 8080);
    let _init = client.begin_handshake();
    client.handshake_reply(false);
    assert_eq!(client.state, SessionState::Disconnected);
    assert!(client.needs_connect());
}

#[test]
fn request_ids_start_at_one_and_strictly_increase() {
    let mut client = McpClient::new("claudecode", 8080);
    let init = client.begin_handshake();
    let params = initialize_params();
    assert_eq!(framed_body(&init), request_text(1, "initialize", Some(&params)));
    client.handshake_reply(true);
    let _ = client.initialized_notification();

    let (id2, _) = client.list_tools_request();
    let (id3, _) = client.send_prompt_request("agent", "hello");
    let (id4, _) = client.next_request("tools/list", None);
    assert_eq!(id2, 2);
    assert_eq!(id3, 3);
    assert_eq!(id4, 4);
    assert!(id2 < id3 && id3 < id4);
}

#[test]
fn ids_are_not_reused_across_reconnects() {
    let mut client = ready_client();
    let (id2, _) = client.list_tools_request();
    assert_eq!(id2, 2);

    client.connection_lost();
    assert_eq!(client.state, SessionState::Disconnected);
    let _init = client.begin_handshake();
    client.handshake_reply(true);
    let _ = client.initialized_notification();

    let (id4, _) = client.list_tools_request();
    assert_eq!(id4, 4);
    assert!(id4 > id2);
}

#[test]
fn domain_request_carries_the_exact_envelope() {
    let mut client = ready_client();
    let params = String::from("{\"name\":\"Bash\",\"arguments\":{\"command\":\"ls\"}}");
    let (id, msg) = client.next_request("tools/call", Some(&params));
    assert_eq!(id, 2);
    assert_eq!(framed_body(&msg), request_text(2, "tools/call", Some(&params)));
}

#[test]
fn prompt_request_escapes_and_embeds_the_prompt() {
    let prompt = "say \"hi\" for $5 `now`\\";
    let mut shell = String::new();
    for c in prompt.chars() {
        if c == '\\' || c == '"' || c == '$' || c == '`' {
            shell.push('\\');
        }
        shell.push(c);
    }
    assert_eq!(escape_prompt(prompt), shell);
    let cli = "agent";
    let command = format!(
        "{} -p \"{}\" --output-format json 2>/dev/null || {} -p \"{}\"",
        cli, shell, cli, shell
    );

    let mut client = ready_client();
    let (id, msg) = client.send_prompt_request(cli, prompt);
    assert_eq!(id, 2);
    let text = framed_body(&msg);
    // The envelope is real JSON; read it back with the real parser.
    let doc = parse_json(&text).unwrap();
    assert_eq!(
        doc.lookup("method").unwrap().as_str().map(|s| s.as_str()),
        Some("tools/call")
    );
    assert_eq!(doc.lookup("id").unwrap().as_u64(), Some(2));
    let params = doc.lookup("params").unwrap();
    assert_eq!(
        params.lookup("name").unwrap().as_str().map(|s| s.as_str()),
        Some("Bash")
    );
    let arguments = params.lookup("arguments").unwrap();
    assert_eq!(
        arguments.lookup("command").unwrap().as_str().map(|s| s.as_str()),
        Some(command.as_str())
    );
}

#[test]
fn port_or_default_reads_plain_decimal() {
    assert_eq!(default_host(), "claudecode");
    assert_eq!(port_or_default(None), 8080);
    let good = String::from("9001");
    assert_eq!(port_or_default(Some(&good)), 9001);
    let bad = String::from("90o1");
    assert_eq!(port_or_default(Some(&bad)), 8080);
    let huge = String::from("70000");
    assert_eq!(port_or_default(Some(&huge)), 8080);
    let empty = String::from("");
    assert_eq!(port_or_default(Some(&empty)), 8080);
}

#[test]
fn port_text_with_sign_or_spaces_is_not_a_plain_number() {
    let signed = String::from("+80");
    assert_eq!(port_or_default(Some(&signed)), 8080);
    let spaced = String::from(" 80");
    assert_eq!(port_or_default(Some(&spaced)), 8080);
}
