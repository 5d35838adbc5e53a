use discord_cv_bot::extract::extract_text_from_result;
use discord_cv_bot::frame::{decode_message, encode_message, DecodeStep};
use discord_cv_bot::json::{json_text, parse_json, JsonValue};
use discord_cv_bot::mcp_client::{
    cv_prompt, initialize_params, salary_prompt, skills_prompt, synthesis_from_reply,
    synthesis_prompt, McpClient, SessionState, skills_from_reply, salary_from_reply,
    cv_from_reply,
};
use discord_cv_bot::rpc::{body_text, complete_request, request_text, response_parts};

fn obj(fields: Vec<(&str, JsonValue)>) -> JsonValue {
    JsonValue::Obj(
        fields
            .into_iter()
            .map(|(k, v)| (k.to_string(), v))
            .collect(),
    )
}

fn s(text: &str) -> JsonValue {
    JsonValue::Str(text.to_string())
}

/// The whole exchange against a mock remote: connect and shake hands, send
/// the synthesis prompt as a tool call, and read the typed result back out
/// of a fenced reply.
#[test]
fn end_to_end_synthesis_against_mock_remote() {
    let mut client = McpClient::new("claudecode", 8080);

    // Handshake: the initialize request goes out first.
    let init_msg = client.begin_handshake();
    let init_body = match decode_message(&init_msg, false) {
        DecodeStep::Message { body, .. } => body_text(body).unwrap(),
        _ => panic!("expected a whole frame"),
    };
    let params = initialize_params();
    assert_eq!(init_body, request_text(1, "initialize", Some(&params)));

    // The mock remote acknowledges; the client owes the notification.
    let ack = "{\"jsonrpc\":\"2.0\",\"id\":1,\"result\":{\"capabilities\":{}}}";
    let ack_frame = encode_message(ack);
    let ack_body = match decode_message(&ack_frame, false) {
        DecodeStep::Message { body, .. } => body_text(body).unwrap(),
        _ => panic!("expected a whole frame"),
    };
    let ack_doc = parse_json(ack_body.as_str()).unwrap();
    let ack_parts = response_parts(&ack_doc).unwrap();
    assert_eq!(ack_parts.id, Some(1));
    assert!(complete_request(ack_parts).is_ok());
    client.handshake_reply(true);
    let _note = client.initialized_notification();
    assert_eq!(client.state, SessionState::Ready);

    // The domain call: a tools/call embedding the job description.
    let job = "We need a backend engineer who knows Go and SQL.";
    let prompt = synthesis_prompt(job);
    let (id, msg) = client.send_prompt_request("agent", prompt.as_str());
    assert_eq!(id, 2);
    let sent = match decode_message(&msg, false) {
        DecodeStep::Message { body, .. } => body_text(body).unwrap(),
        _ => panic!("expected a whole frame"),
    };
    assert!(sent.contains("tools/call"));

    // The mock remote replies with a fenced JSON block inside content[0].text.
    let fenced = "Here you go:\n```json\n{\"title\":\"Backend Engineer\",\"company\":\"Acme\",\"location\":\"Remote\",\"contract_type\":\"CDI\",\"key_requirements\":[\"Go\",\"SQL\"],\"responsibilities\":[],\"benefits\":[],\"salary_range\":null,\"summary\":\"A backend role.\"}\n```";
    let tool_result = obj(vec![(
        "content",
        JsonValue::Arr(vec![obj(vec![("type", s("text")), ("text", s(fenced))])]),
    )]);
    let envelope = obj(vec![
        ("jsonrpc", s("2.0")),
        ("id", JsonValue::UInt(2)),
        ("result", tool_result),
    ]);
    let reply_frame = encode_message(json_text(&envelope).as_str());

    // The client reads it back: frame, envelope, text, typed result.
    let reply_body = match decode_message(&reply_frame, false) {
        DecodeStep::Message { body, consumed } => {
            assert_eq!(consumed, reply_frame.len());
            body_text(body).unwrap()
        }
        _ => panic!("expected a whole frame"),
    };
    let doc = parse_json(reply_body.as_str()).unwrap();
    let parts = response_parts(&doc).unwrap();
    assert_eq!(parts.id, Some(2));
    let result = complete_request(parts).unwrap();
    let text = extract_text_from_result(result);
    assert_eq!(text, fenced);

    let synthesis = synthesis_from_reply(text.as_str()).unwrap();
    assert_eq!(synthesis.title, "Backend Engineer");
    assert_eq!(synthesis.company, "Acme");
    assert_eq!(synthesis.key_requirements, vec!["Go".to_string(), "SQL".to_string()]);
    assert!(synthesis.responsibilities.is_empty());
    assert_eq!(synthesis.salary_range, None);
    assert_eq!(synthesis.summary, "A backend role.");
}

#[test]
fn synthesis_reply_must_carry_every_required_member() {
    let reply = "{\"title\":\"T\",\"company\":\"C\"}";
    match synthesis_from_reply(reply) {
        Err(e) => {
            let m = e.message();
            assert!(m.starts_with("Extraction error: Failed to parse synthesis"));
            assert!(m.contains(reply));
        }
        Ok(_) => panic!("expected the incomplete document to fail"),
    }
}

#[test]
fn synthesis_reply_embeds_unparseable_json() {
    let reply = "{\"title\": unquoted}";
    match synthesis_from_reply(reply) {
        Err(e) => {
            let m = e.message();
            assert!(m.starts_with("Extraction error: Failed to parse synthesis: "));
            assert!(m.contains("JSON: {\"title\": unquoted}"));
        }
        Ok(_) => panic!("expected the broken document to fail"),
    }
}

#[test]
fn skills_reply_reads_the_whole_structure() {
    let reply = "{\"match_score\":82,\"matched_skills\":[{\"skill\":\"Go\",\"cv_level\":\"3 ans\",\"required\":\"2 ans\",\"match\":true}],\"missing_skills\":[{\"skill\":\"K8s\",\"importance\":\"nice-to-have\"}],\"highlights\":[\"h1\"],\"recommendations\":[\"r1\",\"r2\"]}";
    let skills = skills_from_reply(reply).unwrap();
    assert_eq!(skills.match_score, 82);
    assert_eq!(skills.matched_skills.len(), 1);
    assert_eq!(skills.matched_skills[0].skill, "Go");
    assert!(skills.matched_skills[0].is_match);
    assert_eq!(skills.missing_skills[0].importance, "nice-to-have");
    assert_eq!(skills.highlights, vec!["h1".to_string()]);
    assert_eq!(skills.recommendations.len(), 2);
}

#[test]
fn salary_reply_keeps_optional_bounds_optional() {
    let reply = "{\"offered_min\":null,\"offered_max\":65000,\"market_low\":48000,\"market_median\":58000,\"market_high\":72000,\"currency\":\"EUR\",\"analysis\":\"ok\",\"negotiation_tips\":[\"t\"]}";
    let salary = salary_from_reply(reply).unwrap();
    assert_eq!(salary.offered_min, None);
    assert_eq!(salary.offered_max, Some(65000));
    assert_eq!(salary.market_median, 58000);
    assert_eq!(salary.currency, "EUR");
}

#[test]
fn cv_reply_reads_the_latex_document() {
    let reply = "```json\n{\"latex_content\":\"\\\\documentclass{article}\",\"adaptations\":[\"a1\"],\"summary\":\"done\"}\n```";
    let cv = cv_from_reply(reply).unwrap();
    assert_eq!(cv.latex_content, "\\documentclass{article}");
    assert_eq!(cv.adaptations, vec!["a1".to_string()]);
    assert_eq!(cv.summary, "done");
}

#[test]
fn prompts_embed_the_caller_text_verbatim() {
    let p = synthesis_prompt("JOB TEXT");
    assert!(p.starts_with("Analyse cette offre d'emploi"));
    assert!(p.ends_with("Offre d'emploi:\nJOB TEXT"));

    let p = skills_prompt("JOB", "MY CV");
    assert!(p.starts_with("Compare ce CV"));
    assert!(p.contains("\n\nCV:\nMY CV\n\nOffre d'emploi:\nJOB"));

    let p = salary_prompt("JOB", None);
    assert!(p.ends_with("Offre:\nJOB\n\nLocalisation: France"));
    let p = salary_prompt("JOB", Some("Lyon"));
    assert!(p.ends_with("Localisation: Lyon"));
}

#[test]
fn cv_prompt_joins_requirements_and_highlights() {
    let reply = "{\"title\":\"Dev\",\"company\":\"Acme\",\"location\":\"Paris\",\"contract_type\":\"CDI\",\"key_requirements\":[\"Go\",\"SQL\"],\"responsibilities\":[],\"benefits\":[],\"summary\":\"s\"}";
    let synthesis = synthesis_from_reply(reply).unwrap();
    let skills_reply_text = "{\"match_score\":70,\"matched_skills\":[],\"missing_skills\":[],\"highlights\":[\"fast\",\"careful\"],\"recommendations\":[]}";
    let skills = skills_from_reply(skills_reply_text).unwrap();
    let p = cv_prompt("CV BODY", &synthesis, &skills);
    assert!(p.contains("CV original:\nCV BODY"));
    assert!(p.contains("Poste: Dev chez Acme"));
    assert!(p.contains("Comp\u{e9}tences requises: Go, SQL"));
    assert!(p.contains("Points forts: fast, careful"));
}

#[test]
fn salary_reply_defaults_a_missing_currency_to_eur() {
    let reply = "{\"offered_min\":null,\"offered_max\":null,\"market_low\":1,\"market_median\":2,\"market_high\":3,\"analysis\":\"a\",\"negotiation_tips\":[]}";
    let salary = salary_from_reply(reply).unwrap();
    assert_eq!(salary.currency, "EUR");
}
