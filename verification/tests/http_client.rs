use discord_cv_bot::claude_client::{
    default_base_url, default_currency, extract_pdf_reply, generate_cv_payload,
    generate_pdf_payload, generate_pdf_reply, http_cv_reply, http_salary_reply,
    http_skills_reply, http_synthesis_reply, match_skills_payload, normalize_base_url,
    pdf_payload, prompt_payload, prompt_reply, salary_payload, synthesize_payload, ClaudeError,
    GeneratedCv,
};
use discord_cv_bot::json::parse_json;

#[test]
fn base_url_loses_trailing_slashes() {
    assert_eq!(normalize_base_url("http://claudecode:8080/"), "http://claudecode:8080");
    assert_eq!(normalize_base_url("http://claudecode:8080///"), "http://claudecode:8080");
    assert_eq!(normalize_base_url("http://claudecode:8080"), "http://claudecode:8080");
    assert_eq!(default_base_url(), "http://claudecode:8080");
}

#[test]
fn payloads_are_exact_json() {
    assert_eq!(prompt_payload("hi \"you\""), "{\"prompt\":\"hi \\\"you\\\"\"}");
    assert_eq!(synthesize_payload("desc"), "{\"job_description\":\"desc\"}");
    assert_eq!(
        match_skills_payload("job", "cv"),
        "{\"job_description\":\"job\",\"cv_content\":\"cv\"}"
    );
    assert_eq!(
        salary_payload("job", None),
        "{\"job_description\":\"job\",\"location\":\"France\"}"
    );
    assert_eq!(
        salary_payload("job", Some("Lyon")),
        "{\"job_description\":\"job\",\"location\":\"Lyon\"}"
    );
    assert_eq!(pdf_payload("QUJD"), "{\"pdf_base64\":\"QUJD\"}");
    let reqs = vec!["Go".to_string(), "SQL".to_string()];
    let highs = vec!["fast".to_string()];
    assert_eq!(
        generate_cv_payload("cv", "Dev", "Acme", &reqs, &highs),
        "{\"cv_content\":\"cv\",\"job_title\":\"Dev\",\"company\":\"Acme\",\"requirements\":[\"Go\",\"SQL\"],\"highlights\":[\"fast\"]}"
    );
    assert_eq!(
        generate_pdf_payload("cv", "Jo", "Dev", "Acme"),
        "{\"cv_content\":\"cv\",\"name\":\"Jo\",\"job_title\":\"Dev\",\"company\":\"Acme\"}"
    );
    // The payloads are real JSON.
    assert!(parse_json(&generate_cv_payload("cv", "Dev", "Acme", &reqs, &highs)).is_ok());
}

#[test]
fn prompt_reply_prefers_error_then_response_then_raw() {
    let doc = parse_json("{\"error\":\"boom\",\"response\":\"ignored\"}").unwrap();
    match prompt_reply(&doc) {
        Err(ClaudeError::Api(m)) => assert_eq!(m, "boom"),
        _ => panic!("expected the reported error"),
    }
    let doc = parse_json("{\"response\":\"the answer\"}").unwrap();
    assert_eq!(prompt_reply(&doc).unwrap(), "the answer");
    let doc = parse_json("{\"unexpected\":1}").unwrap();
    assert_eq!(prompt_reply(&doc).unwrap(), "{\n  \"unexpected\": 1\n}");
}

#[test]
fn synthesis_reply_applies_list_defaults() {
    let doc = parse_json(
        "{\"title\":\"Dev\",\"company\":\"Acme\",\"location\":\"Paris\",\"contract_type\":\"CDI\",\"key_requirements\":[\"Go\"],\"summary\":\"s\"}",
    )
    .unwrap();
    let j = http_synthesis_reply(&doc).unwrap();
    assert_eq!(j.title, "Dev");
    assert!(j.responsibilities.is_empty());
    assert!(j.benefits.is_empty());
    assert_eq!(j.salary_range, None);
}

#[test]
fn synthesis_reply_raw_fallback_is_a_failure() {
    let doc = parse_json("{\"raw_response\":\"free text\"}").unwrap();
    match http_synthesis_reply(&doc) {
        Err(ClaudeError::Api(m)) => assert_eq!(m, "Failed to parse job synthesis"),
        _ => panic!("expected the raw fallback to fail"),
    }
}

#[test]
fn skills_reply_defaults_everything_but_the_score() {
    let doc = parse_json("{\"match_score\":55}").unwrap();
    let j = http_skills_reply(&doc).unwrap();
    assert_eq!(j.match_score, 55);
    assert!(j.matched_skills.is_empty());
    assert!(j.missing_skills.is_empty());
    let doc = parse_json("{\"highlights\":[\"h\"]}").unwrap();
    assert!(http_skills_reply(&doc).is_err());
}

#[test]
fn skills_reply_fills_block_defaults() {
    let doc = parse_json(
        "{\"match_score\":70,\"matched_skills\":[{\"skill\":\"Go\"}],\"missing_skills\":[{\"skill\":\"K8s\"}]}",
    )
    .unwrap();
    let j = http_skills_reply(&doc).unwrap();
    assert_eq!(j.matched_skills[0].skill, "Go");
    assert_eq!(j.matched_skills[0].cv_level, "");
    assert!(!j.matched_skills[0].is_match);
    assert_eq!(j.missing_skills[0].importance, "");
}

#[test]
fn salary_reply_defaults_market_and_currency() {
    let doc = parse_json("{\"offered_min\":40000}").unwrap();
    let j = http_salary_reply(&doc).unwrap();
    assert_eq!(j.offered_min, Some(40000));
    assert_eq!(j.market_low, 0);
    assert_eq!(j.currency, "EUR");
    assert_eq!(j.analysis, "");
    assert_eq!(default_currency(), "EUR");
}

#[test]
fn cv_reply_uses_the_raw_fallback_shape() {
    let doc = parse_json("{\"raw_response\":\"plain cv text\"}").unwrap();
    let j = http_cv_reply(&doc).unwrap();
    assert_eq!(j.latex_content, "");
    assert_eq!(j.cv_text, "plain cv text");
    assert_eq!(j.adaptations, vec!["CV g\u{e9}n\u{e9}r\u{e9} (format brut)".to_string()]);
    assert_eq!(j.summary, "Le CV a \u{e9}t\u{e9} g\u{e9}n\u{e9}r\u{e9} mais le parsing a \u{e9}chou\u{e9}.");
}

#[test]
fn generated_cv_prefers_plain_text_content() {
    let with_text = GeneratedCv {
        latex_content: "LATEX".to_string(),
        cv_text: "PLAIN".to_string(),
        adaptations: vec![],
        summary: String::new(),
    };
    assert_eq!(with_text.get_content(), "PLAIN");
    let latex_only = GeneratedCv {
        latex_content: "LATEX".to_string(),
        cv_text: String::new(),
        adaptations: vec![],
        summary: String::new(),
    };
    assert_eq!(latex_only.get_content(), "LATEX");
}

#[test]
fn extract_pdf_reply_checks_error_then_success() {
    let doc = parse_json("{\"error\":\"broken\",\"success\":true,\"text\":\"x\"}").unwrap();
    match extract_pdf_reply(&doc) {
        Err(ClaudeError::Api(m)) => assert_eq!(m, "broken"),
        _ => panic!("expected the reported error"),
    }
    let doc = parse_json("{\"success\":false}").unwrap();
    match extract_pdf_reply(&doc) {
        Err(ClaudeError::Api(m)) => assert_eq!(m, "Unknown error"),
        _ => panic!("expected the unknown error"),
    }
    let doc = parse_json("{\"success\":true,\"text\":\"extracted\"}").unwrap();
    assert_eq!(extract_pdf_reply(&doc).unwrap(), "extracted");
    let doc = parse_json("{\"success\":true}").unwrap();
    assert_eq!(extract_pdf_reply(&doc).unwrap(), "");
}

#[test]
fn generate_pdf_reply_decodes_the_document() {
    let doc = parse_json("{\"success\":true,\"pdf_base64\":\"aGVsbG8=\"}").unwrap();
    assert_eq!(generate_pdf_reply(&doc).unwrap(), b"hello".to_vec());

    let doc = parse_json("{\"success\":true,\"pdf_base64\":\"@@not base64@@\"}").unwrap();
    match generate_pdf_reply(&doc) {
        Err(ClaudeError::Api(m)) => assert!(m.starts_with("Failed to decode PDF: ")),
        _ => panic!("expected the decode failure"),
    }

    let doc = parse_json("{\"success\":true}").unwrap();
    match generate_pdf_reply(&doc) {
        Err(ClaudeError::Api(m)) => assert_eq!(m, "Missing pdf_base64 in response"),
        _ => panic!("expected the missing member to fail"),
    }

    let doc = parse_json("{\"success\":false}").unwrap();
    match generate_pdf_reply(&doc) {
        Err(ClaudeError::Api(m)) => assert_eq!(m, "PDF generation failed"),
        _ => panic!("expected the failure report"),
    }
}

#[test]
fn error_messages_carry_their_prefixes() {
    assert_eq!(ClaudeError::Http("h".to_string()).message(), "HTTP error: h");
    assert_eq!(ClaudeError::Json("j".to_string()).message(), "JSON error: j");
    assert_eq!(ClaudeError::Api("a".to_string()).message(), "API error: a");
    assert_eq!(ClaudeError::Connection("c".to_string()).message(), "Connection error: c");
}
