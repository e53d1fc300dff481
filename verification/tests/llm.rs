use dictation::llm::{
    build_user_prompt, chat_completions_url, chat_request_body, connection_test_report,
    correction_from_response, corrected_of_content, extract_json, get_default_llm_prompt,
    parse_chat_content, should_skip_correction, use_proxy,
};
use dictation::storage::{LlmConfig, ProxyConfig};

#[test]
fn extractor_is_identity_on_a_plain_reply_object() {
    let reply = "{\"corrected\": \"hi\"}";
    assert_eq!(extract_json(reply), reply);
    // Leading and trailing whitespace is trimmed first.
    assert_eq!(extract_json("  {\"corrected\": \"hi\"}\n"), reply);
}

#[test]
fn extractor_strips_code_fences() {
    let reply = "```json\n{\"corrected\": \"hi\"}\n```";
    assert_eq!(extract_json(reply), "{\"corrected\": \"hi\"}");
}

#[test]
fn extractor_peels_surrounding_prose() {
    let reply = "Sure! Here you go: {\"corrected\": \"hi\"} Anything else?";
    assert_eq!(extract_json(reply), "{\"corrected\": \"hi\"}");
}

#[test]
fn extractor_falls_back_to_trimmed_text() {
    assert_eq!(extract_json("  no braces here  "), "no braces here");
}

#[test]
fn corrected_of_content_reads_fenced_replies() {
    let content = "```json\n{\"corrected\": \"fixed text\"}\n```";
    assert_eq!(corrected_of_content(content), Some(String::from("fixed text")));
    assert_eq!(corrected_of_content("no object"), None);
}

#[test]
fn chat_content_is_read_from_a_real_reply_body() {
    // The corrector's reply as the wire carries it; extra keys and all.
    let body = "{\"id\":\"chatcmpl-1\",\"object\":\"chat.completion\",\"choices\":[{\"index\":0,\
                \"message\":{\"role\":\"assistant\",\"content\":\"{\\\"corrected\\\": \\\"done\\\"}\"},\
                \"finish_reason\":\"stop\"}],\"usage\":{\"total_tokens\":5}}";
    assert_eq!(parse_chat_content(body), Some(String::from("{\"corrected\": \"done\"}")));
    assert_eq!(correction_from_response(body), Some(String::from("done")));
}

#[test]
fn chat_content_absent_on_malformed_bodies() {
    assert_eq!(parse_chat_content("not json"), None);
    assert_eq!(parse_chat_content("{\"choices\":[]}"), None);
    assert_eq!(parse_chat_content("{\"choices\":[{\"message\":{}}]}"), None);
    assert_eq!(correction_from_response("{}"), None);
}

#[test]
fn prompt_substitution_replaces_every_placeholder() {
    let mut cfg = LlmConfig::default();
    cfg.custom_prompt = String::from("Fix: {text}! Again: {text}.");
    assert_eq!(build_user_prompt(&cfg, "hello"), "Fix: hello! Again: hello.");
}

#[test]
fn default_prompt_is_used_when_no_custom_one_is_set() {
    let cfg = LlmConfig::default();
    let prompt = build_user_prompt(&cfg, "dictated words");
    assert!(prompt.contains("dictated words"));
    assert!(!prompt.contains("{text}"));
    assert!(get_default_llm_prompt().contains("{text}"));
}

#[test]
fn endpoint_url_tolerates_trailing_slashes() {
    assert_eq!(
        chat_completions_url("https://api.openai.com/v1/"),
        "https://api.openai.com/v1/chat/completions"
    );
    assert_eq!(
        chat_completions_url("https://api.openai.com/v1"),
        "https://api.openai.com/v1/chat/completions"
    );
}

#[test]
fn request_body_layout_is_exact() {
    let body = chat_request_body("gpt-4o-mini", "Say \"hi\"", 3);
    assert_eq!(
        body,
        "{\"model\": \"gpt-4o-mini\", \"messages\": [{\"role\": \"user\", \
         \"content\": \"Say \\\"hi\\\"\"}], \"temperature\": 0.3}"
    );
    // The body is itself well-formed JSON.
    assert!(serde_json::from_str::<serde_json::Value>(body.as_str()).is_ok());
}

#[test]
fn correction_is_skipped_without_key_or_when_disabled() {
    let mut cfg = LlmConfig::default();
    assert!(should_skip_correction(&cfg));
    cfg.enabled = true;
    assert!(should_skip_correction(&cfg));
    cfg.api_key = String::from("SECRET-REDACTED");
    assert!(!should_skip_correction(&cfg));
}

#[test]
fn proxy_used_only_when_enabled_with_an_address() {
    let mut p = ProxyConfig::default();
    assert!(!use_proxy(&p));
    p.enabled = true;
    assert!(!use_proxy(&p));
    p.url = String::from("http://127.0.0.1:7890");
    assert!(use_proxy(&p));
}

#[test]
fn connection_report_caps_the_echo_at_one_hundred_characters() {
    let short = connection_test_report("OK");
    assert_eq!(short, "Connection successful! Model response: OK");
    let long: String = std::iter::repeat('x').take(150).collect();
    let report = connection_test_report(long.as_str());
    assert_eq!(report.len(), "Connection successful! Model response: ".len() + 100);
}
