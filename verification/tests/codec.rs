use dictation::codec::{config_from_json, config_to_json, history_from_json, history_to_json,
    parse_corrected};
use dictation::storage::{AppConfig, HistoryItem, LlmConfig, ModelVersion, ProxyConfig};

fn sample_config() -> AppConfig {
    AppConfig {
        trigger_mouse: false,
        trigger_hold: true,
        trigger_toggle: false,
        language: String::from("zh"),
        model_dir: String::from("/data/models/sense-voice"),
        model_version: ModelVersion::Unquantized,
        input_device: String::from("USB \"Mic\"\n#2"),
        llm_config: LlmConfig {
            enabled: true,
            base_url: String::from("https://example.invalid/v1"),
            api_key: String::from("SECRET-REDACTED"),
            model: String::from("gpt-4o-mini"),
            custom_prompt: String::from("Fix \\ this: {text}\twith tabs"),
        },
        proxy: ProxyConfig { enabled: true, url: String::from("http://127.0.0.1:7890") },
    }
}

#[test]
fn config_round_trip_preserves_every_field() {
    let cfg = sample_config();
    let text = config_to_json(&cfg);
    let back = config_from_json(text.as_str());
    assert_eq!(back, cfg);
}

#[test]
fn config_round_trip_of_default() {
    let cfg = AppConfig::default();
    let back = config_from_json(config_to_json(&cfg).as_str());
    assert_eq!(back, cfg);
}

#[test]
fn config_written_layout_is_exact() {
    let cfg = AppConfig::default();
    let text = config_to_json(&cfg);
    let expected = "{\n  \"trigger_mouse\": true,\n  \"trigger_hold\": true,\n  \"trigger_toggle\": true,\n  \"language\": \"\",\n  \"model_dir\": \"./models/sense-voice\",\n  \"model_version\": \"quantized\",\n  \"input_device\": \"\",\n  \"llm_config\": {\n    \"enabled\": false,\n    \"base_url\": \"https://api.openai.com/v1\",\n    \"api_key\": \"\",\n    \"model\": \"gpt-4o-mini\",\n    \"custom_prompt\": \"\"\n  },\n  \"proxy\": {\n    \"enabled\": false,\n    \"url\": \"\"\n  }\n}";
    assert_eq!(text, expected);
}

#[test]
fn unreadable_config_yields_default() {
    let back = config_from_json("not json at all");
    assert_eq!(back, AppConfig::default());
    let back = config_from_json("");
    assert_eq!(back, AppConfig::default());
}

#[test]
fn config_with_trailing_garbage_yields_default() {
    let cfg = AppConfig::default();
    let mut text = config_to_json(&cfg).to_string();
    text.push_str("extra");
    assert_eq!(config_from_json(text.as_str()), AppConfig::default());
}

#[test]
fn history_round_trip() {
    let items = vec![
        HistoryItem {
            id: String::from("00000000-0000-4000-8000-000000000002"),
            timestamp: String::from("2024-05-01 12:00:01"),
            text: String::from("newest \"quoted\" line\nsecond line"),
            duration_ms: 2450,
        },
        HistoryItem {
            id: String::from("00000000-0000-4000-8000-000000000001"),
            timestamp: String::from("2024-05-01 11:59:30"),
            text: String::from("older entry"),
            duration_ms: 900,
        },
    ];
    let text = history_to_json(&items);
    let back = history_from_json(text.as_str());
    assert_eq!(back, items);
}

#[test]
fn empty_history_round_trip() {
    let items: Vec<HistoryItem> = Vec::new();
    let text = history_to_json(&items);
    assert_eq!(text, "[]");
    assert_eq!(history_from_json(text.as_str()), items);
}

#[test]
fn unreadable_history_is_empty() {
    assert!(history_from_json("{\"not\": \"an array\"}").is_empty());
    assert!(history_from_json("").is_empty());
}

#[test]
fn parse_corrected_accepts_the_plain_object() {
    assert_eq!(parse_corrected("{\"corrected\": \"hi there\"}"), Some(String::from("hi there")));
    assert_eq!(parse_corrected("{ \"corrected\" : \"x\" }"), Some(String::from("x")));
    assert_eq!(parse_corrected("{\"corrected\":\"a\\nb\\\"c\\\"\"}"), Some(String::from("a\nb\"c\"")));
}

#[test]
fn control_characters_round_trip_as_unicode_escapes() {
    let mut cfg = AppConfig::default();
    cfg.language = String::from("a\u{1}b\u{1f}c");
    let text = config_to_json(&cfg);
    assert!(text.contains("a\\u0001b\\u001fc"));
    assert_eq!(config_from_json(text.as_str()), cfg);

    let items = vec![HistoryItem {
        id: String::from("x"),
        timestamp: String::from("t"),
        text: String::from("bell\u{7}"),
        duration_ms: 1,
    }];
    let text = history_to_json(&items);
    assert!(text.contains("bell\\u0007"));
    assert_eq!(history_from_json(text.as_str()), items);
}

#[test]
fn parse_corrected_accepts_unicode_escapes() {
    assert_eq!(
        parse_corrected("{\"corrected\": \"caf\\u00e9\"}"),
        Some(String::from("caf\u{e9}"))
    );
    assert_eq!(
        parse_corrected("{\"corrected\": \"caf\\u00E9\"}"),
        Some(String::from("caf\u{e9}"))
    );
    assert_eq!(parse_corrected("{\"corrected\": \"\\u0041\"}"), Some(String::from("A")));
    // A lone surrogate is not a scalar value.
    assert_eq!(parse_corrected("{\"corrected\": \"\\ud800\"}"), None);
}

#[test]
fn config_without_proxy_section_keeps_its_fields() {
    // The layout a configuration file had before the proxy section
    // existed: everything else must be kept, the proxy defaulted.
    let text = "{\n  \"trigger_mouse\": false,\n  \"trigger_hold\": true,\n  \"trigger_toggle\": true,\n  \"language\": \"zh\",\n  \"model_dir\": \"/m\",\n  \"model_version\": \"unquantized\",\n  \"input_device\": \"Mic\",\n  \"llm_config\": {\n    \"enabled\": true,\n    \"base_url\": \"https://example.invalid/v1\",\n    \"api_key\": \"SECRET-REDACTED\",\n    \"model\": \"gpt-4o-mini\",\n    \"custom_prompt\": \"\"\n  }\n}";
    let cfg = config_from_json(text);
    assert!(!cfg.trigger_mouse);
    assert_eq!(cfg.language, "zh");
    assert_eq!(cfg.model_dir, "/m");
    assert_eq!(cfg.model_version, ModelVersion::Unquantized);
    assert_eq!(cfg.input_device, "Mic");
    assert!(cfg.llm_config.enabled);
    assert_eq!(cfg.llm_config.base_url, "https://example.invalid/v1");
    assert_eq!(cfg.proxy, ProxyConfig::default());
}

#[test]
fn config_missing_optional_fields_keeps_the_rest() {
    // Only the required fields: version, device, correction and proxy
    // keep their out-of-the-box values.
    let text = "{\n  \"trigger_mouse\": true,\n  \"trigger_hold\": false,\n  \"trigger_toggle\": true,\n  \"language\": \"en\",\n  \"model_dir\": \"/models\"\n}";
    let cfg = config_from_json(text);
    assert!(!cfg.trigger_hold);
    assert_eq!(cfg.language, "en");
    assert_eq!(cfg.model_dir, "/models");
    assert_eq!(cfg.model_version, ModelVersion::Quantized);
    assert_eq!(cfg.input_device, "");
    assert_eq!(cfg.llm_config, LlmConfig::default());
    assert_eq!(cfg.proxy, ProxyConfig::default());
}

#[test]
fn parse_corrected_rejects_other_shapes() {
    assert_eq!(parse_corrected("plain words"), None);
    assert_eq!(parse_corrected("{\"other\": \"x\"}"), None);
    assert_eq!(parse_corrected("{\"corrected\": \"x\"} trailing"), None);
    assert_eq!(parse_corrected(""), None);
}
