use dictation::indicator::{indicator_color, indicator_position, IndicatorColor};
use dictation::pipeline::{make_history_item, INJECTION_QUIESCENCE_MS};
use dictation::preview_text;
use dictation::storage::{AppConfig, HistoryItem, LlmConfig, ModelVersion, StorageService};

#[test]
fn defaults_match_the_documented_values() {
    let cfg = AppConfig::default();
    assert!(cfg.trigger_mouse && cfg.trigger_hold && cfg.trigger_toggle);
    assert_eq!(cfg.language, "");
    assert_eq!(cfg.model_dir, "./models/sense-voice");
    assert_eq!(cfg.model_version, ModelVersion::Quantized);
    assert_eq!(cfg.input_device, "");
    let llm = LlmConfig::default();
    assert!(!llm.enabled);
    assert_eq!(llm.base_url, "https://api.openai.com/v1");
    assert_eq!(llm.api_key, "");
    assert_eq!(llm.model, "gpt-4o-mini");
    assert_eq!(llm.custom_prompt, "");
    assert!(!cfg.proxy.enabled);
}

#[test]
fn history_is_kept_newest_first() {
    let mut store = StorageService::new();
    assert!(store.history.is_empty());
    let older = HistoryItem {
        id: String::from("a"),
        timestamp: String::from("2024-05-01 10:00:00"),
        text: String::from("first"),
        duration_ms: 1,
    };
    let newer = HistoryItem {
        id: String::from("b"),
        timestamp: String::from("2024-05-01 10:00:05"),
        text: String::from("second"),
        duration_ms: 2,
    };
    store.add_history_item(older.clone());
    store.add_history_item(newer.clone());
    assert_eq!(store.history, vec![newer, older]);
    store.clear_history();
    assert!(store.history.is_empty());
}

#[test]
fn history_items_get_fresh_identifiers() {
    let a = make_history_item(String::from("text one"), 1200);
    let b = make_history_item(String::from("text two"), 800);
    assert_eq!(a.text, "text one");
    assert_eq!(a.duration_ms, 1200);
    assert_eq!(a.id.len(), 36);
    assert_eq!(b.id.len(), 36);
    // Fresh 128-bit identifiers: two draws do not collide.
    assert_ne!(a.id, b.id);
}

#[test]
fn preview_flattens_and_caps() {
    assert_eq!(preview_text("a\nb\tc\rd", 20), "a b c d");
    assert_eq!(preview_text("abcdefgh", 3), "abc");
    assert_eq!(preview_text("", 5), "");
}

#[test]
fn indicator_colors_and_placement() {
    assert_eq!(indicator_color(IndicatorColor::Recording), "#4f9d9a");
    assert_eq!(indicator_color(IndicatorColor::Processing), "#dc2626");
    assert_eq!(indicator_position(100, 50), (112, 38));
    assert_eq!(indicator_position(i64::MAX - 3, i64::MIN + 3), (i64::MAX, i64::MIN));
    assert_eq!(INJECTION_QUIESCENCE_MS, 80);
}
