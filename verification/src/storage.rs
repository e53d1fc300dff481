//! Configuration, history and their persistent shapes.
//!
//! The configuration file and the history file are JSON; their codecs are
//! in [`crate::codec`]. This module holds the data types and the in-memory
//! store that the rest of the pipeline works with.

use vstd::prelude::*;

verus! {

/// Which of the two speech-model variants is selected.
#[derive(Clone, Copy, PartialEq, Eq, Structural, Debug)]
pub enum ModelVersion {
    Quantized,
    Unquantized,
}

impl Default for ModelVersion {
    fn default() -> (r: Self)
        ensures
            r == ModelVersion::Quantized,
    {
        ModelVersion::Quantized
    }
}

/// Settings of the optional remote correction step.
#[derive(Clone, PartialEq, Debug)]
pub struct LlmConfig {
    pub enabled: bool,
    pub base_url: String,
    pub api_key: String,
    pub model: String,
    /// Empty means: use the built-in prompt.
    pub custom_prompt: String,
}

/// The out-of-the-box correction settings: disabled, pointing at a
/// well-known endpoint, no key, no custom prompt.
pub open spec fn is_default_llm_config(c: LlmConfig) -> bool {
    &&& !c.enabled
    &&& c.base_url@ == "https://api.openai.com/v1"@
    &&& c.api_key@ == ""@
    &&& c.model@ == "gpt-4o-mini"@
    &&& c.custom_prompt@ == ""@
}

impl Default for LlmConfig {
    fn default() -> (r: Self)
        ensures
            is_default_llm_config(r),
    {
        LlmConfig {
            enabled: false,
            base_url: String::from_str("https://api.openai.com/v1"),
            api_key: String::from_str(""),
            model: String::from_str("gpt-4o-mini"),
            custom_prompt: String::from_str(""),
        }
    }
}

/// HTTP egress proxy settings.
#[derive(Clone, PartialEq, Debug)]
pub struct ProxyConfig {
    pub enabled: bool,
    pub url: String,
}

/// The out-of-the-box proxy settings: disabled, no address.
pub open spec fn is_default_proxy_config(c: ProxyConfig) -> bool {
    !c.enabled && c.url@ == ""@
}

impl Default for ProxyConfig {
    fn default() -> (r: Self)
        ensures
            is_default_proxy_config(r),
    {
        ProxyConfig { enabled: false, url: String::from_str("") }
    }
}

/// The persistent application configuration.
#[derive(Clone, PartialEq, Debug)]
pub struct AppConfig {
    /// Enable the mouse-button hold trigger.
    pub trigger_mouse: bool,
    /// Enable the modifier-combo hold trigger.
    pub trigger_hold: bool,
    /// Enable the toggle-key trigger.
    pub trigger_toggle: bool,
    /// Language hint for the recognizer; empty means automatic.
    pub language: String,
    /// Base directory containing the model versions.
    pub model_dir: String,
    pub model_version: ModelVersion,
    /// Named capture device; empty means the system default.
    pub input_device: String,
    pub llm_config: LlmConfig,
    pub proxy: ProxyConfig,
}

/// The out-of-the-box configuration: all three triggers enabled,
/// automatic language, the bundled model directory, the quantized model,
/// the default capture device, correction and proxy both off.
pub open spec fn is_default_config(c: AppConfig) -> bool {
    &&& c.trigger_mouse
    &&& c.trigger_hold
    &&& c.trigger_toggle
    &&& c.language@ == ""@
    &&& c.model_dir@ == "./models/sense-voice"@
    &&& c.model_version == ModelVersion::Quantized
    &&& c.input_device@ == ""@
    &&& is_default_llm_config(c.llm_config)
    &&& is_default_proxy_config(c.proxy)
}

impl Default for AppConfig {
    fn default() -> (r: Self)
        ensures
            is_default_config(r),
    {
        AppConfig {
            trigger_mouse: true,
            trigger_hold: true,
            trigger_toggle: true,
            language: String::from_str(""),
            model_dir: String::from_str("./models/sense-voice"),
            model_version: ModelVersion::Quantized,
            input_device: String::from_str(""),
            llm_config: LlmConfig::default(),
            proxy: ProxyConfig::default(),
        }
    }
}

/// One finished utterance, as kept in the history file. Written once,
/// never mutated afterwards.
#[derive(Clone, PartialEq, Debug)]
pub struct HistoryItem {
    /// Fresh 128-bit identifier, in its hyphenated textual form.
    pub id: String,
    /// Wall-clock time of the utterance, as a display string.
    pub timestamp: String,
    /// The final (possibly corrected) text.
    pub text: String,
    /// Length of the audio capture in milliseconds.
    pub duration_ms: u64,
}

/// In-memory store of the configuration and the transcription history.
/// Reading and writing the backing files is the caller's concern; this
/// type holds the values and the rules on them (newest history first).
pub struct StorageService {
    pub config: AppConfig,
    pub history: Vec<HistoryItem>,
}

impl StorageService {
    /// A fresh store: default configuration, empty history.
    pub fn new() -> (r: Self)
        ensures
            is_default_config(r.config),
            r.history@ == Seq::<HistoryItem>::empty(),
    {
        StorageService { config: AppConfig::default(), history: Vec::new() }
    }

    /// Prepend an item: the history is kept newest first.
    pub fn add_history_item(&mut self, item: HistoryItem)
        ensures
            final(self).history@ == seq![item] + old(self).history@,
            final(self).config == old(self).config,
    {
        self.history.insert(0, item);
    }

    /// Drop all history items.
    pub fn clear_history(&mut self)
        ensures
            final(self).history@ == Seq::<HistoryItem>::empty(),
            final(self).config == old(self).config,
    {
        self.history.clear();
    }
}

} // verus!
