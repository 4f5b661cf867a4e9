//! User settings, read once per session.

use vstd::prelude::*;

verus! {

/// Errors of reading or writing the settings file.
pub enum SettingsError {
    IoError(String),
    SerdeError(String),
}

pub struct TranscriptionSettings {
    /// `"whisper-local"`, `"cloud"`, ...
    pub provider: Option<String>,
    /// Language hint; `"auto"` lets the model detect it.
    pub language: Option<String>,
    /// Model identifier of the batch engine.
    pub model_size: Option<String>,
    pub cloud_provider: Option<String>,
    /// `"voxtral"` selects the native-incremental engine.
    pub engine: Option<String>,
    /// Decoder delay of the native-incremental engine, in milliseconds.
    pub voxtral_delay_ms: Option<i32>,
}

pub struct CleanupSettings {
    pub enabled: bool,
    pub provider: Option<String>,
    pub model: Option<String>,
    pub custom_endpoint: Option<String>,
    pub api_key: Option<String>,
    pub remove_filler: bool,
    pub add_punctuation: bool,
    pub format_paragraphs: bool,
}

pub struct HotkeySettings {
    pub key: Option<String>,
    pub mode: Option<String>,
}

pub struct OutputSettings {
    pub insert_method: Option<String>,
    pub auto_capitalize: Option<bool>,
}

pub struct WidgetSettings {
    pub draggable: bool,
}

pub struct UserSettings {
    pub transcription: TranscriptionSettings,
    pub cleanup: CleanupSettings,
    pub hotkey: HotkeySettings,
    pub output: OutputSettings,
    pub widget: WidgetSettings,
}

} // verus!
