//! Speech-capture-to-text core of a dictation application: sample-format
//! conversion, utterance detection, incremental transcription bookkeeping
//! and session control, with the surrounding settings, history and
//! dictionary logic.

pub mod chars;
pub mod text;
pub mod audio;
pub mod transcription;
pub mod session;
pub mod settings;
pub mod dictionary;
pub mod ids;
pub mod history;
pub mod api;
pub mod hotkey;
pub mod injection;
pub mod stats;
