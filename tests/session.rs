use mentascribe::audio::capture::{prepare_for_whisper, CaptureEngine, CaptureStatus, FlushOutcome};
use mentascribe::session::{
    begin_stop, combine_with_prefix, duration_ms, finalize_text, is_voxtral_engine, needs_tail,
    reset_recording_state, start_recording, streaming_prefix, tail_audio, AppState, ModelPresence,
    StreamingMode,
};
use mentascribe::settings::{
    CleanupSettings, HotkeySettings, OutputSettings, TranscriptionSettings, UserSettings,
    WidgetSettings,
};
use mentascribe::transcription::voxtral::{VoxtralStream, ALL_CONSUMED};
use mentascribe::transcription::whisper::{stop_streaming, VadMonitor};

fn settings(engine: Option<&str>, auto_capitalize: Option<bool>) -> UserSettings {
    UserSettings {
        transcription: TranscriptionSettings {
            provider: None,
            language: Some("en".to_string()),
            model_size: Some("base".to_string()),
            cloud_provider: None,
            engine: engine.map(|e| e.to_string()),
            voxtral_delay_ms: None,
        },
        cleanup: CleanupSettings {
            enabled: false,
            provider: None,
            model: None,
            custom_endpoint: None,
            api_key: None,
            remove_filler: false,
            add_punctuation: false,
            format_paragraphs: false,
        },
        hotkey: HotkeySettings { key: None, mode: None },
        output: OutputSettings { insert_method: None, auto_capitalize },
        widget: WidgetSettings { draggable: false },
    }
}

fn app(engine: Option<&str>) -> AppState {
    AppState {
        is_recording: false,
        settings: settings(engine, None),
        audio_level_emitter_running: false,
    }
}

fn models(all: bool) -> ModelPresence {
    ModelPresence {
        vad_model: all,
        speech_model: all,
        native_compiled: all,
        native_downloaded: all,
        native_loaded: all,
    }
}

#[test]
fn start_picks_streaming_mode() {
    let mut st = app(None);
    let mut cap = CaptureEngine::new();
    let mut mon = VadMonitor::new();
    let mut vs = VoxtralStream::new();
    let r = start_recording(&mut st, &mut cap, &mut mon, &mut vs, &models(true));
    assert!(r.ok().unwrap() == StreamingMode::Utterances);
    assert!(st.is_recording && st.audio_level_emitter_running);
    let again = start_recording(&mut st, &mut cap, &mut mon, &mut vs, &models(true));
    assert_eq!(again.err().unwrap(), "Already recording");
    assert!(cap.status == CaptureStatus::Running);

    let mut st = app(None);
    let mut cap = CaptureEngine::new();
    let r = start_recording(&mut st, &mut cap, &mut mon, &mut vs, &models(false));
    assert!(r.ok().unwrap() == StreamingMode::Off);

    let mut st = app(Some("voxtral"));
    let mut cap = CaptureEngine::new();
    let r = start_recording(&mut st, &mut cap, &mut mon, &mut vs, &models(true));
    assert!(r.ok().unwrap() == StreamingMode::Native);
}

#[test]
fn native_start_failure_rolls_back_capture() {
    let mut st = app(Some("voxtral"));
    let mut cap = CaptureEngine::new();
    let mut mon = VadMonitor::new();
    let mut vs = VoxtralStream::new();
    let mut m = models(true);
    m.native_loaded = false;
    assert!(start_recording(&mut st, &mut cap, &mut mon, &mut vs, &m).is_err());
    assert!(!st.is_recording);
    assert!(cap.status == CaptureStatus::Idle);
    assert!(cap.start_capture().is_ok());
}

#[test]
fn engine_selection_needs_build_and_setting() {
    assert!(is_voxtral_engine(&settings(Some("voxtral"), None), true));
    assert!(!is_voxtral_engine(&settings(Some("voxtral"), None), false));
    assert!(!is_voxtral_engine(&settings(Some("whisper"), None), true));
    assert!(!is_voxtral_engine(&settings(None, None), true));
}

#[test]
fn stop_and_reset_when_idle() {
    let mut st = app(None);
    assert_eq!(begin_stop(&mut st).err().unwrap(), "Not recording");
    assert_eq!(begin_stop(&mut st).err().unwrap(), "Not recording");
    assert!(!st.is_recording);
    let mut cap = CaptureEngine::new();
    reset_recording_state(&mut st, &mut cap);
    reset_recording_state(&mut st, &mut cap);
    assert!(!st.is_recording && cap.status == CaptureStatus::Idle);
}

#[test]
fn start_then_immediate_stop() {
    let mut st = app(None);
    let mut cap = CaptureEngine::new();
    let mut mon = VadMonitor::new();
    let mut vs = VoxtralStream::new();
    start_recording(&mut st, &mut cap, &mut mon, &mut vs, &models(true)).ok().unwrap();
    cap.configure(48000, 2, true);
    assert!(begin_stop(&mut st).is_ok());
    let (results, consumed) = stop_streaming(&mut mon);
    assert!(results.is_empty());
    assert_eq!(consumed, 0);
    let prefix = streaming_prefix(&results, false);
    assert!(prefix.is_none());
    cap.stop_capture().ok().unwrap();
    assert!(cap.flush_remainder().is_none());
    let audio = cap.finish_stop(FlushOutcome::Nothing);
    assert!(audio.samples.is_empty());
    assert!(needs_tail(false, consumed));
    let tail = tail_audio(prepare_for_whisper(audio, None), consumed);
    assert!(tail.is_empty());
    let text = combine_with_prefix(prefix, String::new());
    assert_eq!(text, "");
    assert_eq!(finalize_text(&text, &st.settings), "");
}

#[test]
fn native_engine_skips_tail() {
    assert!(!needs_tail(true, ALL_CONSUMED));
    assert!(needs_tail(true, 0));
    assert!(needs_tail(false, ALL_CONSUMED));
}

#[test]
fn final_text_capitalisation_follows_setting() {
    assert_eq!(finalize_text("hello world", &settings(None, None)), "Hello world");
    assert_eq!(finalize_text("hello world", &settings(None, Some(false))), "hello world");
}

#[test]
fn duration_from_sample_count() {
    assert_eq!(duration_ms(96000, 48000), 2000);
    assert_eq!(duration_ms(0, 0), 0);
    assert_eq!(duration_ms(5, 0), u32::MAX);
    assert_eq!(duration_ms(usize::MAX, 1), u32::MAX);
}
