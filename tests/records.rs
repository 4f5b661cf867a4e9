use mentascribe::dictionary::{
    add_entry, apply_replacements, get_dictionary, get_enabled_entries, get_vocabulary_prompt, mark_synced,
    remove_entry, update_entry, DictionaryEntry, DictionaryError,
};
use mentascribe::history;
use mentascribe::stats::{get_stats, record_on_day, LocalStats};
use mentascribe::injection::{check_accessibility, is_wayland};
use mentascribe::transcription::voxtral;
use mentascribe::transcription::whisper::{
    coreml_encoder_name, coreml_size_bytes, coreml_size_mb, get_available_models,
    get_coreml_status, get_metal_status, get_model_download_url, get_model_filename,
    ggml_size_bytes, is_coreml_downloaded, is_distil_model, is_lightweight_decoder,
    is_turbo_model, preload_model, WhisperError,
};
use mentascribe::transcription::ModelSlot;

fn entry(id: &str, phrase: &str, replacement: &str, enabled: bool) -> DictionaryEntry {
    DictionaryEntry {
        id: id.to_string(),
        phrase: phrase.to_string(),
        replacement: replacement.to_string(),
        enabled,
        synced: true,
    }
}

#[test]
fn dictionary_edits() {
    let mut es = vec![entry("a", "Foo", "Foo", true), entry("b", "teh", "the", true)];
    let added = add_entry(&mut es, "Bar".to_string(), "Bar".to_string());
    assert_eq!(es.len(), 3);
    assert!(added.enabled && !added.synced);
    assert_eq!(es[2].id, added.id);
    let other = add_entry(&mut es, "x".to_string(), "y".to_string());
    assert_ne!(other.id, added.id);
    assert_eq!(get_vocabulary_prompt(&es).unwrap(), "Foo, Bar");
    let u = update_entry(&mut es, "b".to_string(), "teh".to_string(), "the".to_string(), false)
        .ok()
        .unwrap();
    assert!(!u.enabled && !u.synced);
    assert!(!es[1].enabled);
    assert!(matches!(
        update_entry(&mut es, "zz".to_string(), "p".to_string(), "q".to_string(), true),
        Err(DictionaryError::NotFound(_))
    ));
    assert_eq!(get_enabled_entries(&es).len(), 3);
    assert!(remove_entry(&mut es, "a".to_string()));
    assert!(!remove_entry(&mut es, "a".to_string()));
    assert_eq!(get_dictionary(&es).len(), 3);
    assert_eq!(get_vocabulary_prompt(&es).unwrap(), "Bar");
    mark_synced(&mut es, &[added.id.clone()]);
    assert!(es.iter().find(|e| e.id == added.id).unwrap().synced);
    assert!(!es.iter().find(|e| e.id == other.id).unwrap().synced);
    let none: Vec<DictionaryEntry> = vec![entry("c", "a", "b", true)];
    assert!(get_vocabulary_prompt(&none).is_none());
}

#[test]
fn history_is_newest_first_and_bounded() {
    let mut es = Vec::new();
    for i in 0..501u32 {
        history::add_entry(&mut es, &format!("t{}", i), i, 10);
    }
    assert_eq!(history::get_total_count(&es), 500);
    assert_eq!(es[0].text, "t500");
    assert_eq!(es[499].text, "t1");
    let page = history::get_history(&es, Some(2), Some(1));
    assert_eq!(page.len(), 2);
    assert_eq!(page[0].text, "t499");
    assert_eq!(history::get_history(&es, None, None).len(), 50);
    assert_eq!(history::get_history(&es, None, Some(600)).len(), 0);
    let id = es[3].id.clone();
    assert_eq!(history::get_entry(&es, &id).unwrap().text, "t497");
    assert!(history::get_entry(&es, "nope").is_none());
    history::mark_synced(&mut es, &[id.clone()]);
    assert!(es[3].synced && !es[4].synced);
    assert!(history::delete_entry(&mut es, &id));
    assert!(!history::delete_entry(&mut es, &id));
    assert_eq!(history::get_total_count(&es), 499);
    history::clear_history(&mut es);
    assert_eq!(history::get_total_count(&es), 0);
}

#[test]
fn model_names_and_sizes() {
    assert_eq!(get_model_filename("large"), "ggml-large-v3.bin");
    assert_eq!(get_model_filename("tiny"), "ggml-tiny.bin");
    assert_eq!(coreml_encoder_name("large"), "ggml-large-v3-encoder.mlmodelc");
    assert_eq!(coreml_encoder_name("base"), "ggml-base-encoder.mlmodelc");
    assert_eq!(
        get_model_download_url("small"),
        "https://huggingface.co/ggerganov/whisper.cpp/resolve/main/ggml-small.bin"
    );
    assert_eq!(
        get_model_download_url("distil-large-v3.5"),
        "https://huggingface.co/distil-whisper/distil-large-v3.5-ggml/resolve/main/ggml-model.bin"
    );
    assert_eq!(ggml_size_bytes("medium"), 1_500_000_000);
    assert_eq!(ggml_size_bytes("huge"), 0);
    assert_eq!(coreml_size_mb("large"), 1550);
    assert_eq!(coreml_size_bytes("tiny"), 42_000_000);
    assert_eq!(coreml_size_mb("large-v3-turbo"), 0);
    assert!(is_turbo_model("large-v3-turbo-q5_0"));
    assert!(!is_turbo_model("large"));
    assert!(is_distil_model("distil-large-v3.5"));
    assert!(is_lightweight_decoder("large-v3-turbo"));
    assert!(!is_lightweight_decoder("large-v3-q5_0"));
}

#[test]
fn model_catalogue_reflects_files() {
    let files = vec!["ggml-tiny.bin".to_string(), "ggml-large-v3.bin".to_string()];
    let dirs = vec!["ggml-tiny-encoder.mlmodelc".to_string()];
    assert!(is_coreml_downloaded("tiny", &dirs));
    assert!(!is_coreml_downloaded("base", &dirs));
    let ms = get_available_models(&files, &dirs);
    assert_eq!(ms.len(), 9);
    assert_eq!(ms[0].id, "tiny");
    assert!(ms[0].downloaded && ms[0].coreml_downloaded);
    assert_eq!(ms[0].coreml_size_mb, 42);
    assert_eq!(ms[4].name, "Large v3");
    assert!(ms[4].downloaded && !ms[4].coreml_downloaded);
    assert!(!ms[1].downloaded);
    assert_eq!(ms[8].id, "distil-large-v3.5");
    assert_eq!(ms[8].size_mb, 756);
    let c = get_coreml_status(true, false);
    assert!(c.compiled && c.supported && !c.apple_silicon);
    assert!(!get_metal_status(false).supported);
}

#[test]
fn model_slot_and_preload() {
    let mut slot: ModelSlot<u32> = ModelSlot::new();
    assert!(matches!(preload_model(&slot, "base", false), Err(WhisperError::ModelNotFound(_))));
    assert!(preload_model(&slot, "base", true).ok().unwrap());
    slot.store(7, "base");
    assert!(!preload_model(&slot, "base", true).ok().unwrap());
    assert!(preload_model(&slot, "small", true).ok().unwrap());
    assert_eq!(slot.context(), Some(&7));
    assert!(!voxtral::preload_model(&slot, true).ok().unwrap());
    assert!(voxtral::get_cached_context(&slot).is_ok());
    voxtral::unload_model(&mut slot);
    assert!(voxtral::get_cached_context(&slot).is_err());
    assert!(voxtral::preload_model(&slot, true).ok().unwrap());
    assert!(voxtral::preload_model(&slot, false).is_err());
}

#[test]
fn native_model_status() {
    let files = vec![
        "params.json".to_string(),
        "consolidated.safetensors".to_string(),
        "tekken.json".to_string(),
    ];
    assert!(voxtral::is_model_downloaded(&files));
    assert!(!voxtral::is_model_downloaded(&files[..2].to_vec()));
    let st = voxtral::get_status(&files, false, true);
    assert!(st.compiled && st.metal && st.model_downloaded && !st.model_loaded);
    let ms = voxtral::get_available_models(&vec![]);
    assert_eq!(ms.len(), 1);
    assert_eq!(ms[0].id, "voxtral-mini-4b");
    assert!(!ms[0].downloaded);
}

#[test]
fn wayland_blocks_injection() {
    assert!(is_wayland(&Some("wayland".to_string()), false));
    assert!(is_wayland(&None, true));
    assert!(!is_wayland(&Some("x11".to_string()), false));
    assert!(check_accessibility(&None, false));
    assert!(!check_accessibility(&Some("wayland".to_string()), false));
}

#[test]
fn replacements_match_whole_words_ignoring_case() {
    let es = vec![
        entry("a", "teh", "the", true),
        entry("b", "foo", "Foo", true),
        entry("c", "cat", "dog", false),
    ];
    assert_eq!(
        apply_replacements("Teh cat sat on teh mat, tehx", &es),
        "the cat sat on the mat, tehx"
    );
    assert_eq!(apply_replacements("FOO bar", &es), "Foo bar");
    assert_eq!(apply_replacements("a.b", &vec![entry("d", "a.b", "x", true)]), "x");
    assert_eq!(apply_replacements("plain", &vec![]), "plain");
}

#[test]
fn stats_streaks_and_daily_figures() {
    let mut s = LocalStats::default();
    record_on_day(&mut s, 1000, 5, 1500);
    assert_eq!(s.streak_days, 1);
    record_on_day(&mut s, 1000, 3, 500);
    assert_eq!(s.streak_days, 1);
    assert_eq!(s.daily_history.len(), 1);
    assert_eq!(s.daily_history[0].transcriptions, 2);
    assert_eq!(s.daily_history[0].words, 8);
    assert_eq!(s.daily_history[0].audio_ms, 2000);
    record_on_day(&mut s, 1001, 1, 100);
    assert_eq!(s.streak_days, 2);
    assert_eq!(get_stats(&s, 1002).streak_days, 2);
    assert_eq!(get_stats(&s, 1003).streak_days, 0);
    record_on_day(&mut s, 1005, 1, 100);
    assert_eq!(s.streak_days, 1);
    assert_eq!(s.total_transcriptions, 4);
    assert_eq!(s.total_words, 10);
    assert_eq!(s.total_audio_ms, 2200);
    assert_eq!(s.last_used_day, Some(1005));
}

#[test]
fn stats_keep_latest_thirty_days() {
    let mut s = LocalStats::default();
    for d in 0..31 {
        record_on_day(&mut s, 2000 + d, 1, 10);
    }
    assert_eq!(s.daily_history.len(), 30);
    assert_eq!(s.daily_history[0].day, 2030);
    assert_eq!(s.daily_history[29].day, 2001);
    assert_eq!(s.streak_days, 31);
}
