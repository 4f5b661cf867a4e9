use mentascribe::session::{combine_with_prefix, streaming_prefix, tail_audio};
use mentascribe::transcription::voxtral::{self, VoxtralStream, ALL_CONSUMED};
use mentascribe::transcription::whisper::{
    decoding_params, extract_speech, finish_transcript, is_likely_hallucination, stop_streaming,
    vad_filter_speech, VadMonitor,
};

fn ramp(n: usize) -> Vec<i16> {
    (0..n).map(|i| (i % 1000) as i16).collect()
}

#[test]
fn speech_spans_are_concatenated() {
    let w: Vec<i16> = (0..10).collect();
    assert_eq!(extract_speech(&w, &vec![(1, 3), (5, 7)]), vec![1, 2, 5, 6]);
    assert_eq!(extract_speech(&w, &vec![(8, 20), (4, 4)]), vec![8, 9]);
    assert_eq!(extract_speech(&w, &vec![]), Vec::<i16>::new());
}

#[test]
fn batch_filter_guards() {
    let w = ramp(40001);
    assert_eq!(vad_filter_speech(&w, None), w);
    assert_eq!(vad_filter_speech(&w, Some(vec![])), w);
    // Under half a second of speech: the audio passes unchanged.
    assert_eq!(vad_filter_speech(&w, Some(vec![(0, 7999)])), w);
    // Over 80% would be dropped: the audio passes unchanged.
    assert_eq!(vad_filter_speech(&w, Some(vec![(0, 7999), (10000, 10001)])), w);
    // Enough speech: only the speech is kept.
    let kept = vad_filter_speech(&w, Some(vec![(1000, 11000)]));
    assert_eq!(kept, w[1000..11000].to_vec());
}

#[test]
fn monitor_waits_for_silence_gap() {
    let mut m = VadMonitor::new();
    let audio = ramp(20000);
    m.absorb(&audio, 20000);
    assert!(!m.needs_more_audio());
    assert!(m.detect_utterance(&vec![]).is_none());
    // Speech ends 4000 samples before the end: still possibly talking.
    assert!(m.detect_utterance(&vec![(2000, 16000)]).is_none());
    // Speech too short.
    assert!(m.detect_utterance(&vec![(2000, 4000)]).is_none());
    let u = m.detect_utterance(&vec![(1000, 12000)]).unwrap();
    assert_eq!(u.clear_to, 12000);
    assert_eq!(u.samples, audio[1000..12000].to_vec());
}

#[test]
fn monitor_uses_untrimmed_window_when_trim_drops_most() {
    let mut m = VadMonitor::new();
    let audio = ramp(60000);
    m.absorb(&audio, 60000);
    let u = m.detect_utterance(&vec![(0, 4000), (46000, 50000)]).unwrap();
    assert_eq!(u.clear_to, 50000);
    assert_eq!(u.samples, audio[..50000].to_vec());
}

#[test]
fn fragments_and_tail_partition_the_session() {
    let audio = ramp(50000);
    let mut m = VadMonitor::new();
    m.absorb(&audio[..20000], 20000);
    let u = m.detect_utterance(&vec![(500, 11000)]).unwrap();
    m.commit(u.clear_to, Some("hello".to_string()));
    assert_eq!(m.consumed, 11000);
    m.absorb(&audio[20000..], 50000);
    let u = m.detect_utterance(&vec![(1000, 20000)]).unwrap();
    m.commit(u.clear_to, Some(String::new()));
    m.commit(0, None);
    let (results, consumed) = stop_streaming(&mut m);
    assert_eq!(results, vec!["hello".to_string()]);
    assert_eq!(consumed, 31000);
    let tail = tail_audio(audio.clone(), consumed);
    let mut rebuilt = audio[..consumed].to_vec();
    rebuilt.extend_from_slice(&tail);
    assert_eq!(rebuilt, audio);
    assert_eq!(m.consumed, 0);
    assert_eq!(tail_audio(vec![1, 2], 5), Vec::<i16>::new());
    assert_eq!(tail_audio(vec![1, 2], 0), vec![1, 2]);
}

#[test]
fn silence_never_yields_an_utterance() {
    let mut m = VadMonitor::new();
    m.absorb(&vec![0i16; 48000], 48000);
    assert!(m.detect_utterance(&vec![]).is_none());
}

#[test]
fn hallucinations_are_suppressed() {
    assert!(is_likely_hallucination("Thank you."));
    assert!(is_likely_hallucination("  THANKS FOR WATCHING! "));
    assert!(is_likely_hallucination("you"));
    assert!(!is_likely_hallucination(""));
    assert!(!is_likely_hallucination("thank you very much"));
    assert_eq!(finish_transcript(&vec![" Thank".to_string(), " you.".to_string()]), "");
    assert_eq!(finish_transcript(&vec![]), "");
    assert_eq!(
        finish_transcript(&vec![" hello".to_string(), " world ".to_string()]),
        "hello world"
    );
}

#[test]
fn decoding_params_follow_model_and_length() {
    let p = decoding_params("large-v3-turbo", false, 320000, &Some("en".to_string()));
    assert_eq!(p.audio_ctx, 1280);
    assert!(p.single_segment);
    assert_eq!(p.no_speech_thold_pct, 60);
    assert_eq!(p.entropy_thold_tenths, 24);
    assert_eq!(p.logprob_thold_tenths, -10);
    assert_eq!(p.language.as_deref(), Some("en"));
    assert_eq!(p.max_tokens, 128);
    assert_eq!(p.temperature_tenths, 0);
    assert_eq!(p.temperature_inc_tenths, 2);
    assert_eq!(decoding_params("distil-large-v3.5", false, 16000, &None).audio_ctx, 768);
    assert_eq!(decoding_params("large-v3-turbo", false, 480000, &None).audio_ctx, 1500);
    assert_eq!(decoding_params("large-v3-turbo", true, 16000, &None).audio_ctx, 0);
    let full = decoding_params("large-v3-q5_0", false, 16000, &Some("auto".to_string()));
    assert_eq!(full.audio_ctx, 0);
    assert!(!full.single_segment);
    assert_eq!(full.no_speech_thold_pct, 50);
    assert_eq!(full.entropy_thold_tenths, 22);
    assert_eq!(full.logprob_thold_tenths, -8);
    assert!(full.language.is_none());
}

#[test]
fn either_split_gives_same_text() {
    let streamed = streaming_prefix(&vec!["hello world".to_string()], false);
    assert_eq!(combine_with_prefix(streamed, String::new()), "hello world");
    let none = streaming_prefix(&vec![], false);
    assert!(none.is_none());
    assert_eq!(combine_with_prefix(none, "hello world".to_string()), "hello world");
    let two = streaming_prefix(&vec!["hello".to_string(), "world".to_string()], false);
    assert_eq!(combine_with_prefix(two, "again".to_string()), "hello world again");
}

#[test]
fn native_stream_bookkeeping() {
    let mut s = VoxtralStream::new();
    let cfg = voxtral::StreamingConfig { delay_ms: 480 };
    assert!(voxtral::start_streaming(&mut s, &cfg, false, false).is_err());
    assert!(voxtral::start_streaming(&mut s, &cfg, true, false).is_err());
    assert!(voxtral::start_streaming(&mut s, &cfg, true, true).is_ok());
    s.push_tokens(&vec![" Hello".to_string(), ",".to_string()]);
    s.push_tokens(&vec!["  ".to_string()]);
    s.push_tokens(&vec![" world.".to_string()]);
    s.advance(1000);
    s.request_stop(1500);
    let rest: Vec<i16> = vec![1; 800];
    assert_eq!(s.final_feed(&rest).len(), 500);
    let (results, consumed) = voxtral::stop_streaming(&mut s);
    assert_eq!(consumed, ALL_CONSUMED);
    assert_eq!(streaming_prefix(&results, true).unwrap(), " Hello, world.");
    let (again, consumed) = voxtral::stop_streaming(&mut s);
    assert!(again.is_empty());
    assert_eq!(consumed, 0);
}
