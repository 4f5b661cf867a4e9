use mentascribe::audio::capture::{
    calculate_rms, isqrt, prepare_for_whisper, resample_linear, to_mono, AudioData, AudioError,
    CaptureEngine, CaptureStatus, FlushOutcome,
};
use mentascribe::audio::vad::{trim_silence, VadConfig, VoiceActivityDetector};

fn tone(frames: usize, channels: usize, amplitude: i16) -> Vec<i16> {
    let mut v = Vec::with_capacity(frames * channels);
    for f in 0..frames {
        let s = if f % 2 == 0 { amplitude } else { -amplitude };
        for _ in 0..channels {
            v.push(s);
        }
    }
    v
}

fn pump(engine: &mut CaptureEngine, data: &[i16]) {
    engine.on_audio(data);
    while let Some(chunk) = engine.next_resampler_chunk() {
        let out = resample_linear(&chunk, engine.sample_rate, 16000);
        engine.push_resampled(&out);
    }
}

fn finish(engine: &mut CaptureEngine) -> AudioData {
    engine.stop_capture().ok().unwrap();
    let flush = match engine.flush_remainder() {
        Some(rest) => FlushOutcome::Resampled(resample_linear(&rest, engine.sample_rate, 16000)),
        None => FlushOutcome::Nothing,
    };
    engine.finish_stop(flush)
}

#[test]
fn downmix_averages_each_frame() {
    assert_eq!(to_mono(&[100, 200, -100, -300], 2), vec![150, -200]);
    assert_eq!(to_mono(&[1, 2], 2), vec![1]);
    assert_eq!(to_mono(&[3, 4, 5], 1), vec![3, 4, 5]);
    assert_eq!(to_mono(&[10, 20, 30, 40, 50], 2), vec![15, 35, 50]);
}

#[test]
fn linear_resampler_interpolates() {
    assert_eq!(
        resample_linear(&[0, 100, 200, 300], 2, 3),
        vec![0, 66, 133, 200, 266, 300]
    );
    assert_eq!(resample_linear(&[0, 30, 60, 90, 120, 150], 3, 1), vec![0, 90]);
    assert_eq!(resample_linear(&[7, 8, 9], 16000, 16000), vec![7, 8, 9]);
}

#[test]
fn level_meter_math() {
    assert_eq!(isqrt(0), 0);
    assert_eq!(isqrt(15), 3);
    assert_eq!(isqrt(16), 4);
    assert_eq!(isqrt(u64::MAX), 0xffff_ffff);
    assert_eq!(calculate_rms(&[]), 0);
    assert_eq!(calculate_rms(&[3, -4, 3, -4]), 3);
    assert_eq!(calculate_rms(&[-32768, -32768]), 32768);
}

#[test]
fn second_start_is_refused() {
    let mut e = CaptureEngine::new();
    assert!(e.start_capture().is_ok());
    assert!(matches!(e.start_capture(), Err(AudioError::AlreadyRunning)));
    assert!(e.is_capturing());
    e.stop_capture().ok().unwrap();
    assert!(e.status == CaptureStatus::Stopping);
    assert!(matches!(e.start_capture(), Err(AudioError::AlreadyRunning)));
    let _ = e.finish_stop(FlushOutcome::Nothing);
    assert!(e.start_capture().is_ok());
}

#[test]
fn reset_and_idle_stop_leave_engine_idle() {
    let mut e = CaptureEngine::new();
    e.start_capture().ok().unwrap();
    e.configure(16000, 1, false);
    e.on_audio(&[1, 2, 3]);
    e.reset_state();
    e.reset_state();
    assert!(e.status == CaptureStatus::Idle);
    assert!(e.raw.is_empty() && e.normalized.is_empty());
    assert_eq!(e.get_current_level(), 0);
    assert!(matches!(e.stop_capture(), Err(AudioError::NotRunning)));
    assert!(matches!(e.stop_capture(), Err(AudioError::NotRunning)));
    assert!(e.status == CaptureStatus::Idle);
    assert!(e.start_capture().is_ok());
}

#[test]
fn target_rate_audio_is_downmixed_without_loss() {
    let mut e = CaptureEngine::new();
    e.start_capture().ok().unwrap();
    e.configure(16000, 2, true);
    let a = tone(300, 2, 1000);
    let b = tone(77, 2, 2000);
    pump(&mut e, &a);
    pump(&mut e, &b);
    let mut all = a.clone();
    all.extend_from_slice(&b);
    assert_eq!(e.normalized, to_mono(&all, 2));
    assert!(e.get_current_level() > 0);
    let audio = finish(&mut e);
    assert_eq!(audio.samples, all);
    assert_eq!(audio.whisper_samples, Some(to_mono(&all, 2)));
}

#[test]
fn resampler_blocks_keep_every_frame() {
    let mut e = CaptureEngine::new();
    e.start_capture().ok().unwrap();
    e.configure(48000, 1, true);
    let data: Vec<i16> = (0..2500).map(|i| (i % 100) as i16).collect();
    e.on_audio(&data);
    let mut taken = Vec::new();
    while let Some(chunk) = e.next_resampler_chunk() {
        assert_eq!(chunk.len(), 1024);
        taken.extend_from_slice(&chunk);
    }
    assert_eq!(taken.len(), 2048);
    e.stop_capture().ok().unwrap();
    let rest = e.flush_remainder().unwrap();
    taken.extend_from_slice(&rest);
    assert_eq!(taken, data);
    assert!(e.flush_remainder().is_none());
}

#[test]
fn stereo_48k_session_sizes() {
    let mut e = CaptureEngine::new();
    e.start_capture().ok().unwrap();
    e.configure(48000, 2, true);
    for i in 0..200 {
        let amp = if i < 100 { 8000 } else { 0 };
        pump(&mut e, &tone(480, 2, amp));
    }
    let audio = finish(&mut e);
    assert_eq!(audio.samples.len(), 48000 * 2 * 2);
    assert_eq!(audio.sample_rate, 48000);
    assert_eq!(audio.channels, 2);
    let n = audio.whisper_samples.as_ref().unwrap().len();
    assert!(n > 31800 && n <= 32000, "normalized length {}", n);
    assert!(e.status == CaptureStatus::Idle);
}

#[test]
fn immediate_stop_is_empty() {
    let mut e = CaptureEngine::new();
    e.start_capture().ok().unwrap();
    e.configure(48000, 2, true);
    let audio = finish(&mut e);
    assert!(audio.samples.is_empty());
    assert!(audio.whisper_samples.is_none());
    assert!(prepare_for_whisper(audio, None).is_empty());
}

#[test]
fn resampler_failure_falls_back_to_linear() {
    let mut e = CaptureEngine::new();
    e.start_capture().ok().unwrap();
    e.configure(48000, 2, false);
    for _ in 0..100 {
        pump(&mut e, &tone(480, 2, 5000));
    }
    assert!(e.normalized.is_empty());
    let audio = finish(&mut e);
    assert!(audio.whisper_samples.is_none());
    let raw = audio.samples.clone();
    let prepared = prepare_for_whisper(audio, None);
    assert_eq!(prepared.len(), 16000);
    assert_eq!(prepared, resample_linear(&to_mono(&raw, 2), 48000, 16000));
}

#[test]
fn sticky_failure_discards_real_time_output() {
    let mut e = CaptureEngine::new();
    e.start_capture().ok().unwrap();
    e.configure(44100, 1, true);
    pump(&mut e, &tone(3000, 1, 100));
    e.mark_resampler_failed();
    pump(&mut e, &tone(3000, 1, 100));
    assert!(e.next_resampler_chunk().is_none());
    let audio = finish(&mut e);
    assert!(audio.whisper_samples.is_none());
    assert_eq!(audio.samples.len(), 6000);
}

#[test]
fn failed_flush_discards_buffer() {
    let mut e = CaptureEngine::new();
    e.start_capture().ok().unwrap();
    e.configure(48000, 1, true);
    pump(&mut e, &tone(3000, 1, 100));
    e.stop_capture().ok().unwrap();
    assert!(e.flush_remainder().is_some());
    let audio = e.finish_stop(FlushOutcome::Failed);
    assert!(audio.whisper_samples.is_none());
}

#[test]
fn prepared_audio_prefers_real_time_samples() {
    let audio = AudioData {
        samples: vec![1, 2, 3, 4],
        sample_rate: 48000,
        channels: 2,
        whisper_samples: Some(vec![9, 9]),
    };
    assert_eq!(prepare_for_whisper(audio, None), vec![9, 9]);
    let audio = AudioData {
        samples: vec![4, 6, 8, 10],
        sample_rate: 16000,
        channels: 2,
        whisper_samples: Some(vec![]),
    };
    assert_eq!(prepare_for_whisper(audio, None), vec![5, 9]);
    let audio = AudioData {
        samples: vec![4, 6, 8, 10],
        sample_rate: 8000,
        channels: 1,
        whisper_samples: None,
    };
    assert_eq!(prepare_for_whisper(audio, Some(vec![1])), vec![1]);
}

#[test]
fn energy_gate_hysteresis() {
    let mut d = VoiceActivityDetector::new(VadConfig::default());
    let quiet = vec![10i16; 800];
    let loud = vec![2000i16; 800];
    for _ in 0..20 {
        assert!(!d.process(&quiet));
    }
    assert!(!d.process(&loud));
    assert!(d.process(&loud));
    assert!(d.process(&quiet));
    for _ in 0..5 {
        d.process(&quiet);
    }
    assert!(!d.is_speaking());
    d.reset();
    assert!(!d.is_speaking());
}

#[test]
fn trim_silence_keeps_loud_span() {
    let s = [0i16, 0, 0, 0, 1000, 1000, 0, 0];
    assert_eq!(trim_silence(&s, 100, 2), &[1000, 1000]);
    let quiet = [1i16, 2, 3];
    assert_eq!(trim_silence(&quiet, 100, 2), &quiet);
    let odd = [0i16, 0, 0, 500, 0];
    assert_eq!(trim_silence(&odd, 100, 2), &[0, 500, 0]);
}
