//! Session control: start and stop of a recording, and assembly of the
//! final text from streamed fragments and the transcribed tail.

use vstd::prelude::*;
use vstd::string::StringExecFns;
use crate::audio::capture::{CaptureEngine, CaptureStatus};
use crate::chars::{same_text, white_space};
use crate::settings::UserSettings;
use crate::text::{process_text, processed};
use crate::transcription::voxtral::{self, VoxtralStream, ALL_CONSUMED};
use crate::transcription::whisper::{self, VadMonitor};

verus! {

/// State shared by the recording commands.
pub struct AppState {
    pub is_recording: bool,
    pub settings: UserSettings,
    pub audio_level_emitter_running: bool,
}

/// Whether the native-incremental engine is selected and built in.
pub open spec fn native_selected(settings: UserSettings, compiled: bool) -> bool {
    compiled && settings.transcription.engine is Some
        && settings.transcription.engine->Some_0@ == "voxtral"@
}

pub fn is_voxtral_engine(settings: &UserSettings, compiled: bool) -> (r: bool)
    ensures
        r == native_selected(*settings, compiled),
{
    if !compiled {
        return false;
    }
    match &settings.transcription.engine {
        Some(e) => same_text(e.as_str(), "voxtral"),
        None => false,
    }
}

/// Which streaming runs during a session.
#[derive(PartialEq, Eq, Structural, Clone, Copy)]
pub enum StreamingMode {
    /// No model ready: everything is transcribed at stop.
    Off,
    /// Completed utterances are transcribed while recording.
    Utterances,
    /// The native-incremental engine takes all audio.
    Native,
}

/// What the model store reports at session start.
pub struct ModelPresence {
    pub vad_model: bool,
    pub speech_model: bool,
    pub native_compiled: bool,
    pub native_downloaded: bool,
    pub native_loaded: bool,
}

/// Start a recording: refused while one runs; starts capture, then the
/// streaming that the settings select. When the native engine is selected
/// and cannot stream, capture is rolled back and the error surfaced; the
/// utterance monitor's absence is not an error.
pub fn start_recording(
    state: &mut AppState,
    capture: &mut CaptureEngine,
    monitor: &mut VadMonitor,
    stream: &mut VoxtralStream,
    models: &ModelPresence,
) -> (r: Result<StreamingMode, String>)
    requires
        old(capture).wf(),
    ensures
        final(capture).wf(),
        old(state).is_recording ==> r is Err && *final(capture) == *old(capture),
        !old(state).is_recording && old(capture).status != CaptureStatus::Idle ==> r is Err,
        r is Ok <==> !old(state).is_recording && old(capture).status == CaptureStatus::Idle && (
        native_selected(old(state).settings, models.native_compiled) ==> models.native_downloaded
            && models.native_loaded),
        final(state).is_recording == (r is Ok || old(state).is_recording),
        r is Ok ==> final(capture).status == CaptureStatus::Running,
        !old(state).is_recording && r is Err ==> final(capture).status == old(capture).status
            || final(capture).is_clean_idle(),
        r is Ok ==> r->Ok_0 == if native_selected(old(state).settings, models.native_compiled) {
            StreamingMode::Native
        } else if models.vad_model && models.speech_model {
            StreamingMode::Utterances
        } else {
            StreamingMode::Off
        },
        r is Ok ==> final(state).audio_level_emitter_running,
{
    if state.is_recording {
        return Err("Already recording".to_string());
    }
    state.is_recording = true;
    match capture.start_capture() {
        Err(e) => {
            state.is_recording = false;
            return Err(e.message());
        },
        Ok(()) => {},
    }
    let mode = if is_voxtral_engine(&state.settings, models.native_compiled) {
        let delay_ms = match state.settings.transcription.voxtral_delay_ms {
            Some(d) => d,
            None => voxtral::DEFAULT_DELAY_MS,
        };
        let config = voxtral::StreamingConfig { delay_ms };
        match voxtral::start_streaming(
            stream,
            &config,
            models.native_downloaded,
            models.native_loaded,
        ) {
            Err(_) => {
                state.is_recording = false;
                capture.reset_state();
                return Err("Voxtral streaming could not start".to_string());
            },
            Ok(()) => StreamingMode::Native,
        }
    } else {
        let model_size = match &state.settings.transcription.model_size {
            Some(m) => m.as_str().to_string(),
            None => "small".to_string(),
        };
        let language = match &state.settings.transcription.language {
            Some(l) => Some(l.as_str().to_string()),
            None => None,
        };
        let config = whisper::StreamingConfig { model_size, language };
        if whisper::start_streaming(monitor, &config, models.vad_model, models.speech_model) {
            StreamingMode::Utterances
        } else {
            StreamingMode::Off
        }
    };
    state.audio_level_emitter_running = true;
    Ok(mode)
}

/// First step of stopping: the level emitter stops, and a recording must be
/// running.
pub fn begin_stop(state: &mut AppState) -> (r: Result<(), String>)
    ensures
        r is Ok == old(state).is_recording,
        !final(state).is_recording,
        !final(state).audio_level_emitter_running,
{
    state.audio_level_emitter_running = false;
    if !state.is_recording {
        return Err("Not recording".to_string());
    }
    state.is_recording = false;
    Ok(())
}

/// Recover from a stuck session: nothing records and capture is idle and
/// empty, whatever the state was.
pub fn reset_recording_state(state: &mut AppState, capture: &mut CaptureEngine)
    ensures
        !final(state).is_recording,
        !final(state).audio_level_emitter_running,
        final(capture).wf(),
        final(capture).is_clean_idle(),
{
    state.is_recording = false;
    state.audio_level_emitter_running = false;
    capture.reset_state();
}

/// The texts joined with `sep` between neighbours.
pub open spec fn joined(parts: Seq<String>, sep: Seq<char>) -> Seq<char>
    decreases parts.len(),
{
    if parts.len() == 0 {
        Seq::empty()
    } else if parts.len() == 1 {
        parts[0]@
    } else {
        joined(parts.drop_last(), sep) + sep + parts.last()@
    }
}

/// The texts joined with `sep`, as `[String]::join` gives them.
pub fn join_texts(parts: &Vec<String>, sep: &str) -> (r: String)
    ensures
        r@ == joined(parts@, sep@),
{
    let mut out = String::new();
    let mut i: usize = 0;
    while i < parts.len()
        invariant
            i <= parts@.len(),
            out@ == joined(parts@.subrange(0, i as int), sep@),
        decreases parts@.len() - i,
    {
        if i > 0 {
            out.append(sep);
        }
        out.append(parts[i].as_str());
        assert(parts@.subrange(0, i + 1).drop_last() =~= parts@.subrange(0, i as int));
        i = i + 1;
    }
    assert(parts@.subrange(0, parts@.len() as int) =~= parts@);
    out
}

/// The streamed fragments as one prefix: none when there are none; tokens
/// of the native engine carry their own spacing, utterances are joined with
/// a space.
pub open spec fn prefix_of(results: Seq<String>, native: bool) -> Option<Seq<char>> {
    if results.len() == 0 {
        None
    } else if native {
        Some(joined(results, Seq::empty()))
    } else {
        Some(joined(results, " "@))
    }
}

pub fn streaming_prefix(results: &Vec<String>, native: bool) -> (r: Option<String>)
    ensures
        match prefix_of(results@, native) {
            None => r is None,
            Some(p) => r is Some && r->Some_0@ == p,
        },
{
    if results.len() == 0 {
        return None;
    }
    if native {
        let r = join_texts(results, "");
        proof {
            reveal_strlit("");
            assert(""@ =~= Seq::<char>::empty());
        }
        Some(r)
    } else {
        Some(join_texts(results, " "))
    }
}

/// The audio that streaming left untranscribed: everything from the
/// consumed cursor on.
pub open spec fn tail_of(audio: Seq<i16>, consumed: nat) -> Seq<i16> {
    if consumed >= audio.len() {
        Seq::empty()
    } else {
        audio.subrange(consumed as int, audio.len() as int)
    }
}

pub fn tail_audio(audio: Vec<i16>, consumed: usize) -> (r: Vec<i16>)
    ensures
        r@ == tail_of(audio@, consumed as nat),
{
    if consumed == 0 {
        assert(audio@.subrange(0, audio@.len() as int) =~= audio@);
        return audio;
    }
    if consumed >= audio.len() {
        return Vec::new();
    }
    let mut audio = audio;
    audio.split_off(consumed)
}

/// Final text: the streamed prefix followed by the tail's text, with one
/// space between them when both are non-empty.
pub open spec fn combined(prefix: Option<Seq<char>>, tail_text: Seq<char>) -> Seq<char> {
    match prefix {
        Some(p) if p.len() > 0 => if tail_text.len() == 0 {
            p
        } else {
            p + " "@ + tail_text
        },
        _ => tail_text,
    }
}

pub fn combine_with_prefix(prefix: Option<String>, tail_text: String) -> (r: String)
    ensures
        r@ == combined(
            match prefix {
                Some(p) => Some(p@),
                None => None,
            },
            tail_text@,
        ),
{
    match prefix {
        Some(p) => {
            if p.as_str().is_empty() {
                tail_text
            } else if tail_text.as_str().is_empty() {
                p
            } else {
                let mut r = p;
                r.append(" ");
                r.append(tail_text.as_str());
                r
            }
        },
        None => tail_text,
    }
}

/// Whether a tail must still be transcribed: not when the native engine
/// consumed everything.
pub fn needs_tail(native: bool, consumed: usize) -> (r: bool)
    ensures
        r == !(native && consumed == ALL_CONSUMED),
{
    !(native && consumed == ALL_CONSUMED)
}

/// Number of maximal runs of non-white-space characters.
pub open spec fn word_count(s: Seq<char>) -> nat
    decreases s.len(),
{
    if s.len() == 0 {
        0
    } else if !white_space(s.last()) && (s.len() == 1 || white_space(s[s.len() - 2])) {
        word_count(s.drop_last()) + 1
    } else {
        word_count(s.drop_last())
    }
}

/// Words of the final text, as `split_whitespace` counts them, saturating
/// at `u32::MAX`.
pub fn count_words(text: &str) -> (r: u32)
    ensures
        r == vstd::math::min(word_count(text@) as int, u32::MAX as int),
{
    let cs = crate::chars::chars_of(text);
    let mut count: u32 = 0;
    let mut i: usize = 0;
    while i < cs.len()
        invariant
            cs@ == text@,
            i <= cs@.len(),
            count == vstd::math::min(word_count(cs@.subrange(0, i as int)) as int, u32::MAX as int),
        decreases cs@.len() - i,
    {
        let starts = !crate::chars::is_white_space(cs[i]) && (i == 0
            || crate::chars::is_white_space(cs[i - 1]));
        assert(cs@.subrange(0, i + 1).drop_last() =~= cs@.subrange(0, i as int));
        if starts && count < u32::MAX {
            count = count + 1;
        }
        i = i + 1;
    }
    assert(cs@.subrange(0, cs@.len() as int) =~= cs@);
    count
}

/// Duration of the raw audio in milliseconds, as its sample count over the
/// rate, saturating at `u32::MAX`.
pub fn duration_ms(n_samples: usize, sample_rate: u32) -> (r: u32)
    ensures
        sample_rate > 0 ==> r == vstd::math::min(
            n_samples * 1000 / (sample_rate as int),
            u32::MAX as int,
        ),
        sample_rate == 0 ==> r == (if n_samples == 0 { 0 } else { u32::MAX }),
{
    if sample_rate == 0 {
        return if n_samples == 0 {
            0
        } else {
            u32::MAX
        };
    }
    let ms = (n_samples as u128) * 1000 / (sample_rate as u128);
    if ms > u32::MAX as u128 {
        u32::MAX
    } else {
        ms as u32
    }
}

/// The text handed downstream: the raw final text capitalised when the
/// setting asks for it (the default).
pub fn finalize_text(raw_text: &str, settings: &UserSettings) -> (r: String)
    ensures
        r@ == processed(
            raw_text@,
            match settings.output.auto_capitalize {
                Some(b) => b,
                None => true,
            },
        ),
{
    let auto_capitalize = match settings.output.auto_capitalize {
        Some(b) => b,
        None => true,
    };
    process_text(raw_text, auto_capitalize)
}


/// The final text does not depend on whether an utterance was streamed
/// (one fragment, empty tail) or left to the tail (no fragment), for either
/// engine's joining.
pub proof fn lemma_split_tolerance(utterance: String, native: bool)
    ensures
        combined(prefix_of(seq![utterance], native), Seq::empty()) == combined(
            prefix_of(Seq::<String>::empty(), native),
            utterance@,
        ),
{
    assert(seq![utterance].len() == 1);
    assert(joined(seq![utterance], " "@) == utterance@);
    assert(joined(seq![utterance], Seq::empty()) == utterance@);
}

} // verus!
