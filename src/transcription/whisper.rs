//! Batch speech-recognition adapter: model naming, decoding parameters,
//! hallucination suppression, speech extraction and the utterance monitor
//! that transcribes completed utterances while recording goes on.

use vstd::prelude::*;
use vstd::string::StringExecFns;
use vstd::slice::slice_to_vec;
use crate::transcription::{CoremlStatus, MetalStatus, ModelInfo, ModelSlot};
use crate::chars::{
    contains_text, has_infix, lower_of, same_text, to_lowercase, trim, trim_start, trim_text,
};

verus! {

/// Errors of the batch engine.
pub enum WhisperError {
    ModelNotFound(String),
    DownloadError(String),
    TranscriptionError(String),
    IoError(String),
}

/// File name of a model's weights.
pub open spec fn model_filename(size: Seq<char>) -> Seq<char> {
    if size == "large"@ {
        "ggml-large-v3.bin"@
    } else {
        "ggml-"@ + size + ".bin"@
    }
}

pub fn get_model_filename(size: &str) -> (r: String)
    ensures
        r@ == model_filename(size@),
{
    if same_text(size, "large") {
        return "ggml-large-v3.bin".to_string();
    }
    let mut r = "ggml-".to_string();
    r.append(size);
    r.append(".bin");
    r
}

/// Directory name of a model's accelerated encoder.
pub open spec fn encoder_name(size: Seq<char>) -> Seq<char> {
    if size == "large"@ {
        "ggml-large-v3-encoder.mlmodelc"@
    } else {
        "ggml-"@ + size + "-encoder.mlmodelc"@
    }
}

pub fn coreml_encoder_name(size: &str) -> (r: String)
    ensures
        r@ == encoder_name(size@),
{
    if same_text(size, "large") {
        return "ggml-large-v3-encoder.mlmodelc".to_string();
    }
    let mut r = "ggml-".to_string();
    r.append(size);
    r.append("-encoder.mlmodelc");
    r
}

/// Whether `names` holds `name`.
pub open spec fn listed(names: Seq<String>, name: Seq<char>) -> bool {
    exists|i: int| 0 <= i < names.len() && #[trigger] names[i]@ == name
}

pub fn is_listed(names: &Vec<String>, name: &String) -> (r: bool)
    ensures
        r == listed(names@, name@),
{
    let mut i: usize = 0;
    while i < names.len()
        invariant
            i <= names@.len(),
            forall|k: int| 0 <= k < i ==> names@[k]@ != name@,
        decreases names@.len() - i,
    {
        if names[i] == *name {
            return true;
        }
        i = i + 1;
    }
    false
}

/// Whether the accelerated encoder of a model is present among the
/// directories of the models directory.
pub fn is_coreml_downloaded(size: &str, model_dirs: &Vec<String>) -> (r: bool)
    ensures
        r == listed(model_dirs@, encoder_name(size@)),
{
    let name = coreml_encoder_name(size);
    is_listed(model_dirs, &name)
}

/// Approximate download size in bytes of a model's weights; 0 if unknown.
pub open spec fn ggml_bytes(size: Seq<char>) -> u64 {
    if size == "tiny"@ {
        75_000_000
    } else if size == "base"@ {
        142_000_000
    } else if size == "small"@ {
        466_000_000
    } else if size == "medium"@ {
        1_500_000_000
    } else if size == "large"@ {
        2_900_000_000
    } else if size == "large-v3-turbo"@ {
        1_500_000_000
    } else if size == "large-v3-turbo-q5_0"@ {
        547_000_000
    } else if size == "large-v3-q5_0"@ {
        1_100_000_000
    } else if size == "distil-large-v3.5"@ {
        756_000_000
    } else {
        0
    }
}

pub fn ggml_size_bytes(size: &str) -> (r: u64)
    ensures
        r == ggml_bytes(size@),
{
    if same_text(size, "tiny") {
        75_000_000
    } else if same_text(size, "base") {
        142_000_000
    } else if same_text(size, "small") {
        466_000_000
    } else if same_text(size, "medium") {
        1_500_000_000
    } else if same_text(size, "large") {
        2_900_000_000
    } else if same_text(size, "large-v3-turbo") {
        1_500_000_000
    } else if same_text(size, "large-v3-turbo-q5_0") {
        547_000_000
    } else if same_text(size, "large-v3-q5_0") {
        1_100_000_000
    } else if same_text(size, "distil-large-v3.5") {
        756_000_000
    } else {
        0
    }
}

/// Approximate download size in megabytes of a model's accelerated encoder;
/// 0 for models that have none.
pub open spec fn coreml_mb(size: Seq<char>) -> u32 {
    if size == "tiny"@ {
        42
    } else if size == "base"@ {
        78
    } else if size == "small"@ {
        244
    } else if size == "medium"@ {
        776
    } else if size == "large"@ {
        1550
    } else {
        0
    }
}

pub fn coreml_size_mb(size: &str) -> (r: u32)
    ensures
        r == coreml_mb(size@),
{
    if same_text(size, "tiny") {
        42
    } else if same_text(size, "base") {
        78
    } else if same_text(size, "small") {
        244
    } else if same_text(size, "medium") {
        776
    } else if same_text(size, "large") {
        1550
    } else {
        0
    }
}

/// The same size in bytes, as the download fallback uses it.
pub fn coreml_size_bytes(size: &str) -> (r: u64)
    ensures
        r == coreml_mb(size@) * 1_000_000,
{
    coreml_size_mb(size) as u64 * 1_000_000
}

/// Where a model's weights are downloaded from.
pub open spec fn download_url(size: Seq<char>) -> Seq<char> {
    if size == "distil-large-v3.5"@ {
        "https://huggingface.co/distil-whisper/distil-large-v3.5-ggml/resolve/main/ggml-model.bin"@
    } else {
        "https://huggingface.co/ggerganov/whisper.cpp/resolve/main/"@ + model_filename(size)
    }
}

pub fn get_model_download_url(size: &str) -> (r: String)
    ensures
        r@ == download_url(size@),
{
    if same_text(size, "distil-large-v3.5") {
        return "https://huggingface.co/distil-whisper/distil-large-v3.5-ggml/resolve/main/ggml-model.bin".to_string();
    }
    let mut r = "https://huggingface.co/ggerganov/whisper.cpp/resolve/main/".to_string();
    let f = get_model_filename(size);
    r.append(f.as_str());
    r
}

/// A pruned decoder of four layers.
pub fn is_turbo_model(model_size: &str) -> (r: bool)
    ensures
        r == has_infix(model_size@, "turbo"@),
{
    contains_text(model_size, "turbo")
}

/// A distilled decoder of two layers.
pub fn is_distil_model(model_size: &str) -> (r: bool)
    ensures
        r == has_infix(model_size@, "distil"@),
{
    contains_text(model_size, "distil")
}

/// Models whose small decoder tolerates the aggressive settings.
pub open spec fn lightweight(model_size: Seq<char>) -> bool {
    has_infix(model_size, "turbo"@) || has_infix(model_size, "distil"@)
}

pub fn is_lightweight_decoder(model_size: &str) -> (r: bool)
    ensures
        r == lightweight(model_size@),
{
    is_turbo_model(model_size) || is_distil_model(model_size)
}

/// Encoder context for `n` samples: proportional to the duration (1500
/// frames per 30 s), plus 128, rounded up to a multiple of 256, kept within
/// 768..=1500.
pub open spec fn audio_ctx_for(n: nat) -> int {
    let c = (n + 319) as int / 320 + 128;
    let r = (c + 255) / 256 * 256;
    if r < 768 {
        768
    } else if r > 1500 {
        1500
    } else {
        r
    }
}

/// Decoding settings of one batch inference. Thresholds are in fixed
/// point: percent for the no-speech probability, tenths for entropy, log
/// probability and temperature.
pub struct DecodingParams {
    /// Encoder context in frames; 0 keeps the full window.
    pub audio_ctx: u32,
    pub single_segment: bool,
    pub no_speech_thold_pct: u32,
    pub entropy_thold_tenths: u32,
    pub logprob_thold_tenths: i32,
    pub temperature_tenths: u32,
    pub temperature_inc_tenths: u32,
    pub no_timestamps: bool,
    pub suppress_blank: bool,
    pub max_tokens: u32,
    /// Language hint; `None` lets the model detect it.
    pub language: Option<String>,
}

/// The decoding settings for a model, its accelerator, the audio length and
/// the language setting. A fixed-shape accelerated encoder, and a full-size
/// decoder, keep the full window; thresholds are tighter for full-size
/// decoders.
pub fn decoding_params(
    model_size: &str,
    has_coreml: bool,
    n_samples: usize,
    language: &Option<String>,
) -> (r: DecodingParams)
    ensures
        r.audio_ctx == (if has_coreml || !lightweight(model_size@) {
            0
        } else {
            audio_ctx_for(n_samples as nat)
        }),
        r.single_segment == lightweight(model_size@),
        r.no_speech_thold_pct == (if lightweight(model_size@) { 60int } else { 50int }),
        r.entropy_thold_tenths == (if lightweight(model_size@) { 24int } else { 22int }),
        r.logprob_thold_tenths == (if lightweight(model_size@) { -10int } else { -8int }),
        r.temperature_tenths == 0,
        r.temperature_inc_tenths == 2,
        r.no_timestamps,
        r.suppress_blank,
        r.max_tokens == 128,
        match language {
            Some(l) => if l@ == "auto"@ {
                r.language is None
            } else {
                r.language is Some && r.language->Some_0@ == l@
            },
            None => r.language is None,
        },
{
    let light = is_lightweight_decoder(model_size);
    let audio_ctx: u32 = if has_coreml || !light {
        0
    } else {
        let c = n_samples / 320 + if n_samples % 320 == 0 {
            0
        } else {
            1
        };
        assert(c == (n_samples + 319) as int / 320);
        let c = if c > 1500 {
            1500
        } else {
            c
        };
        let r = (c + 128 + 255) / 256 * 256;
        let r = if r < 768 {
            768
        } else if r > 1500 {
            1500
        } else {
            r
        };
        r as u32
    };
    let lang = match language {
        Some(l) => {
            if same_text(l.as_str(), "auto") {
                None
            } else {
                Some(l.as_str().to_string())
            }
        },
        None => None,
    };
    DecodingParams {
        audio_ctx,
        single_segment: light,
        no_speech_thold_pct: if light {
            60
        } else {
            50
        },
        entropy_thold_tenths: if light {
            24
        } else {
            22
        },
        logprob_thold_tenths: if light {
            -10
        } else {
            -8
        },
        temperature_tenths: 0,
        temperature_inc_tenths: 2,
        no_timestamps: true,
        suppress_blank: true,
        max_tokens: 128,
        language: lang,
    }
}


/// Stock phrases that the model produces from silence or noise.
pub open spec fn stock_phrases() -> Seq<Seq<char>> {
    seq![
        "thank you"@,
        "thanks for watching"@,
        "thanks for listening"@,
        "thank you for watching"@,
        "thank you for listening"@,
        "please subscribe"@,
        "like and subscribe"@,
        "subtitles by"@,
        "transcribed by"@,
        "copyright"@,
        "the end"@,
        "you"@,
    ]
}

/// Number of stock phrases.
pub const N_STOCK_PHRASES: usize = 12;

fn stock_phrase(i: usize) -> (r: &'static str)
    requires
        i < N_STOCK_PHRASES,
    ensures
        r@ == stock_phrases()[i as int],
{
    match i {
        0 => "thank you",
        1 => "thanks for watching",
        2 => "thanks for listening",
        3 => "thank you for watching",
        4 => "thank you for listening",
        5 => "please subscribe",
        6 => "like and subscribe",
        7 => "subtitles by",
        8 => "transcribed by",
        9 => "copyright",
        10 => "the end",
        _ => "you",
    }
}

/// Whether a normalised text is a stock phrase, alone or followed by `.`
/// or `!`.
pub open spec fn is_stock_phrase(n: Seq<char>) -> bool {
    exists|i: int|
        0 <= i < stock_phrases().len() && (n == #[trigger] stock_phrases()[i] || n
            == stock_phrases()[i] + "."@ || n == stock_phrases()[i] + "!"@)
}

/// A text that, trimmed and lower-cased, is a stock phrase. Empty text is
/// not a hallucination.
pub open spec fn hallucination(text: Seq<char>) -> bool {
    let t = trim(text);
    t.len() > 0 && is_stock_phrase(lower_of(t))
}

pub fn is_likely_hallucination(text: &str) -> (r: bool)
    ensures
        r == hallucination(text@),
{
    let t = trim_text(text);
    if t.as_str().is_empty() {
        return false;
    }
    let normalized = to_lowercase(t.as_str());
    let mut i: usize = 0;
    while i < N_STOCK_PHRASES
        invariant
            i <= N_STOCK_PHRASES,
            t@ == trim(text@),
            t@.len() > 0,
            normalized@ == lower_of(trim(text@)),
            forall|k: int|
                0 <= k < i ==> !(normalized@ == #[trigger] stock_phrases()[k] || normalized@
                    == stock_phrases()[k] + "."@ || normalized@ == stock_phrases()[k] + "!"@),
        decreases N_STOCK_PHRASES - i,
    {
        let p = stock_phrase(i);
        let plain = p.to_string();
        let mut dot = p.to_string();
        dot.append(".");
        let mut bang = p.to_string();
        bang.append("!");
        assert(plain@ == stock_phrases()[i as int]);
        assert(dot@ == stock_phrases()[i as int] + "."@);
        assert(bang@ == stock_phrases()[i as int] + "!"@);
        if normalized == plain || normalized == dot || normalized == bang {
            assert(is_stock_phrase(normalized@));
            return true;
        }
        i = i + 1;
    }
    false
}

/// What transcription reports for raw model text: the text trimmed, or
/// nothing when it is a stock hallucination.
pub open spec fn finished_text(raw: Seq<char>) -> Seq<char> {
    if hallucination(trim(raw)) {
        Seq::empty()
    } else {
        trim(raw)
    }
}

/// Join the model's segment texts, trim the result, and suppress a stock
/// hallucination to empty text.
pub fn finish_transcript(segments: &Vec<String>) -> (r: String)
    ensures
        r@ == finished_text(concat_all(segments@)),
{
    let mut text = String::new();
    let mut i: usize = 0;
    while i < segments.len()
        invariant
            i <= segments@.len(),
            text@ == concat_all(segments@.subrange(0, i as int)),
        decreases segments@.len() - i,
    {
        text.append(segments[i].as_str());
        assert(segments@.subrange(0, i + 1).drop_last() =~= segments@.subrange(0, i as int));
        i = i + 1;
    }
    assert(segments@.subrange(0, segments@.len() as int) =~= segments@);
    let result = trim_text(text.as_str());
    if is_likely_hallucination(result.as_str()) {
        String::new()
    } else {
        result
    }
}

/// The texts one after another.
pub open spec fn concat_all(parts: Seq<String>) -> Seq<char>
    decreases parts.len(),
{
    if parts.len() == 0 {
        Seq::empty()
    } else {
        concat_all(parts.drop_last()) + parts.last()@
    }
}

/// Transcription never reports a stock hallucination: what it reports is
/// either empty or, trimmed and lower-cased, no stock phrase.
pub proof fn lemma_no_hallucination_surfaces(raw: Seq<char>)
    ensures
        !hallucination(finished_text(raw)),
        hallucination(trim(raw)) ==> finished_text(raw).len() == 0,
{
    crate::chars::lemma_trim_idempotent(raw);
    if hallucination(trim(raw)) {
        let e = Seq::<char>::empty();
        assert(trim_start(e) =~= e);
        assert(trim(e) =~= e);
    }
}


/// Shortest speech worth transcribing: 0.5 s at 16 kHz.
pub const MIN_SPEECH_SAMPLES: usize = 8000;

/// Silence after the last speech segment that completes an utterance: 0.5 s.
pub const MIN_SILENCE_GAP_SAMPLES: usize = 8000;

/// Audio gathered before the detector is run: 1 s.
pub const MIN_VAD_SAMPLES: usize = 16000;

/// Poll interval of the utterance monitor.
pub const CHECK_INTERVAL_MS: u64 = 300;

/// The part of `window` that a detected segment covers, its end clamped to
/// the window; empty when the segment is empty.
pub open spec fn span_of(window: Seq<i16>, seg: (usize, usize)) -> Seq<i16> {
    let e = vstd::math::min(seg.1 as int, window.len() as int);
    if (seg.0 as int) < e {
        window.subrange(seg.0 as int, e)
    } else {
        Seq::empty()
    }
}

/// The detected speech spans of `window`, one after another.
pub open spec fn speech_of(window: Seq<i16>, segs: Seq<(usize, usize)>) -> Seq<i16>
    decreases segs.len(),
{
    if segs.len() == 0 {
        Seq::empty()
    } else {
        speech_of(window, segs.drop_last()) + span_of(window, segs.last())
    }
}

/// Concatenate the speech spans that the detector reported, as sample
/// offsets into `window`.
pub fn extract_speech(window: &[i16], segments: &Vec<(usize, usize)>) -> (r: Vec<i16>)
    ensures
        r@ == speech_of(window@, segments@),
{
    let mut out: Vec<i16> = Vec::new();
    let mut i: usize = 0;
    while i < segments.len()
        invariant
            i <= segments@.len(),
            out@ == speech_of(window@, segments@.subrange(0, i as int)),
        decreases segments@.len() - i,
    {
        let (a, b) = segments[i];
        let e = if b < window.len() {
            b
        } else {
            window.len()
        };
        assert(segments@.subrange(0, i + 1).drop_last() =~= segments@.subrange(0, i as int));
        if a < e {
            out.extend_from_slice(vstd::slice::slice_subrange(window, a, e));
        }
        assert(out@ =~= speech_of(window@, segments@.subrange(0, i + 1)));
        i = i + 1;
    }
    assert(segments@.subrange(0, segments@.len() as int) =~= segments@);
    out
}

/// Whether extracted speech is kept: long enough, and not so short that
/// more than 80% of the audio would be dropped.
pub open spec fn speech_kept(speech_len: nat, window_len: nat) -> bool {
    speech_len >= MIN_SPEECH_SAMPLES && speech_len * 5 >= window_len
}

/// What the batch speech filter hands to inference: the detected speech, or
/// the audio unchanged when the detector is unavailable or failed, found
/// nothing, or the speech fails the guards.
pub open spec fn filtered(samples: Seq<i16>, segments: Option<Vec<(usize, usize)>>) -> Seq<i16> {
    match segments {
        None => samples,
        Some(sg) => {
            let sp = speech_of(samples, sg@);
            if sg@.len() > 0 && speech_kept(sp.len(), samples.len()) {
                sp
            } else {
                samples
            }
        },
    }
}

/// Strip non-speech audio before inference, given the detector's speech
/// segments (`None` when it could not run).
pub fn vad_filter_speech(samples: &[i16], segments: Option<Vec<(usize, usize)>>) -> (r: Vec<i16>)
    ensures
        r@ == filtered(samples@, segments),
{
    match segments {
        None => slice_to_vec(samples),
        Some(sg) => {
            if sg.len() == 0 {
                return slice_to_vec(samples);
            }
            let sp = extract_speech(samples, &sg);
            if sp.len() >= MIN_SPEECH_SAMPLES && sp.len() as u128 * 5 >= samples.len() as u128 {
                sp
            } else {
                slice_to_vec(samples)
            }
        },
    }
}

/// An utterance ready for transcription: the samples to transcribe and how
/// much of the pending window it consumes.
pub struct Utterance {
    pub samples: Vec<i16>,
    pub clear_to: usize,
}

/// The complete utterance in a pending window, if any: the last segment must
/// be followed by at least `MIN_SILENCE_GAP_SAMPLES` of audio, and its speech
/// must be long enough. The window up to the last segment's end is consumed;
/// its speech spans are transcribed, or all of it when they would drop more
/// than 80% of it.
pub open spec fn utterance_of(pending: Seq<i16>, segs: Seq<(usize, usize)>) -> Option<(Seq<i16>, nat)> {
    if segs.len() == 0 {
        None
    } else {
        let last_end = segs.last().1 as int;
        let sp = speech_of(pending, segs);
        if pending.len() < last_end + MIN_SILENCE_GAP_SAMPLES || sp.len() < MIN_SPEECH_SAMPLES {
            None
        } else if sp.len() * 5 < last_end {
            Some((pending.subrange(0, last_end), last_end as nat))
        } else {
            Some((sp, last_end as nat))
        }
    }
}

/// Source positions of the transcribed spans tile `0..c` with no gap and no
/// overlap.
pub open spec fn covers(spans: Seq<(int, int)>, c: int) -> bool
    decreases spans.len(),
{
    if spans.len() == 0 {
        c == 0
    } else {
        spans.last().1 == c && spans.last().0 <= c && covers(spans.drop_last(), spans.last().0)
    }
}

/// The audio of each span, one after another.
pub open spec fn spans_audio(audio: Seq<i16>, spans: Seq<(int, int)>) -> Seq<i16>
    decreases spans.len(),
{
    if spans.len() == 0 {
        Seq::empty()
    } else {
        spans_audio(audio, spans.drop_last()) + audio.subrange(spans.last().0, spans.last().1)
    }
}

proof fn lemma_spans_prefix(audio: Seq<i16>, spans: Seq<(int, int)>, c: int)
    requires
        covers(spans, c),
        c <= audio.len(),
    ensures
        spans_audio(audio, spans) == audio.subrange(0, c),
    decreases spans.len(),
{
    if spans.len() == 0 {
        assert(audio.subrange(0, 0) =~= Seq::<i16>::empty());
    } else {
        let (a, b) = spans.last();
        lemma_covers_nonneg(spans.drop_last(), a);
        lemma_spans_prefix(audio, spans.drop_last(), a);
        assert(audio.subrange(0, a) + audio.subrange(a, b) =~= audio.subrange(0, c));
    }
}

proof fn lemma_covers_nonneg(spans: Seq<(int, int)>, c: int)
    requires
        covers(spans, c),
    ensures
        c >= 0,
    decreases spans.len(),
{
    if spans.len() > 0 {
        lemma_covers_nonneg(spans.drop_last(), spans.last().0);
    }
}

/// The audio of the streamed fragments' source spans, followed by the tail
/// from the consumed cursor on, is the session's whole audio: no gap and no
/// overlap between fragments, or between them and the tail.
pub proof fn lemma_stream_tail_partition(audio: Seq<i16>, spans: Seq<(int, int)>, consumed: int)
    requires
        covers(spans, consumed),
        consumed <= audio.len(),
    ensures
        spans_audio(audio, spans) + audio.subrange(consumed, audio.len() as int) == audio,
{
    lemma_covers_nonneg(spans, consumed);
    lemma_spans_prefix(audio, spans, consumed);
    assert(audio.subrange(0, consumed) + audio.subrange(consumed, audio.len() as int) =~= audio);
}

/// State of the utterance monitor of one session.
pub struct VadMonitor {
    /// Next position to read in the 16 kHz store.
    pub abs_position: usize,
    /// Audio read but not yet consumed.
    pub pending_audio: Vec<i16>,
    /// Position of `pending_audio[0]` in the store.
    pub pending_start: usize,
    /// Text of the transcribed utterances, in order.
    pub results: Vec<String>,
    /// Samples from the start of the store that have been transcribed.
    pub consumed: usize,
    /// Everything read from the store so far.
    pub seen: Ghost<Seq<i16>>,
    /// Source span of each consumed utterance.
    pub spans: Ghost<Seq<(int, int)>>,
}

impl VadMonitor {
    pub open spec fn wf(&self) -> bool {
        &&& self.abs_position == self.seen@.len()
        &&& self.pending_start <= self.abs_position
        &&& self.pending_audio@ == self.seen@.subrange(
            self.pending_start as int,
            self.abs_position as int,
        )
        &&& self.consumed == self.pending_start
        &&& covers(self.spans@, self.consumed as int)
    }

    /// A monitor at the start of a session.
    pub open spec fn is_fresh(&self) -> bool {
        &&& self.abs_position == 0
        &&& self.pending_audio@ == Seq::<i16>::empty()
        &&& self.results@ == Seq::<String>::empty()
        &&& self.consumed == 0
        &&& self.seen@ == Seq::<i16>::empty()
    }

    pub fn new() -> (r: Self)
        ensures
            r.wf(),
            r.is_fresh(),
    {
        let r = VadMonitor {
            abs_position: 0,
            pending_audio: Vec::new(),
            pending_start: 0,
            results: Vec::new(),
            consumed: 0,
            seen: Ghost(Seq::empty()),
            spans: Ghost(Seq::empty()),
        };
        assert(r.pending_audio@ =~= r.seen@.subrange(0, 0));
        r
    }

    /// Take in a snapshot of the store: the samples from `abs_position` on,
    /// and the store's length.
    pub fn absorb(&mut self, new_samples: &[i16], new_len: usize)
        requires
            old(self).wf(),
            new_len == old(self).abs_position + new_samples@.len(),
        ensures
            final(self).wf(),
            final(self).seen@ == old(self).seen@ + new_samples@,
            final(self).consumed == old(self).consumed,
            final(self).results == old(self).results,
            final(self).spans == old(self).spans,
            final(self).pending_audio@ == old(self).pending_audio@ + new_samples@,
    {
        self.pending_audio.extend_from_slice(new_samples);
        self.abs_position = new_len;
        self.seen = Ghost(old(self).seen@ + new_samples@);
        assert(self.pending_audio@ =~= self.seen@.subrange(
            self.pending_start as int,
            self.abs_position as int,
        ));
    }

    /// Whether too little audio is pending for the detector.
    pub fn needs_more_audio(&self) -> (r: bool)
        ensures
            r == (self.pending_audio@.len() < MIN_VAD_SAMPLES),
    {
        self.pending_audio.len() < MIN_VAD_SAMPLES
    }

    /// The complete utterance in the pending window, given the detector's
    /// speech segments as sample offsets into that window.
    pub fn detect_utterance(&self, segments: &Vec<(usize, usize)>) -> (r: Option<Utterance>)
        ensures
            match utterance_of(self.pending_audio@, segments@) {
                None => r is None,
                Some((sm, c)) => r is Some && r->Some_0.samples@ == sm && r->Some_0.clear_to == c,
            },
    {
        let n = segments.len();
        if n == 0 {
            return None;
        }
        let last_end = segments[n - 1].1;
        let plen = self.pending_audio.len();
        if plen < MIN_SILENCE_GAP_SAMPLES || plen - MIN_SILENCE_GAP_SAMPLES < last_end {
            return None;
        }
        let sp = extract_speech(self.pending_audio.as_slice(), segments);
        if sp.len() < MIN_SPEECH_SAMPLES {
            return None;
        }
        if (sp.len() as u128) * 5 < last_end as u128 {
            let window = slice_to_vec(
                vstd::slice::slice_subrange(self.pending_audio.as_slice(), 0, last_end),
            );
            Some(Utterance { samples: window, clear_to: last_end })
        } else {
            Some(Utterance { samples: sp, clear_to: last_end })
        }
    }

    /// Record a transcribed utterance: its text joins the results unless it
    /// is empty or transcription failed (`None`), and the cursor moves past
    /// the consumed part of the window.
    pub fn commit(&mut self, clear_to: usize, text: Option<String>)
        requires
            old(self).wf(),
            clear_to <= old(self).pending_audio@.len(),
        ensures
            final(self).wf(),
            final(self).consumed == old(self).consumed + clear_to,
            final(self).seen == old(self).seen,
            final(self).spans@ == old(self).spans@.push(
                (old(self).consumed as int, old(self).consumed + clear_to),
            ),
            final(self).pending_audio@ == old(self).pending_audio@.subrange(
                clear_to as int,
                old(self).pending_audio@.len() as int,
            ),
            match text {
                Some(t) if t@.len() > 0 => final(self).results@ == old(self).results@.push(t),
                _ => final(self).results@ == old(self).results@,
            },
    {
        match text {
            Some(t) => {
                if !t.as_str().is_empty() {
                    self.results.push(t);
                }
            },
            None => {},
        }
        let rest = self.pending_audio.split_off(clear_to);
        self.pending_audio = rest;
        self.pending_start = self.pending_start + clear_to;
        self.consumed = self.pending_start;
        self.spans = Ghost(
            old(self).spans@.push((old(self).consumed as int, old(self).consumed + clear_to)),
        );
        assert(self.spans@.drop_last() =~= old(self).spans@);
        assert(self.pending_audio@ =~= self.seen@.subrange(
            self.pending_start as int,
            self.abs_position as int,
        ));
    }

}

/// The utterance monitor's cursor only moves forward, and every consumed
/// span starts where the previous one ended.
pub proof fn lemma_commit_extends_partition(spans: Seq<(int, int)>, consumed: int, clear_to: nat)
    requires
        covers(spans, consumed),
    ensures
        covers(spans.push((consumed, consumed + clear_to)), consumed + clear_to),
{
    assert(spans.push((consumed, consumed + clear_to)).drop_last() =~= spans);
}

/// A window in which the detector found less than `MIN_SPEECH_SAMPLES` of
/// speech (silence, in particular) never yields an utterance.
pub proof fn lemma_no_speech_no_utterance(pending: Seq<i16>, segs: Seq<(usize, usize)>)
    requires
        speech_of(pending, segs).len() < MIN_SPEECH_SAMPLES,
    ensures
        utterance_of(pending, segs) is None,
{
}

/// When the speech spans would drop more than 80% of the audio, the batch
/// filter hands over the audio untrimmed; the monitor does the same for the
/// window it consumes, up to the end of the last segment.
pub proof fn lemma_trim_guard(samples: Seq<i16>, segs: Vec<(usize, usize)>)
    requires
        speech_of(samples, segs@).len() * 5 < samples.len(),
    ensures
        filtered(samples, Some(segs)) == samples,
        segs@.len() > 0 && speech_of(samples, segs@).len() * 5 < segs@.last().1 ==> (utterance_of(
            samples,
            segs@,
        ) matches Some((sm, c)) ==> sm == samples.subrange(0, c as int)),
{
}


/// End the session's monitoring: hand over the results and the consumed
/// sample count, and start afresh.
pub fn stop_streaming(monitor: &mut VadMonitor) -> (r: (Vec<String>, usize))
    requires
        old(monitor).wf(),
    ensures
        final(monitor).wf(),
        final(monitor).is_fresh(),
        r.0@ == old(monitor).results@,
        r.1 == old(monitor).consumed,
{
    let mut results: Vec<String> = Vec::new();
    std::mem::swap(&mut results, &mut monitor.results);
    let consumed = monitor.consumed;
    *monitor = VadMonitor::new();
    (results, consumed)
}

/// Settings of a streaming session.
pub struct StreamingConfig {
    pub model_size: String,
    pub language: Option<String>,
}

/// Begin a session's utterance monitor: its state starts afresh, and it
/// runs only when both the detector's model and the speech model are present.
pub fn start_streaming(
    monitor: &mut VadMonitor,
    config: &StreamingConfig,
    vad_model_present: bool,
    model_present: bool,
) -> (r: bool)
    ensures
        final(monitor).wf(),
        final(monitor).is_fresh(),
        r == (vad_model_present && model_present),
{
    *monitor = VadMonitor::new();
    vad_model_present && model_present
}

/// What preloading a model asks for: `Ok(true)` when the slot must be
/// (re)loaded, `Ok(false)` when it already holds the model, an error when
/// the model is not present.
pub fn preload_model<C>(cache: &ModelSlot<C>, model_size: &str, model_present: bool) -> (r: Result<
    bool,
    WhisperError,
>)
    ensures
        !model_present ==> r is Err && r->Err_0 is ModelNotFound,
        model_present ==> r == Ok::<bool, WhisperError>(
            cache.context is None || cache.model_size@ != model_size@,
        ),
{
    if !model_present {
        let mut msg = "Model '".to_string();
        msg.append(model_size);
        msg.append("' not found");
        return Err(WhisperError::ModelNotFound(msg));
    }
    Ok(cache.needs_load(model_size))
}

/// Accelerated-encoder support, from the platform: compiled and supported
/// on macOS, best on Apple Silicon.
pub fn get_coreml_status(is_macos: bool, is_aarch64: bool) -> (r: CoremlStatus)
    ensures
        r.compiled == is_macos,
        r.supported == is_macos,
        r.apple_silicon == (is_macos && is_aarch64),
{
    CoremlStatus { compiled: is_macos, supported: is_macos, apple_silicon: is_macos && is_aarch64 }
}

/// GPU decoding support, from the platform: macOS only.
pub fn get_metal_status(is_macos: bool) -> (r: MetalStatus)
    ensures
        r.compiled == is_macos,
        r.supported == is_macos,
{
    MetalStatus { compiled: is_macos, supported: is_macos }
}

/// Number of models in the catalogue.
pub const N_MODELS: usize = 9;

/// Identifier, display name and size in megabytes of each catalogue entry.
pub open spec fn catalog(i: int) -> (Seq<char>, Seq<char>, u32) {
    if i == 0 {
        ("tiny"@, "Tiny"@, 75)
    } else if i == 1 {
        ("base"@, "Base"@, 142)
    } else if i == 2 {
        ("small"@, "Small"@, 466)
    } else if i == 3 {
        ("medium"@, "Medium"@, 1500)
    } else if i == 4 {
        ("large"@, "Large v3"@, 2900)
    } else if i == 5 {
        ("large-v3-turbo"@, "Large v3 Turbo"@, 1500)
    } else if i == 6 {
        ("large-v3-turbo-q5_0"@, "Large v3 Turbo Q5"@, 547)
    } else if i == 7 {
        ("large-v3-q5_0"@, "Large v3 Q5"@, 1100)
    } else {
        ("distil-large-v3.5"@, "Distil Large v3.5"@, 756)
    }
}

fn catalog_entry(i: usize) -> (r: (&'static str, &'static str, u32))
    requires
        i < N_MODELS,
    ensures
        r.0@ == catalog(i as int).0,
        r.1@ == catalog(i as int).1,
        r.2 == catalog(i as int).2,
{
    match i {
        0 => ("tiny", "Tiny", 75),
        1 => ("base", "Base", 142),
        2 => ("small", "Small", 466),
        3 => ("medium", "Medium", 1500),
        4 => ("large", "Large v3", 2900),
        5 => ("large-v3-turbo", "Large v3 Turbo", 1500),
        6 => ("large-v3-turbo-q5_0", "Large v3 Turbo Q5", 547),
        7 => ("large-v3-q5_0", "Large v3 Q5", 1100),
        _ => ("distil-large-v3.5", "Distil Large v3.5", 756),
    }
}

/// The model catalogue, given the files and the directories of the models
/// directory. Only the first five models have accelerated encoders.
pub fn get_available_models(model_files: &Vec<String>, model_dirs: &Vec<String>) -> (r: Vec<
    ModelInfo,
>)
    ensures
        r@.len() == N_MODELS,
        forall|i: int|
            0 <= i < N_MODELS ==> {
                let (id, name, mb) = catalog(i);
                &&& (#[trigger] r@[i]).id@ == id
                &&& r@[i].name@ == name
                &&& r@[i].size_mb == mb
                &&& r@[i].downloaded == listed(model_files@, model_filename(id))
                &&& r@[i].coreml_downloaded == (i < 5 && listed(model_dirs@, encoder_name(id)))
                &&& r@[i].coreml_size_mb == coreml_mb(id)
            },
{
    let mut v: Vec<ModelInfo> = Vec::new();
    let mut i: usize = 0;
    while i < N_MODELS
        invariant
            i <= N_MODELS,
            v@.len() == i,
            forall|k: int|
                0 <= k < i ==> {
                    let (id, name, mb) = catalog(k);
                    &&& (#[trigger] v@[k]).id@ == id
                    &&& v@[k].name@ == name
                    &&& v@[k].size_mb == mb
                    &&& v@[k].downloaded == listed(model_files@, model_filename(id))
                    &&& v@[k].coreml_downloaded == (k < 5 && listed(model_dirs@, encoder_name(id)))
                    &&& v@[k].coreml_size_mb == coreml_mb(id)
                },
        decreases N_MODELS - i,
    {
        let (id, name, mb) = catalog_entry(i);
        let file = get_model_filename(id);
        let downloaded = is_listed(model_files, &file);
        let coreml_downloaded = if i < 5 {
            is_coreml_downloaded(id, model_dirs)
        } else {
            false
        };
        v.push(
            ModelInfo {
                id: id.to_string(),
                name: name.to_string(),
                size_mb: mb,
                downloaded,
                coreml_downloaded,
                coreml_size_mb: coreml_size_mb(id),
            },
        );
        i = i + 1;
    }
    v
}

} // verus!
