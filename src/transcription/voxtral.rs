//! Native-incremental engine: model presence and cache decisions, and the
//! bookkeeping of a streaming session that feeds all captured audio and
//! drains tokens, with a stop cutoff.

use vstd::prelude::*;
use crate::chars::{trim, trim_text};
use crate::transcription::{ModelInfo, ModelSlot, VoxtralStatus};
use crate::transcription::whisper::{concat_all, is_listed, listed};

verus! {

/// Errors of the native-incremental engine.
pub enum VoxtralError {
    ModelNotFound(String),
    DownloadError(String),
    TranscriptionError(String),
    IoError(String),
}

/// Consumed-sample count meaning that streaming took all audio and no tail
/// is left to transcribe.
pub const ALL_CONSUMED: usize = usize::MAX;

/// Size of the model files, in megabytes.
pub const MODEL_SIZE_MB: u32 = 8900;

/// Default decoder delay in milliseconds.
pub const DEFAULT_DELAY_MS: i32 = 480;

/// Files that make up the model.
pub open spec fn model_files() -> Seq<Seq<char>> {
    seq!["consolidated.safetensors"@, "tekken.json"@, "params.json"@]
}

fn model_file(i: usize) -> (r: String)
    requires
        i < 3,
    ensures
        r@ == model_files()[i as int],
{
    match i {
        0 => "consolidated.safetensors".to_string(),
        1 => "tekken.json".to_string(),
        _ => "params.json".to_string(),
    }
}

/// Whether every model file is among the files of the model directory.
pub open spec fn downloaded(files: Seq<String>) -> bool {
    forall|i: int| 0 <= i < 3 ==> listed(files, #[trigger] model_files()[i])
}

pub fn is_model_downloaded(model_dir_files: &Vec<String>) -> (r: bool)
    ensures
        r == downloaded(model_dir_files@),
{
    let mut i: usize = 0;
    while i < 3
        invariant
            i <= 3,
            forall|k: int| 0 <= k < i ==> listed(model_dir_files@, #[trigger] model_files()[k]),
        decreases 3 - i,
    {
        let name = model_file(i);
        if !is_listed(model_dir_files, &name) {
            return false;
        }
        i = i + 1;
    }
    true
}

/// The engine's status, given the model directory's files, whether the
/// model is loaded and whether GPU decoding is available.
pub fn get_status(model_dir_files: &Vec<String>, model_loaded: bool, metal: bool) -> (r:
    VoxtralStatus)
    ensures
        r.compiled,
        r.metal == metal,
        r.model_downloaded == downloaded(model_dir_files@),
        r.model_loaded == model_loaded,
{
    VoxtralStatus {
        compiled: true,
        metal,
        model_downloaded: is_model_downloaded(model_dir_files),
        model_loaded,
    }
}

/// The one model of this engine.
pub fn get_available_models(model_dir_files: &Vec<String>) -> (r: Vec<ModelInfo>)
    ensures
        r@.len() == 1,
        r@[0].id@ == "voxtral-mini-4b"@,
        r@[0].name@ == "Voxtral Mini 4B Realtime 2602"@,
        r@[0].size_mb == MODEL_SIZE_MB,
        r@[0].downloaded == downloaded(model_dir_files@),
        !r@[0].coreml_downloaded,
        r@[0].coreml_size_mb == 0,
{
    let downloaded = is_model_downloaded(model_dir_files);
    let mut v: Vec<ModelInfo> = Vec::new();
    v.push(
        ModelInfo {
            id: "voxtral-mini-4b".to_string(),
            name: "Voxtral Mini 4B Realtime 2602".to_string(),
            size_mb: MODEL_SIZE_MB,
            downloaded,
            coreml_downloaded: false,
            coreml_size_mb: 0,
        },
    );
    v
}

/// What preloading asks for: `Ok(true)` when the model must be loaded,
/// `Ok(false)` when it already is, an error when it is not downloaded.
pub fn preload_model<C>(cache: &ModelSlot<C>, model_downloaded: bool) -> (r: Result<
    bool,
    VoxtralError,
>)
    ensures
        !model_downloaded ==> r is Err && r->Err_0 is ModelNotFound,
        model_downloaded ==> r == Ok::<bool, VoxtralError>(cache.context is None),
{
    if !model_downloaded {
        return Err(VoxtralError::ModelNotFound("Voxtral model not downloaded".to_string()));
    }
    Ok(cache.context.is_none())
}

/// Free the loaded model.
pub fn unload_model<C>(cache: &mut ModelSlot<C>)
    ensures
        final(cache).context is None,
{
    cache.clear();
}

/// The loaded model, or an error when none is loaded.
pub fn get_cached_context<C>(cache: &ModelSlot<C>) -> (r: Result<&C, VoxtralError>)
    ensures
        match cache.context {
            Some(c) => r == Ok::<&C, VoxtralError>(&c),
            None => r is Err && r->Err_0 is TranscriptionError,
        },
{
    match cache.context() {
        Some(c) => Ok(c),
        None => Err(VoxtralError::TranscriptionError("Voxtral model not loaded".to_string())),
    }
}

/// Settings of a streaming session.
pub struct StreamingConfig {
    pub delay_ms: i32,
}

/// Bookkeeping of one native streaming session.
pub struct VoxtralStream {
    /// Next position to read in the 16 kHz store.
    pub abs_position: usize,
    /// Text drained from the engine, in order.
    pub results: Vec<String>,
    /// Whether a streaming session was started.
    pub running: bool,
    /// Length of the 16 kHz store when stop was requested.
    pub stop_cutoff: usize,
}

impl VoxtralStream {
    pub fn new() -> (r: Self)
        ensures
            r.abs_position == 0,
            r.results@ == Seq::<String>::empty(),
            !r.running,
            r.stop_cutoff == 0,
    {
        VoxtralStream { abs_position: 0, results: Vec::new(), running: false, stop_cutoff: 0 }
    }

    /// Record that the samples up to `new_len` were fed to the engine.
    pub fn advance(&mut self, new_len: usize)
        requires
            new_len >= old(self).abs_position,
        ensures
            final(self).abs_position == new_len,
            final(self).results == old(self).results,
            final(self).running == old(self).running,
            final(self).stop_cutoff == old(self).stop_cutoff,
    {
        self.abs_position = new_len;
    }

    /// Add drained tokens: their concatenation joins the results unless it
    /// is only white space.
    pub fn push_tokens(&mut self, tokens: &Vec<String>)
        ensures
            final(self).abs_position == old(self).abs_position,
            final(self).running == old(self).running,
            final(self).stop_cutoff == old(self).stop_cutoff,
            if trim(concat_all(tokens@)).len() > 0 {
                final(self).results@.len() == old(self).results@.len() + 1
                    && final(self).results@.drop_last() == old(self).results@
                    && final(self).results@.last()@ == concat_all(tokens@)
            } else {
                final(self).results@ == old(self).results@
            },
    {
        let mut text = String::new();
        let mut i: usize = 0;
        while i < tokens.len()
            invariant
                i <= tokens@.len(),
                text@ == concat_all(tokens@.subrange(0, i as int)),
            decreases tokens@.len() - i,
        {
            text.append(tokens[i].as_str());
            assert(tokens@.subrange(0, i + 1).drop_last() =~= tokens@.subrange(0, i as int));
            i = i + 1;
        }
        assert(tokens@.subrange(0, tokens@.len() as int) =~= tokens@);
        let t = trim_text(text.as_str());
        if !t.as_str().is_empty() {
            self.results.push(text);
            assert(self.results@.drop_last() =~= old(self).results@);
        }
    }

    /// Note the store's length at the moment stop was requested: audio
    /// after it belongs to no part of this session.
    pub fn request_stop(&mut self, buffer_len: usize)
        ensures
            final(self).stop_cutoff == buffer_len,
            final(self).abs_position == old(self).abs_position,
            final(self).results == old(self).results,
            final(self).running == old(self).running,
    {
        self.stop_cutoff = buffer_len;
    }

    /// The part of the unread audio that is still to be fed after stop:
    /// nothing past the cutoff.
    pub fn final_feed<'a>(&self, remaining: &'a [i16]) -> (r: &'a [i16])
        ensures
            r@ == remaining@.subrange(
                0,
                vstd::math::min(
                    remaining@.len() as int,
                    vstd::math::max(self.stop_cutoff - self.abs_position, 0),
                ),
            ),
    {
        let limit = if self.stop_cutoff > self.abs_position {
            self.stop_cutoff - self.abs_position
        } else {
            0
        };
        if remaining.len() > limit {
            vstd::slice::slice_subrange(remaining, 0, limit)
        } else {
            assert(remaining@.subrange(0, remaining@.len() as int) =~= remaining@);
            remaining
        }
    }
}

/// Begin a streaming session: refused when the model is not downloaded or
/// not loaded. The results of an earlier session are cleared either way.
pub fn start_streaming(
    stream: &mut VoxtralStream,
    config: &StreamingConfig,
    model_downloaded: bool,
    model_loaded: bool,
) -> (r: Result<(), VoxtralError>)
    ensures
        final(stream).results@ == Seq::<String>::empty(),
        final(stream).abs_position == 0,
        !model_downloaded ==> r is Err && r->Err_0 is ModelNotFound,
        model_downloaded && !model_loaded ==> r is Err && r->Err_0 is TranscriptionError,
        r is Ok <==> model_downloaded && model_loaded,
        final(stream).running == r is Ok,
{
    *stream = VoxtralStream::new();
    if !model_downloaded {
        return Err(
            VoxtralError::ModelNotFound(
                "Voxtral model not downloaded. Please download it in Settings.".to_string(),
            ),
        );
    }
    if !model_loaded {
        return Err(VoxtralError::TranscriptionError("Voxtral model not loaded".to_string()));
    }
    stream.running = true;
    Ok(())
}

/// End streaming: the drained results, and `ALL_CONSUMED` when a session ran
/// (all audio went through the engine, no tail), 0 otherwise.
pub fn stop_streaming(stream: &mut VoxtralStream) -> (r: (Vec<String>, usize))
    ensures
        r.0@ == old(stream).results@,
        r.1 == (if old(stream).running { ALL_CONSUMED } else { 0 }),
        final(stream).results@ == Seq::<String>::empty(),
        !final(stream).running,
{
    let mut results: Vec<String> = Vec::new();
    std::mem::swap(&mut results, &mut stream.results);
    let was_running = stream.running;
    stream.running = false;
    (results, if was_running { ALL_CONSUMED } else { 0 })
}

} // verus!
