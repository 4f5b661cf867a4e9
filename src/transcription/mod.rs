//! Speech-recognition engines and the records they report.

pub mod cloud;
pub mod voxtral;
pub mod whisper;

use vstd::prelude::*;

verus! {

/// A model that can be selected.
pub struct ModelInfo {
    pub id: String,
    pub name: String,
    pub size_mb: u32,
    pub downloaded: bool,
    pub coreml_downloaded: bool,
    pub coreml_size_mb: u32,
}

/// Support for accelerated encoders on this machine.
pub struct CoremlStatus {
    /// Compiled into this build.
    pub compiled: bool,
    /// Supported by this machine.
    pub supported: bool,
    /// Running on Apple Silicon.
    pub apple_silicon: bool,
}

/// Support for GPU decoding on this machine.
pub struct MetalStatus {
    pub compiled: bool,
    pub supported: bool,
}

/// A finished transcription.
pub struct TranscriptionResult {
    pub text: String,
    pub language: Option<String>,
    pub duration_ms: u64,
}

/// State of the native-incremental engine.
pub struct VoxtralStatus {
    pub compiled: bool,
    pub metal: bool,
    pub model_downloaded: bool,
    pub model_loaded: bool,
}

impl Default for VoxtralStatus {
    fn default() -> (r: Self)
        ensures
            !r.compiled,
            !r.metal,
            !r.model_downloaded,
            !r.model_loaded,
    {
        VoxtralStatus { compiled: false, metal: false, model_downloaded: false, model_loaded: false }
    }
}

/// At most one loaded model context of an engine, with the model it holds.
/// The context is an opaque handle; callers share it cheaply and run
/// inference without holding the slot.
pub struct ModelSlot<C> {
    pub context: Option<C>,
    pub model_size: String,
}

impl<C> ModelSlot<C> {
    pub fn new() -> (r: Self)
        ensures
            r.context is None,
            r.model_size@ == Seq::<char>::empty(),
    {
        ModelSlot { context: None, model_size: String::new() }
    }

    /// Whether the slot must be (re)loaded to serve `model_size`.
    pub fn needs_load(&self, model_size: &str) -> (r: bool)
        ensures
            r == (self.context is None || self.model_size@ != model_size@),
    {
        self.context.is_none() || !crate::chars::same_text(self.model_size.as_str(), model_size)
    }

    /// Replace the slot's content wholesale.
    pub fn store(&mut self, context: C, model_size: &str)
        ensures
            final(self).context == Some(context),
            final(self).model_size@ == model_size@,
    {
        self.context = Some(context);
        self.model_size = model_size.to_string();
    }

    /// Free the loaded model.
    pub fn clear(&mut self)
        ensures
            final(self).context is None,
            final(self).model_size@ == old(self).model_size@,
    {
        self.context = None;
    }

    /// The loaded context, if any.
    pub fn context(&self) -> (r: Option<&C>)
        ensures
            r == match self.context {
                Some(c) => Some(&c),
                None => None::<&C>,
            },
    {
        self.context.as_ref()
    }
}

} // verus!
