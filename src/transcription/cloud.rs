//! Records of the cloud transcription fallback.

use vstd::prelude::*;

verus! {

pub enum CloudError {
    NoProvider,
    RequestError(String),
    ApiError(String),
}

pub struct CloudTranscriptionRequest {
    /// Encoded audio.
    pub audio: Vec<u8>,
    pub language: Option<String>,
    pub provider: String,
}

pub struct CloudTranscriptionResponse {
    pub text: String,
    pub language: Option<String>,
}

} // verus!
