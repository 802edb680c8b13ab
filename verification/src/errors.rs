//! The failure taxonomy of the pipeline. `Cancelled` is an outcome of its
//! own, never a failure, so that an already cancelled task is not
//! re-reported as an error.

use vstd::prelude::*;

verus! {

/// Why a pipeline step could not deliver.
#[derive(Debug)]
pub enum TranscribeError {
    /// The engine runtime or the selected model is not on disk.
    NotInstalled(String),
    /// The engine cannot run here; carries the reason.
    Unavailable(String),
    /// An external tool exited non-zero; carries a tail of its diagnostics.
    SubprocessFailure(String),
    /// Inference ran but produced no usable text.
    EmptyResult,
    /// Cancellation was observed at a safe point.
    Cancelled,
    /// A filesystem operation failed.
    IOFailure(String),
    /// A caller named an unknown task or engine id.
    NotFound(String),
}

impl TranscribeError {
    /// The user-facing description of this failure.
    pub open spec fn spec_message(&self) -> Seq<char> {
        match self {
            TranscribeError::NotInstalled(m) => m@,
            TranscribeError::Unavailable(m) => m@,
            TranscribeError::SubprocessFailure(m) => m@,
            TranscribeError::EmptyResult => "Transcription produced no text. The audio may be silent or corrupted."@,
            TranscribeError::Cancelled => "Cancelled"@,
            TranscribeError::IOFailure(m) => m@,
            TranscribeError::NotFound(m) => m@,
        }
    }

    pub fn message(&self) -> (r: String)
        ensures
            r@ == self.spec_message(),
    {
        match self {
            TranscribeError::NotInstalled(m) => m.clone(),
            TranscribeError::Unavailable(m) => m.clone(),
            TranscribeError::SubprocessFailure(m) => m.clone(),
            TranscribeError::EmptyResult => String::from_str(
                "Transcription produced no text. The audio may be silent or corrupted.",
            ),
            TranscribeError::Cancelled => String::from_str("Cancelled"),
            TranscribeError::IOFailure(m) => m.clone(),
            TranscribeError::NotFound(m) => m.clone(),
        }
    }
}

} // verus!
