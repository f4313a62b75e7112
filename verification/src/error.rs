//! The error taxonomy shared by every stage.

use vstd::prelude::*;

verus! {

/// Why a stage refused its input or could not finish.
#[derive(Clone, Copy, Debug, PartialEq, Eq, Structural)]
pub enum StylizerError {
    /// A buffer or a geometry is malformed; the caller can fix it.
    InvalidDimensions,
    /// No style of that name is registered.
    StyleNotFound,
    /// The model payload could not be fetched.
    DownloadFailed,
    /// The model payload was fetched but is not a recognised container.
    InvalidModelFormat,
    /// Acceleration was asked for and is not to be had; the fallback is used.
    BackendUnavailable,
    /// The backend ran but did not produce the named output tensor.
    OutputMissing,
    /// The backend reported an internal error.
    InferenceFailed,
}

impl StylizerError {
    /// The text of an error as a value to reason about.
    pub open spec fn message_spec(self) -> Seq<char> {
        match self {
            StylizerError::InvalidDimensions => "invalid input dimensions"@,
            StylizerError::StyleNotFound => "style not found"@,
            StylizerError::DownloadFailed => "model download failed"@,
            StylizerError::InvalidModelFormat => "invalid model format"@,
            StylizerError::BackendUnavailable => "accelerated backend unavailable"@,
            StylizerError::OutputMissing => "missing output"@,
            StylizerError::InferenceFailed => "inference failed"@,
        }
    }

    /// A short text for the error.
    pub fn message(&self) -> (text: &'static str)
        ensures
            text@ == self.message_spec(),
    {
        match self {
            StylizerError::InvalidDimensions => "invalid input dimensions",
            StylizerError::StyleNotFound => "style not found",
            StylizerError::DownloadFailed => "model download failed",
            StylizerError::InvalidModelFormat => "invalid model format",
            StylizerError::BackendUnavailable => "accelerated backend unavailable",
            StylizerError::OutputMissing => "missing output",
            StylizerError::InferenceFailed => "inference failed",
        }
    }

    /// Whether the caller may try again after this error: the loader's
    /// failures can pass, the others are final for the request.
    pub fn is_retryable(&self) -> (b: bool)
        ensures
            b == (*self == StylizerError::DownloadFailed || *self
                == StylizerError::InvalidModelFormat),
    {
        match self {
            StylizerError::DownloadFailed => true,
            StylizerError::InvalidModelFormat => true,
            _ => false,
        }
    }
}

} // verus!
