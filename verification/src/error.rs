//! The library's error type, its numeric codes, its message text, and the
//! "last error" record kept for callers that can only read codes.

use vstd::prelude::*;

verus! {

/// Every failure the library reports.
#[derive(Debug)]
pub enum GainError {
    FileNotFound { path: String },
    UnsupportedFormat { format: String },
    DecodeFailure { details: String },
    InvalidAudio { details: String },
    AnalysisFailure { details: String },
    InternalError { details: String },
}

/// The numeric code of an error (1 to 6, in declaration order).
pub open spec fn error_code(e: GainError) -> u8 {
    match e {
        GainError::FileNotFound { .. } => 1,
        GainError::UnsupportedFormat { .. } => 2,
        GainError::DecodeFailure { .. } => 3,
        GainError::InvalidAudio { .. } => 4,
        GainError::AnalysisFailure { .. } => 5,
        GainError::InternalError { .. } => 6,
    }
}

/// The human-readable text of an error: a fixed prefix naming the kind of
/// failure, followed by the error's payload.
pub open spec fn error_message(e: GainError) -> Seq<char> {
    match e {
        GainError::FileNotFound { path } => "file not found: "@ + path@,
        GainError::UnsupportedFormat { format } => "unsupported format: "@ + format@,
        GainError::DecodeFailure { details } => "decode failure: "@ + details@,
        GainError::InvalidAudio { details } => "invalid audio: "@ + details@,
        GainError::AnalysisFailure { details } => "analysis failure: "@ + details@,
        GainError::InternalError { details } => "internal error: "@ + details@,
    }
}

impl GainError {
    /// The error's message text (what `Display` shows).
    pub fn message(&self) -> (r: String)
        ensures
            r@ == error_message(*self),
    {
        let (prefix, payload): (&str, &String) = match self {
            GainError::FileNotFound { path } => ("file not found: ", path),
            GainError::UnsupportedFormat { format } => ("unsupported format: ", format),
            GainError::DecodeFailure { details } => ("decode failure: ", details),
            GainError::InvalidAudio { details } => ("invalid audio: ", details),
            GainError::AnalysisFailure { details } => ("analysis failure: ", details),
            GainError::InternalError { details } => ("internal error: ", details),
        };
        let mut s = String::from_str(prefix);
        s.append(payload.as_str());
        s
    }
}

/// The numeric code that the C interface reports for an error.
pub fn gain_error_to_code(e: &GainError) -> (code: u8)
    ensures
        code == error_code(*e),
        1 <= code <= 6,
{
    match e {
        GainError::FileNotFound { .. } => 1,
        GainError::UnsupportedFormat { .. } => 2,
        GainError::DecodeFailure { .. } => 3,
        GainError::InvalidAudio { .. } => 4,
        GainError::AnalysisFailure { .. } => 5,
        GainError::InternalError { .. } => 6,
    }
}

/// The most recent error seen by a caller of the C interface: its code
/// (0 while no error has happened) and its message.
#[derive(Debug)]
pub struct LastError {
    pub code: u8,
    pub message: String,
}

impl LastError {
    /// The state before any error: code 0, empty message.
    pub fn new() -> (r: LastError)
        ensures
            r.code == 0,
            r.message@ == Seq::<char>::empty(),
    {
        LastError { code: 0, message: String::new() }
    }
}

/// Records `e` as the most recent error.
pub fn set_last_error(state: &mut LastError, e: &GainError)
    ensures
        final(state).code == error_code(*e),
        final(state).message@ == error_message(*e),
        final(state).code != 0,
{
    let code = gain_error_to_code(e);
    let msg = e.message();
    state.code = code;
    state.message = msg;
}

} // verus!
