use gain_core::error::{gain_error_to_code, set_last_error, GainError, LastError};

#[test]
fn gain_error_variants_display() {
    assert!(GainError::FileNotFound { path: "/a.wav".into() }.message().contains("/a.wav"));
    assert!(GainError::UnsupportedFormat { format: ".mp3".into() }.message().contains(".mp3"));
    assert!(GainError::DecodeFailure { details: "eof".into() }.message().contains("eof"));
    assert!(GainError::InvalidAudio { details: "nan".into() }.message().contains("nan"));
    assert!(GainError::AnalysisFailure { details: "empty".into() }.message().contains("empty"));
    assert!(GainError::InternalError { details: "oops".into() }.message().contains("oops"));
}

#[test]
fn error_message_has_kind_prefix() {
    assert_eq!(
        GainError::FileNotFound { path: "/a.wav".into() }.message(),
        "file not found: /a.wav"
    );
    assert_eq!(
        GainError::InternalError { details: "unknown preset code 99".into() }.message(),
        "internal error: unknown preset code 99"
    );
}

#[test]
fn error_codes_follow_declaration_order() {
    assert_eq!(gain_error_to_code(&GainError::FileNotFound { path: String::new() }), 1);
    assert_eq!(gain_error_to_code(&GainError::UnsupportedFormat { format: String::new() }), 2);
    assert_eq!(gain_error_to_code(&GainError::DecodeFailure { details: String::new() }), 3);
    assert_eq!(gain_error_to_code(&GainError::InvalidAudio { details: String::new() }), 4);
    assert_eq!(gain_error_to_code(&GainError::AnalysisFailure { details: String::new() }), 5);
    assert_eq!(gain_error_to_code(&GainError::InternalError { details: String::new() }), 6);
}

#[test]
fn set_last_error_records_code_and_message() {
    let mut state = LastError::new();
    assert_eq!(state.code, 0);
    assert_eq!(state.message, "");
    set_last_error(&mut state, &GainError::InvalidAudio { details: "null or empty samples".into() });
    assert_eq!(state.code, 4);
    assert_eq!(state.message, "invalid audio: null or empty samples");
}
