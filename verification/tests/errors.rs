use piper_rs::errors::{InferenceError, PhonemizationError, SynthesizeError, VoiceLoadError};
use piper_rs::piper::PiperError;
use piper_rs::use_cases::PhonemizeError;

#[test]
fn synthesize_error_converts_from_phonemization_error() {
    let err: SynthesizeError = PhonemizationError::QueueFull.into();
    assert_eq!(err, SynthesizeError::Phonemization(PhonemizationError::QueueFull));
}

#[test]
fn synthesize_error_converts_from_inference_error() {
    let err: SynthesizeError = InferenceError::ArityMismatch { expected: 4, actual: 3 }.into();
    assert_eq!(
        err,
        SynthesizeError::Inference(InferenceError::ArityMismatch { expected: 4, actual: 3 })
    );
}

#[test]
fn arity_mismatch_display_names_both_counts() {
    let err = InferenceError::ArityMismatch { expected: 4, actual: 3 };
    assert_eq!(err.message(), "model expects 4 input tensors but voice config implies 3");
}

#[test]
fn voice_load_errors_render_with_their_kind() {
    assert_eq!(VoiceLoadError::NotFound("x".to_string()).message(), "voice not found: x");
    assert_eq!(
        VoiceLoadError::MalformedConfig("bad".to_string()).message(),
        "malformed voice config: bad"
    );
    assert_eq!(
        VoiceLoadError::ModelLoadFailure("m".to_string()).message(),
        "failed to load model: m"
    );
    assert_eq!(
        VoiceLoadError::IoFailure("io".to_string()).message(),
        "voice config i/o failure: io"
    );
}

#[test]
fn phonemization_errors_render_with_their_kind() {
    assert_eq!(PhonemizationError::Timeout.message(), "phonemization timed out");
    assert_eq!(PhonemizationError::QueueFull.message(), "phonemization queue is full");
    assert_eq!(
        PhonemizationError::BackendFailure("boom".to_string()).message(),
        "phonemizer backend failure: boom"
    );
}

#[test]
fn inference_runtime_failure_renders_its_message() {
    assert_eq!(
        InferenceError::RuntimeFailure("oops".to_string()).message(),
        "inference failed: oops"
    );
    assert_eq!(
        InferenceError::ArityMismatch { expected: 10, actual: 0 }.message(),
        "model expects 10 input tensors but voice config implies 0"
    );
}

#[test]
fn synthesize_errors_render_as_what_they_wrap() {
    assert_eq!(SynthesizeError::VoiceNotFound("v".to_string()).message(), "voice not found: v");
    assert_eq!(
        SynthesizeError::Phonemization(PhonemizationError::QueueFull).message(),
        "phonemization queue is full"
    );
    assert_eq!(
        SynthesizeError::Inference(InferenceError::RuntimeFailure("x".to_string())).message(),
        "inference failed: x"
    );
}

#[test]
fn a_load_error_surfaces_as_a_missing_voice() {
    assert_eq!(
        SynthesizeError::from_load_error(VoiceLoadError::NotFound("v1".to_string())),
        SynthesizeError::VoiceNotFound("v1".to_string())
    );
    assert_eq!(
        SynthesizeError::from_load_error(VoiceLoadError::IoFailure("disk".to_string())),
        SynthesizeError::VoiceNotFound("voice config i/o failure: disk".to_string())
    );
    assert_eq!(
        PhonemizeError::from_load_error(VoiceLoadError::NotFound("v2".to_string())),
        PhonemizeError::VoiceNotFound("v2".to_string())
    );
}

#[test]
fn phonemize_errors_convert_into_synthesize_errors() {
    let a: SynthesizeError = PhonemizeError::VoiceNotFound("v".to_string()).into();
    assert_eq!(a, SynthesizeError::VoiceNotFound("v".to_string()));
    let b: SynthesizeError = PhonemizeError::Phonemization(PhonemizationError::Timeout).into();
    assert_eq!(b, SynthesizeError::Phonemization(PhonemizationError::Timeout));
    let c: PhonemizeError = PhonemizationError::QueueFull.into();
    assert_eq!(c, PhonemizeError::Phonemization(PhonemizationError::QueueFull));
    assert_eq!(PhonemizeError::VoiceNotFound("v".to_string()).message(), "voice not found: v");
}

#[test]
fn piper_errors_render_with_their_kind() {
    assert_eq!(
        PiperError::FailedToLoadResource("f".to_string()).message(),
        "Failed to load resource: f"
    );
    assert_eq!(
        PiperError::PhonemizationError("p".to_string()).message(),
        "Phonemization error: p"
    );
    assert_eq!(PiperError::InferenceError("i".to_string()).message(), "Inference error: i");
}

#[test]
fn load_errors_convert_into_missing_voices() {
    let a: SynthesizeError = VoiceLoadError::NotFound("v1".to_string()).into();
    assert_eq!(a, SynthesizeError::VoiceNotFound("v1".to_string()));
    let b: PhonemizeError = VoiceLoadError::MalformedConfig("bad".to_string()).into();
    assert_eq!(b, PhonemizeError::VoiceNotFound("malformed voice config: bad".to_string()));
}
