//! The error types of the library and the messages they render to.

use vstd::prelude::*;
use vstd::std_specs::convert::FromSpecImpl;
use crate::text::{decimal, join2, join3, owned, usize_to_decimal};

verus! {

/// Why a voice could not be loaded.
#[derive(Debug, Clone, PartialEq, Eq)]
pub enum VoiceLoadError {
    NotFound(String),
    MalformedConfig(String),
    ModelLoadFailure(String),
    IoFailure(String),
}

/// Why text could not be phonemized.
#[derive(Debug, Clone, PartialEq, Eq)]
pub enum PhonemizationError {
    Timeout,
    QueueFull,
    BackendFailure(String),
}

/// Why an inference engine refused a model or a call.
#[derive(Debug, Clone, PartialEq, Eq)]
pub enum InferenceError {
    ArityMismatch { expected: usize, actual: usize },
    RuntimeFailure(String),
}

/// Why a synthesis request failed.
#[derive(Debug, Clone, PartialEq, Eq)]
pub enum SynthesizeError {
    VoiceNotFound(String),
    Phonemization(PhonemizationError),
    Inference(InferenceError),
}

impl VoiceLoadError {
    /// The human-readable rendering of the error.
    pub open spec fn message_spec(&self) -> Seq<char> {
        match self {
            VoiceLoadError::NotFound(id) => "voice not found: "@ + id@,
            VoiceLoadError::MalformedConfig(msg) => "malformed voice config: "@ + msg@,
            VoiceLoadError::ModelLoadFailure(msg) => "failed to load model: "@ + msg@,
            VoiceLoadError::IoFailure(msg) => "voice config i/o failure: "@ + msg@,
        }
    }

    /// Renders the error as text.
    pub fn message(&self) -> (r: String)
        ensures
            r@ == self.message_spec(),
    {
        match self {
            VoiceLoadError::NotFound(id) => join2("voice not found: ", id.as_str()),
            VoiceLoadError::MalformedConfig(msg) => join2("malformed voice config: ", msg.as_str()),
            VoiceLoadError::ModelLoadFailure(msg) => join2("failed to load model: ", msg.as_str()),
            VoiceLoadError::IoFailure(msg) => join2("voice config i/o failure: ", msg.as_str()),
        }
    }
}

impl PhonemizationError {
    /// The human-readable rendering of the error.
    pub open spec fn message_spec(&self) -> Seq<char> {
        match self {
            PhonemizationError::Timeout => "phonemization timed out"@,
            PhonemizationError::QueueFull => "phonemization queue is full"@,
            PhonemizationError::BackendFailure(msg) => "phonemizer backend failure: "@ + msg@,
        }
    }

    /// Renders the error as text.
    pub fn message(&self) -> (r: String)
        ensures
            r@ == self.message_spec(),
    {
        match self {
            PhonemizationError::Timeout => owned("phonemization timed out"),
            PhonemizationError::QueueFull => owned("phonemization queue is full"),
            PhonemizationError::BackendFailure(msg) => join2(
                "phonemizer backend failure: ",
                msg.as_str(),
            ),
        }
    }
}

impl InferenceError {
    /// The human-readable rendering of the error.
    pub open spec fn message_spec(&self) -> Seq<char> {
        match self {
            InferenceError::ArityMismatch { expected, actual } => "model expects "@ + decimal(
                *expected as nat,
            ) + " input tensors but voice config implies "@ + decimal(*actual as nat),
            InferenceError::RuntimeFailure(msg) => "inference failed: "@ + msg@,
        }
    }

    /// Renders the error as text.
    pub fn message(&self) -> (r: String)
        ensures
            r@ == self.message_spec(),
    {
        match self {
            InferenceError::ArityMismatch { expected, actual } => {
                let e = usize_to_decimal(*expected);
                let a = usize_to_decimal(*actual);
                let mut r = join3("model expects ", e.as_str(), " input tensors but voice config implies ");
                r.append(a.as_str());
                r
            },
            InferenceError::RuntimeFailure(msg) => join2("inference failed: ", msg.as_str()),
        }
    }
}

impl SynthesizeError {
    /// The human-readable rendering of the error: a wrapped error renders
    /// as the error it wraps.
    pub open spec fn message_spec(&self) -> Seq<char> {
        match self {
            SynthesizeError::VoiceNotFound(id) => "voice not found: "@ + id@,
            SynthesizeError::Phonemization(e) => e.message_spec(),
            SynthesizeError::Inference(e) => e.message_spec(),
        }
    }

    /// Renders the error as text.
    pub fn message(&self) -> (r: String)
        ensures
            r@ == self.message_spec(),
    {
        match self {
            SynthesizeError::VoiceNotFound(id) => join2("voice not found: ", id.as_str()),
            SynthesizeError::Phonemization(e) => e.message(),
            SynthesizeError::Inference(e) => e.message(),
        }
    }
}

impl From<PhonemizationError> for SynthesizeError {
    fn from(e: PhonemizationError) -> (r: Self) {
        SynthesizeError::Phonemization(e)
    }
}

impl FromSpecImpl<PhonemizationError> for SynthesizeError {
    open spec fn obeys_from_spec() -> bool {
        true
    }

    open spec fn from_spec(e: PhonemizationError) -> Self {
        SynthesizeError::Phonemization(e)
    }
}

impl From<InferenceError> for SynthesizeError {
    fn from(e: InferenceError) -> (r: Self) {
        SynthesizeError::Inference(e)
    }
}

impl FromSpecImpl<InferenceError> for SynthesizeError {
    open spec fn obeys_from_spec() -> bool {
        true
    }

    open spec fn from_spec(e: InferenceError) -> Self {
        SynthesizeError::Inference(e)
    }
}

/// The text a voice-load failure is reported under when it surfaces as
/// a missing voice: the id of a missing voice, the message of any other
/// failure.
pub open spec fn load_failure_text(e: VoiceLoadError) -> Seq<char> {
    match e {
        VoiceLoadError::NotFound(id) => id@,
        other => other.message_spec(),
    }
}

impl SynthesizeError {
    /// A voice-load failure as a synthesis failure: always a missing voice,
    /// named by `load_failure_text`.
    pub fn from_load_error(e: VoiceLoadError) -> (r: Self)
        ensures
            r matches SynthesizeError::VoiceNotFound(t) && t@ == load_failure_text(e),
    {
        match e {
            VoiceLoadError::NotFound(id) => SynthesizeError::VoiceNotFound(id),
            other => SynthesizeError::VoiceNotFound(other.message()),
        }
    }
}

/// A voice-load failure as a synthesis failure, as `from_load_error`
/// gives it.
impl From<VoiceLoadError> for SynthesizeError {
    fn from(e: VoiceLoadError) -> (r: Self)
        ensures
            r matches SynthesizeError::VoiceNotFound(t) && t@ == load_failure_text(e),
    {
        SynthesizeError::from_load_error(e)
    }
}

impl FromSpecImpl<VoiceLoadError> for SynthesizeError {
    /// The conversion's result is stated on `from` itself: the text of a
    /// failure other than `NotFound` is a `String` built at run time, which
    /// a spec function cannot name.
    open spec fn obeys_from_spec() -> bool {
        false
    }

    open spec fn from_spec(e: VoiceLoadError) -> Self {
        arbitrary()
    }
}

} // verus!
