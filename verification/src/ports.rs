//! The ports of the library: what a phonemizer, an inference engine and a
//! voice repository offer. Adapters implement them.

use vstd::prelude::*;
use crate::errors::{InferenceError, PhonemizationError, VoiceLoadError};
use crate::inference::ResolvedInferenceParams;
use crate::phoneme::PhonemeIdSequence;
use crate::voice::Voice;

verus! {

/// Synthesized audio: mono samples, each the IEEE-754 bit pattern of an
/// `f32`, at `sample_rate` Hz.
#[derive(Debug, Clone, PartialEq, Eq)]
pub struct SynthesizedAudio {
    pub samples: Vec<u32>,
    pub sample_rate: u32,
}

/// One phonemized sentence.
#[derive(Debug, Clone, PartialEq, Eq)]
pub struct Sentence(pub String);

/// Turns text into phonemes for an espeak voice name.
pub trait Phonemizer: Send + Sync {
    /// What an implementation may answer for `text` in `voice`: `r` is
    /// one of its possible results. By default nothing is ruled out; an
    /// implementation may say more. The library relies on it only to
    /// state which arguments it hands to the call.
    open spec fn phonemized(&self, text: Seq<char>, voice: Seq<char>, r: Result<Vec<Sentence>, PhonemizationError>) -> bool {
        true
    }

    fn phonemize(&self, text: &str, voice: &str) -> (r: Result<Vec<Sentence>, PhonemizationError>)
        ensures
            self.phonemized(text@, voice@, r),
    ;
}

/// Runs a voice model.
pub trait InferenceEngine: Send + Sync {
    /// The sample rate, in Hz, of the audio this engine produces.
    spec fn sample_rate(&self) -> u32;

    /// What an implementation may answer for the ids `ids` and the
    /// parameters `params`: `r` is one of its possible results.
    open spec fn inferred(&self, ids: Seq<i64>, params: ResolvedInferenceParams, r: Result<SynthesizedAudio, InferenceError>) -> bool {
        true
    }

    /// What an implementation may answer to an arity check for the given
    /// speaker mode.
    open spec fn arity_checked(&self, expects_speaker_tensor: bool, r: Result<(), InferenceError>) -> bool {
        true
    }

    fn infer(&mut self, ids: &PhonemeIdSequence, params: ResolvedInferenceParams) -> (r: Result<
        SynthesizedAudio,
        InferenceError,
    >)
        ensures
            old(self).inferred(ids.0@, params, r),
            r matches Ok(a) ==> a.sample_rate == old(self).sample_rate(),
            final(self).sample_rate() == old(self).sample_rate(),
    ;

    fn validate_arity(&self, expects_speaker_tensor: bool) -> (r: Result<(), InferenceError>)
        ensures
            self.arity_checked(expects_speaker_tensor, r),
    ;
}

/// Loads a voice by id.
pub trait VoiceRepository: Send + Sync {
    /// What an implementation may answer for `voice_id`.
    open spec fn loaded(&self, voice_id: Seq<char>, r: Result<Voice, VoiceLoadError>) -> bool {
        true
    }

    fn load(&self, voice_id: &str) -> (r: Result<Voice, VoiceLoadError>)
        ensures
            self.loaded(voice_id@, r),
    ;
}

} // verus!

