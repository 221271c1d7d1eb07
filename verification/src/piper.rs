//! The single-voice synthesizer: one voice configuration, one inference
//! engine and one phonemizer.

use std::collections::HashMap;
use vstd::prelude::*;
use crate::errors::{InferenceError, PhonemizationError};
use crate::inference::{resolved, InferenceOverrides, ResolvedInferenceParams};
use crate::phoneme::{encoded_ids, nfd};
use crate::model::{model_config_to_voice, voice_of_config, ModelConfig};
use crate::ports::{InferenceEngine, Phonemizer, Sentence, SynthesizedAudio};
use crate::text::{join2, owned};
use crate::use_cases::{joined, prepare_inference};
use crate::voice::Voice;

verus! {

/// Why a synthesizer could not be built or could not synthesize.
#[derive(Debug, Clone, PartialEq, Eq)]
pub enum PiperError {
    FailedToLoadResource(String),
    PhonemizationError(String),
    InferenceError(String),
}

/// The result type of the synthesizer.
pub type PiperResult<T> = Result<T, PiperError>;

impl PiperError {
    /// The human-readable rendering of the error.
    pub open spec fn message_spec(&self) -> Seq<char> {
        match self {
            PiperError::FailedToLoadResource(msg) => "Failed to load resource: "@ + msg@,
            PiperError::PhonemizationError(msg) => "Phonemization error: "@ + msg@,
            PiperError::InferenceError(msg) => "Inference error: "@ + msg@,
        }
    }

    /// Renders the error as text.
    pub fn message(&self) -> (r: String)
        ensures
            r@ == self.message_spec(),
    {
        match self {
            PiperError::FailedToLoadResource(msg) => join2("Failed to load resource: ", msg.as_str()),
            PiperError::PhonemizationError(msg) => join2("Phonemization error: ", msg.as_str()),
            PiperError::InferenceError(msg) => join2("Inference error: ", msg.as_str()),
        }
    }
}

/// The sentences to synthesize from what the phonemizer gave, its
/// failure reported by its message.
pub fn phonemized_sentences(phonemized: Result<Vec<Sentence>, PhonemizationError>) -> (r: PiperResult<Vec<Sentence>>)
    ensures
        phonemized matches Ok(v) ==> (r matches Ok(w) && w@ == v@),
        phonemized matches Err(e) ==> (r matches Err(PiperError::PhonemizationError(msg)) && msg@ == e.message_spec()),
{
    match phonemized {
        Ok(v) => Ok(v),
        Err(e) => Err(PiperError::PhonemizationError(e.message())),
    }
}

/// The samples and sample rate from what the engine gave, its failure
/// reported by its message.
pub fn synthesized_samples(inferred: Result<SynthesizedAudio, InferenceError>) -> (r: PiperResult<(Vec<u32>, u32)>)
    ensures
        inferred matches Ok(a) ==> (r matches Ok(out) && out.0@ == a.samples@ && out.1 == a.sample_rate),
        inferred matches Err(e) ==> (r matches Err(PiperError::InferenceError(msg)) && msg@ == e.message_spec()),
{
    match inferred {
        Ok(audio) => Ok((audio.samples, audio.sample_rate)),
        Err(e) => Err(PiperError::InferenceError(e.message())),
    }
}

/// What synthesizing the phoneme text `phonemes` with `voice` on `engine`
/// gives: the engine, as it is before the call, is handed the encoding of the text (NFD
/// normalized) with the overrides resolved against
/// the voice's defaults, and its samples and sample rate, or its failure's
/// message, come back.
pub open spec fn synthesized_from<E: InferenceEngine>(
    engine: E,
    voice: Voice,
    phonemes: Seq<char>,
    overrides: InferenceOverrides,
    r: PiperResult<(Vec<u32>, u32)>,
) -> bool {
    exists|a: Result<SynthesizedAudio, InferenceError>|
        #[trigger] engine.inferred(
            encoded_ids(voice.phoneme_id_map@, nfd(phonemes)),
            resolved(voice.inference_defaults, voice.num_speakers, overrides),
            a,
        ) && match a {
            Ok(audio) => r matches Ok(out) && out.0@ == audio.samples@ && out.1 == audio.sample_rate,
            Err(e) => r matches Err(PiperError::InferenceError(msg)) && msg@ == e.message_spec(),
        }
}

/// The engine run behind a synthesis was handed exactly what the caller
/// asked for: the encoding of the phonemes; each scale the caller set, as
/// given, and each one left unset, at the voice's default; on a voice with
/// several speakers the requested speaker (speaker `0` when none is
/// requested), on a voice with one speaker no speaker at all. The samples
/// and sample rate returned are that run's, and its failure comes back as
/// an inference failure.
pub proof fn lemma_synthesis_honours_request<E: InferenceEngine>(
    engine: E,
    voice: Voice,
    phonemes: Seq<char>,
    o: InferenceOverrides,
    r: PiperResult<(Vec<u32>, u32)>,
)
    requires
        synthesized_from::<E>(engine, voice, phonemes, o, r),
    ensures
        exists|p: ResolvedInferenceParams, a: Result<SynthesizedAudio, InferenceError>|
            #[trigger] engine.inferred(encoded_ids(voice.phoneme_id_map@, nfd(phonemes)), p, a)
            && (o.length_scale matches Some(v) ==> p.length_scale == v)
            && (o.length_scale is None ==> p.length_scale == voice.inference_defaults.length_scale)
            && (o.noise_scale matches Some(v) ==> p.noise_scale == v)
            && (o.noise_scale is None ==> p.noise_scale == voice.inference_defaults.noise_scale)
            && (o.noise_w matches Some(v) ==> p.noise_w == v)
            && (o.noise_w is None ==> p.noise_w == voice.inference_defaults.noise_w)
            && (voice.num_speakers <= 1 ==> p.speaker_id is None)
            && (voice.num_speakers > 1 && o.speaker_id is None ==> p.speaker_id == Some(0i64))
            && (voice.num_speakers > 1 ==> (o.speaker_id matches Some(s) ==> p.speaker_id == Some(s)))
            && (a matches Ok(audio) ==> (r matches Ok(out) && out.0@ == audio.samples@ && out.1 == audio.sample_rate))
            && (a matches Err(e) ==> (r matches Err(PiperError::InferenceError(msg)) && msg@ == e.message_spec())),
{
    let ids = encoded_ids(voice.phoneme_id_map@, nfd(phonemes));
    let p = resolved(voice.inference_defaults, voice.num_speakers, o);
    let a = choose|a: Result<SynthesizedAudio, InferenceError>|
        #[trigger] engine.inferred(ids, p, a) && match a {
            Ok(audio) => r matches Ok(out) && out.0@ == audio.samples@ && out.1 == audio.sample_rate,
            Err(e) => r matches Err(PiperError::InferenceError(msg)) && msg@ == e.message_spec(),
        };
    assert(engine.inferred(ids, p, a));
}

/// The id the synthesizer's single voice is known by.
pub const INTERNAL_VOICE_ID: &'static str = "piper";

/// A synthesizer for one voice.
pub struct Piper<E: InferenceEngine, P: Phonemizer> {
    voice: Voice,
    engine: E,
    phonemizer: P,
}

impl<E: InferenceEngine, P: Phonemizer> Piper<E, P> {
    /// The voice the synthesizer speaks with.
    pub closed spec fn voice(&self) -> Voice {
        self.voice
    }

    /// The phonemizer the synthesizer asks.
    pub closed spec fn phonemizer(&self) -> P {
        self.phonemizer
    }

    /// The engine the synthesizer runs.
    pub closed spec fn engine(&self) -> E {
        self.engine
    }

    /// Whether the engine produces audio at the voice's sample rate.
    pub closed spec fn rates_agree(&self) -> bool {
        self.engine.sample_rate() == self.voice.audio.sample_rate
    }

    /// A synthesizer for the voice `config` describes, named `piper`, over
    /// an engine producing audio at the configuration's sample rate.
    pub fn from_config(config: &ModelConfig, engine: E, phonemizer: P) -> (r: Self)
        requires
            engine.sample_rate() == config.audio.sample_rate,
        ensures
            voice_of_config(r.voice(), "piper"@, *config),
            r.engine() == engine,
            r.phonemizer() == phonemizer,
            r.rates_agree(),
    {
        let voice = model_config_to_voice(INTERNAL_VOICE_ID, config);
        Piper { voice, engine, phonemizer }
    }

    /// Synthesizes `text`, which is phonemized with the voice's espeak
    /// voice unless `is_phonemes` says it already is phonemes. The
    /// phonemes are encoded with the voice's table and the overrides
    /// resolved against its defaults before the engine runs. Returns the
    /// samples (as `f32` bit patterns) and their sample rate. Phonemizer
    /// and engine failures come back as their messages.
    pub fn create(
        &mut self,
        text: &str,
        is_phonemes: bool,
        speaker_id: Option<i64>,
        length_scale: Option<u32>,
        noise_scale: Option<u32>,
        noise_w: Option<u32>,
    ) -> (r: PiperResult<(Vec<u32>, u32)>)
        ensures
            final(self).voice() == old(self).voice(),
            final(self).phonemizer() == old(self).phonemizer(),
            final(self).engine().sample_rate() == old(self).engine().sample_rate(),
            old(self).rates_agree() ==> final(self).rates_agree(),
            r matches Ok(out) ==> out.1 == old(self).engine().sample_rate(),
            old(self).rates_agree() ==> (r matches Ok(out) ==> out.1 == old(self).voice().audio.sample_rate),
            r is Ok || r matches Err(PiperError::InferenceError(_)) || (!is_phonemes && r matches Err(PiperError::PhonemizationError(_))),
            is_phonemes ==> synthesized_from::<E>(
                old(self).engine(),
                old(self).voice(),
                text@,
                (InferenceOverrides { speaker_id, length_scale, noise_scale, noise_w }),
                r,
            ),
            !is_phonemes ==> exists|p: Result<Vec<Sentence>, PhonemizationError>|
                #[trigger] old(self).phonemizer().phonemized(text@, old(self).voice().espeak_voice@, p)
                    && match p {
                    Err(e) => r matches Err(PiperError::PhonemizationError(msg)) && msg@ == e.message_spec(),
                    Ok(s) => synthesized_from::<E>(
                        old(self).engine(),
                        old(self).voice(),
                        joined(s@),
                        (InferenceOverrides { speaker_id, length_scale, noise_scale, noise_w }),
                        r,
                    ),
                },
    {
        let sentences = if is_phonemes {
            let mut v: Vec<Sentence> = Vec::new();
            v.push(Sentence(owned(text)));
            v
        } else {
            let phonemized = self.phonemizer.phonemize(text, self.voice.espeak_voice.as_str());
            let ghost answer = phonemized;
            match phonemized_sentences(phonemized) {
                Ok(s) => s,
                Err(e) => {
                    assert(old(self).phonemizer().phonemized(text@, old(self).voice().espeak_voice@, answer));
                    assert(answer is Err);
                    return Err(e);
                },
            }
        };
        let overrides = InferenceOverrides { speaker_id, length_scale, noise_scale, noise_w };
        let request = prepare_inference(&self.voice, &sentences, overrides);
        synthesized_samples(self.engine.infer(&request.encoding.ids, request.params))
    }

    /// The speakers of a multi-speaker voice; `None` for a single speaker.
    pub fn voices(&self) -> (r: Option<&HashMap<String, i64>>)
        ensures
            r == (if self.voice().is_multi_speaker() { Some(&self.voice().speaker_map) } else { None }),
    {
        self.voice.speakers()
    }
}

/// The phonemizer result of an espeak-ng IPA conversion: the IPA text as a
/// single sentence, or the converter's error message as a backend
/// failure.
pub fn ipa_outcome(ipa: Result<String, String>) -> (r: Result<Vec<Sentence>, PhonemizationError>)
    ensures
        ipa matches Ok(text) ==> (r matches Ok(v) && v@.len() == 1 && v@[0].0 == text),
        ipa matches Err(msg) ==> r == Err::<Vec<Sentence>, PhonemizationError>(PhonemizationError::BackendFailure(msg)),
{
    match ipa {
        Ok(text) => {
            let mut v: Vec<Sentence> = Vec::new();
            v.push(Sentence(text));
            Ok(v)
        },
        Err(msg) => Err(PhonemizationError::BackendFailure(msg)),
    }
}

} // verus!
