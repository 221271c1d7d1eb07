//! The use cases: loading a voice into a registry, phonemizing text for a
//! registered voice, and synthesizing audio for a registered voice.

use vstd::prelude::*;
use vstd::std_specs::convert::FromSpecImpl;
use crate::errors::{load_failure_text, InferenceError, PhonemizationError, SynthesizeError, VoiceLoadError};
use crate::inference::{resolved, InferenceOverrides, ResolvedInferenceParams};
use crate::phoneme::{encode_phonemes, encoded_ids, encoding_warnings, nfd, PhonemeEncoding, PhonemizationWarning};
use crate::ports::{InferenceEngine, Phonemizer, Sentence, SynthesizedAudio, VoiceRepository};
use crate::registry::VoiceRegistry;
use crate::text::{join2, string_from_chars};
use crate::voice::Voice;

verus! {

/// Loads a voice through a repository, checks it against the engine's
/// model, and registers it.
pub struct LoadVoice<'a, R: VoiceRepository, E: InferenceEngine> {
    pub repository: &'a R,
    pub engine: &'a E,
}

/// What admitting `voice` after the arity check `arity` does: on
/// acceptance the voice is registered under its id and the result is
/// `Ok`; on refusal the registry (`before` to `after`) is unchanged and
/// the refusal comes back as a model-load failure carrying its message.
pub open spec fn admitted(
    before: Map<Seq<char>, Voice>,
    voice: Voice,
    arity: Result<(), InferenceError>,
    r: Result<(), VoiceLoadError>,
    after: Map<Seq<char>, Voice>,
) -> bool {
    match arity {
        Ok(()) => r is Ok && after == before.insert(voice.voice_id@, voice),
        Err(e) => after == before && (r matches Err(VoiceLoadError::ModelLoadFailure(msg)) && msg@ == e.message_spec()),
    }
}

/// Registers `voice` when the engine accepted it (`arity` is `Ok`);
/// otherwise reports the engine's refusal as a model-load failure and
/// leaves the registry as it was.
pub fn admit_voice(registry: &mut VoiceRegistry, voice: Voice, arity: Result<(), InferenceError>) -> (r: Result<(), VoiceLoadError>)
    ensures
        admitted(old(registry)@, voice, arity, r, final(registry)@),
{
    match arity {
        Ok(()) => {
            registry.register(voice);
            Ok(())
        },
        Err(e) => Err(VoiceLoadError::ModelLoadFailure(e.message())),
    }
}

impl<'a, R: VoiceRepository, E: InferenceEngine> LoadVoice<'a, R, E> {
    /// Loads `voice_id`, validates the model's arity for the voice's
    /// speaker mode, and registers the voice. A repository failure is
    /// returned as it came; an arity failure becomes `ModelLoadFailure`.
    /// The registry changes only on success, and then by registering one
    /// voice.
    pub fn execute(&self, voice_id: &str, registry: &mut VoiceRegistry) -> (r: Result<(), VoiceLoadError>)
        ensures
            r is Ok ==> exists|v: Voice| final(registry)@ == old(registry)@.insert(v.voice_id@, v),
            r is Err ==> final(registry)@ == old(registry)@,
            exists|loaded: Result<Voice, VoiceLoadError>|
                #[trigger] self.repository.loaded(voice_id@, loaded) && match loaded {
                    Err(e) => r == Err::<(), VoiceLoadError>(e),
                    Ok(v) => exists|arity: Result<(), InferenceError>|
                        #[trigger] self.engine.arity_checked(v.is_multi_speaker(), arity) && admitted(
                            old(registry)@,
                            v,
                            arity,
                            r,
                            final(registry)@,
                        ),
                },
    {
        let loaded = self.repository.load(voice_id);
        let ghost loaded_view = loaded;
        let voice = match loaded {
            Ok(v) => v,
            Err(e) => {
                assert(self.repository.loaded(voice_id@, loaded_view));
                return Err(e);
            },
        };
        let arity = self.engine.validate_arity(voice.num_speakers > 1);
        assert(self.engine.arity_checked(voice.is_multi_speaker(), arity));
        let r = admit_voice(registry, voice, arity);
        assert(self.repository.loaded(voice_id@, loaded_view));
        r
    }
}

/// Why phonemizing for a voice failed.
#[derive(Debug, Clone, PartialEq, Eq)]
pub enum PhonemizeError {
    VoiceNotFound(String),
    Phonemization(PhonemizationError),
}

impl PhonemizeError {
    /// The human-readable rendering of the error.
    pub open spec fn message_spec(&self) -> Seq<char> {
        match self {
            PhonemizeError::VoiceNotFound(id) => "voice not found: "@ + id@,
            PhonemizeError::Phonemization(e) => e.message_spec(),
        }
    }

    /// Renders the error as text.
    pub fn message(&self) -> (r: String)
        ensures
            r@ == self.message_spec(),
    {
        match self {
            PhonemizeError::VoiceNotFound(id) => join2("voice not found: ", id.as_str()),
            PhonemizeError::Phonemization(e) => e.message(),
        }
    }

    /// A voice-load failure as a phonemize failure: always a missing
    /// voice, named by `load_failure_text`.
    pub fn from_load_error(e: VoiceLoadError) -> (r: Self)
        ensures
            r matches PhonemizeError::VoiceNotFound(t) && t@ == load_failure_text(e),
    {
        match e {
            VoiceLoadError::NotFound(id) => PhonemizeError::VoiceNotFound(id),
            other => PhonemizeError::VoiceNotFound(other.message()),
        }
    }
}

/// A voice-load failure as a phonemize failure, as `from_load_error`
/// gives it.
impl From<VoiceLoadError> for PhonemizeError {
    fn from(e: VoiceLoadError) -> (r: Self)
        ensures
            r matches PhonemizeError::VoiceNotFound(t) && t@ == load_failure_text(e),
    {
        PhonemizeError::from_load_error(e)
    }
}

impl FromSpecImpl<VoiceLoadError> for PhonemizeError {
    /// The conversion's result is stated on `from` itself: the text of a
    /// failure other than `NotFound` is a `String` built at run time, which
    /// a spec function cannot name.
    open spec fn obeys_from_spec() -> bool {
        false
    }

    open spec fn from_spec(e: VoiceLoadError) -> Self {
        arbitrary()
    }
}

impl From<PhonemizationError> for PhonemizeError {
    fn from(e: PhonemizationError) -> (r: Self) {
        PhonemizeError::Phonemization(e)
    }
}

impl FromSpecImpl<PhonemizationError> for PhonemizeError {
    open spec fn obeys_from_spec() -> bool {
        true
    }

    open spec fn from_spec(e: PhonemizationError) -> Self {
        PhonemizeError::Phonemization(e)
    }
}

impl From<PhonemizeError> for SynthesizeError {
    fn from(e: PhonemizeError) -> (r: Self) {
        match e {
            PhonemizeError::VoiceNotFound(id) => SynthesizeError::VoiceNotFound(id),
            PhonemizeError::Phonemization(err) => SynthesizeError::Phonemization(err),
        }
    }
}

impl FromSpecImpl<PhonemizeError> for SynthesizeError {
    open spec fn obeys_from_spec() -> bool {
        true
    }

    open spec fn from_spec(e: PhonemizeError) -> Self {
        match e {
            PhonemizeError::VoiceNotFound(id) => SynthesizeError::VoiceNotFound(id),
            PhonemizeError::Phonemization(err) => SynthesizeError::Phonemization(err),
        }
    }
}

/// What phonemizing gives from the phonemizer's answer: its sentences,
/// or its failure wrapped.
pub open spec fn phonemize_result(p: Result<Vec<Sentence>, PhonemizationError>) -> Result<Vec<Sentence>, PhonemizeError> {
    match p {
        Ok(v) => Ok(v),
        Err(e) => Err(PhonemizeError::Phonemization(e)),
    }
}

/// Phonemizes text for a registered voice.
pub struct Phonemize<'a, P: Phonemizer> {
    pub phonemizer: &'a P,
}

impl<'a, P: Phonemizer> Phonemize<'a, P> {
    /// Looks `voice_id` up and phonemizes `text` with the voice's espeak
    /// voice. An unregistered voice gives `VoiceNotFound` naming it;
    /// otherwise the result is the phonemizer's, its error wrapped.
    pub fn execute(&self, registry: &VoiceRegistry, voice_id: &str, text: &str) -> (r: Result<Vec<Sentence>, PhonemizeError>)
        ensures
            !registry@.contains_key(voice_id@) ==> (r matches Err(PhonemizeError::VoiceNotFound(id)) && id@ == voice_id@),
            registry@.contains_key(voice_id@) ==> (r is Ok || r matches Err(PhonemizeError::Phonemization(_))),
            registry@.contains_key(voice_id@) ==> exists|p: Result<Vec<Sentence>, PhonemizationError>|
                #[trigger] self.phonemizer.phonemized(text@, registry@[voice_id@].espeak_voice@, p) && r
                    == phonemize_result(p),
    {
        let voice = match registry.lookup(voice_id) {
            Ok(v) => v,
            Err(e) => return Err(PhonemizeError::from_load_error(e)),
        };
        match self.phonemizer.phonemize(text, voice.espeak_voice.as_str()) {
            Ok(sentences) => Ok(sentences),
            Err(e) => Err(PhonemizeError::Phonemization(e)),
        }
    }
}

/// The phoneme text of `sentences`: their texts joined by single spaces.
pub open spec fn joined(sentences: Seq<Sentence>) -> Seq<char>
    decreases sentences.len(),
{
    if sentences.len() == 0 {
        Seq::empty()
    } else if sentences.len() == 1 {
        sentences[0].0@
    } else {
        joined(sentences.drop_last()) + seq![' '] + sentences.last().0@
    }
}

/// Joins the texts of `sentences` with single spaces.
pub fn join_sentences(sentences: &Vec<Sentence>) -> (r: String)
    ensures
        r@ == joined(sentences@),
{
    let mut out: Vec<char> = Vec::new();
    let n = sentences.len();
    for k in 0..n
        invariant
            n == sentences@.len(),
            out@ == joined(sentences@.take(k as int)),
    {
        let ghost before = out@;
        if k > 0 {
            out.push(' ');
        }
        let text = crate::text::chars_of(sentences[k].0.as_str());
        for j in 0..text.len()
            invariant
                out@ == (if k > 0 { before + seq![' '] } else { before }) + text@.take(j as int),
        {
            out.push(text[j]);
            assert(text@.take(j + 1) =~= text@.take(j as int).push(text@[j as int]));
        }
        proof {
            assert(text@.take(text@.len() as int) =~= text@);
            let t = sentences@.take(k + 1);
            assert(t.drop_last() =~= sentences@.take(k as int));
            if k == 0 {
                assert(sentences@.take(0) =~= Seq::<Sentence>::empty());
                assert(out@ =~= joined(t));
            } else {
                assert(out@ =~= joined(t));
            }
        }
    }
    proof {
        assert(sentences@.take(n as int) =~= sentences@);
    }
    string_from_chars(out.as_slice())
}

/// What a synthesis hands the engine: the encoded phonemes and resolved
/// parameters.
pub struct InferenceRequest {
    pub encoding: PhonemeEncoding,
    pub params: ResolvedInferenceParams,
}

/// Builds the engine's input for `voice` from phonemized sentences: the
/// sentences joined by spaces, NFD-normalized and encoded with the
/// voice's phoneme table; the overrides resolved against its defaults.
pub fn prepare_inference(voice: &Voice, sentences: &Vec<Sentence>, overrides: InferenceOverrides) -> (r: InferenceRequest)
    ensures
        r.encoding.ids.0@ == encoded_ids(voice.phoneme_id_map@, nfd(joined(sentences@))),
        r.encoding.warnings@ == encoding_warnings(voice.phoneme_id_map@, nfd(joined(sentences@))),
        r.params == resolved(voice.inference_defaults, voice.num_speakers, overrides),
{
    let phonemes = join_sentences(sentences);
    let encoding = encode_phonemes(&voice.phoneme_id_map, phonemes.as_str());
    let params = voice.resolve_inference_params(overrides);
    InferenceRequest { encoding, params }
}

/// The engine's input for `voice` from what the phonemizer gave: its
/// failure as a synthesis failure, or its sentences prepared as
/// `prepare_inference` does.
pub fn request_from_phonemized(
    voice: &Voice,
    phonemized: Result<Vec<Sentence>, PhonemizationError>,
    overrides: InferenceOverrides,
) -> (r: Result<InferenceRequest, SynthesizeError>)
    ensures
        phonemized matches Err(e) ==> r == Err::<InferenceRequest, SynthesizeError>(SynthesizeError::Phonemization(e)),
        phonemized matches Ok(sentences) ==> (r matches Ok(req) && req.encoding.ids.0@ == encoded_ids(
            voice.phoneme_id_map@,
            nfd(joined(sentences@)),
        ) && req.encoding.warnings@ == encoding_warnings(voice.phoneme_id_map@, nfd(joined(sentences@)))
            && req.params == resolved(voice.inference_defaults, voice.num_speakers, overrides)),
{
    match phonemized {
        Ok(sentences) => Ok(prepare_inference(voice, &sentences, overrides)),
        Err(e) => Err(SynthesizeError::Phonemization(e)),
    }
}

/// Audio and the non-fatal warnings met while encoding.
#[derive(Debug, Clone, PartialEq, Eq)]
pub struct SynthesizeOutcome {
    pub audio: SynthesizedAudio,
    pub warnings: Vec<PhonemizationWarning>,
}

/// The outcome of a synthesis from what the engine gave: its audio with
/// the encoding's warnings, or its failure as a synthesis failure.
pub fn synthesis_outcome(
    warnings: Vec<PhonemizationWarning>,
    inferred: Result<SynthesizedAudio, InferenceError>,
) -> (r: Result<SynthesizeOutcome, SynthesizeError>)
    ensures
        inferred matches Ok(audio) ==> (r matches Ok(o) && o.audio == audio && o.warnings@ == warnings@),
        inferred matches Err(e) ==> r == Err::<SynthesizeOutcome, SynthesizeError>(SynthesizeError::Inference(e)),
{
    match inferred {
        Ok(audio) => Ok(SynthesizeOutcome { audio, warnings }),
        Err(e) => Err(SynthesizeError::Inference(e)),
    }
}

/// What synthesizing `text` with `voice` through `phonemizer` and
/// `engine` gives: the phonemizer is asked for `text` in the
/// voice's espeak voice; its failure ends the synthesis; otherwise
/// `engine`, as it is before the call, is given the encoding of its sentences (joined by spaces, NFD
/// normalized) and the overrides resolved against the voice's defaults;
/// its audio comes back with the encoding's warnings, or its failure.
pub open spec fn synthesized_by<P: Phonemizer, E: InferenceEngine>(
    phonemizer: P,
    engine: E,
    voice: Voice,
    text: Seq<char>,
    overrides: InferenceOverrides,
    r: Result<SynthesizeOutcome, SynthesizeError>,
) -> bool {
    exists|p: Result<Vec<Sentence>, PhonemizationError>|
        #[trigger] phonemizer.phonemized(text, voice.espeak_voice@, p) && match p {
            Err(e) => r == Err::<SynthesizeOutcome, SynthesizeError>(SynthesizeError::Phonemization(e)),
            Ok(s) => exists|a: Result<SynthesizedAudio, InferenceError>|
                #[trigger] engine.inferred(
                    encoded_ids(voice.phoneme_id_map@, nfd(joined(s@))),
                    resolved(voice.inference_defaults, voice.num_speakers, overrides),
                    a,
                ) && match a {
                    Ok(audio) => r matches Ok(o) && o.audio == audio && o.warnings@ == encoding_warnings(
                        voice.phoneme_id_map@,
                        nfd(joined(s@)),
                    ),
                    Err(e) => r == Err::<SynthesizeOutcome, SynthesizeError>(SynthesizeError::Inference(e)),
                },
        }
}

/// A synthesis that got past the phonemizer ran the engine on exactly what
/// the caller asked for: the encoding of some answer the phonemizer gave
/// for the text in the voice's espeak voice; each scale the caller set, as
/// given, and each one left unset, at the voice's default; on a voice with
/// several speakers the requested speaker (speaker `0` when none is
/// requested), on a voice with one speaker no speaker at all. Its audio is
/// what comes back, and its failure comes back as an inference failure.
pub proof fn lemma_synthesis_runs_requested_params<P: Phonemizer, E: InferenceEngine>(
    phonemizer: P,
    engine: E,
    voice: Voice,
    text: Seq<char>,
    o: InferenceOverrides,
    r: Result<SynthesizeOutcome, SynthesizeError>,
)
    requires
        synthesized_by::<P, E>(phonemizer, engine, voice, text, o, r),
        r is Ok || r matches Err(SynthesizeError::Inference(_)),
    ensures
        exists|s: Vec<Sentence>, p: ResolvedInferenceParams, a: Result<SynthesizedAudio, InferenceError>|
            #[trigger] phonemizer.phonemized(text, voice.espeak_voice@, Ok::<Vec<Sentence>, PhonemizationError>(s))
            && #[trigger] engine.inferred(encoded_ids(voice.phoneme_id_map@, nfd(joined(s@))), p, a)
            && (o.length_scale matches Some(v) ==> p.length_scale == v)
            && (o.length_scale is None ==> p.length_scale == voice.inference_defaults.length_scale)
            && (o.noise_scale matches Some(v) ==> p.noise_scale == v)
            && (o.noise_scale is None ==> p.noise_scale == voice.inference_defaults.noise_scale)
            && (o.noise_w matches Some(v) ==> p.noise_w == v)
            && (o.noise_w is None ==> p.noise_w == voice.inference_defaults.noise_w)
            && (voice.num_speakers <= 1 ==> p.speaker_id is None)
            && (voice.num_speakers > 1 && o.speaker_id is None ==> p.speaker_id == Some(0i64))
            && (voice.num_speakers > 1 ==> (o.speaker_id matches Some(sp) ==> p.speaker_id == Some(sp)))
            && (a matches Ok(audio) ==> (r matches Ok(out) && out.audio == audio))
            && (a matches Err(e) ==> r == Err::<SynthesizeOutcome, SynthesizeError>(SynthesizeError::Inference(e))),
{
    let answer = choose|p: Result<Vec<Sentence>, PhonemizationError>|
        #[trigger] phonemizer.phonemized(text, voice.espeak_voice@, p) && match p {
            Err(e) => r == Err::<SynthesizeOutcome, SynthesizeError>(SynthesizeError::Phonemization(e)),
            Ok(s) => exists|a: Result<SynthesizedAudio, InferenceError>|
                #[trigger] engine.inferred(
                    encoded_ids(voice.phoneme_id_map@, nfd(joined(s@))),
                    resolved(voice.inference_defaults, voice.num_speakers, o),
                    a,
                ) && match a {
                    Ok(audio) => r matches Ok(out) && out.audio == audio && out.warnings@ == encoding_warnings(
                        voice.phoneme_id_map@,
                        nfd(joined(s@)),
                    ),
                    Err(e) => r == Err::<SynthesizeOutcome, SynthesizeError>(SynthesizeError::Inference(e)),
                },
        };
    let s = answer->Ok_0;
    let ids = encoded_ids(voice.phoneme_id_map@, nfd(joined(s@)));
    let p = resolved(voice.inference_defaults, voice.num_speakers, o);
    let a = choose|a: Result<SynthesizedAudio, InferenceError>|
        #[trigger] engine.inferred(ids, p, a) && match a {
            Ok(audio) => r matches Ok(out) && out.audio == audio && out.warnings@ == encoding_warnings(
                voice.phoneme_id_map@,
                nfd(joined(s@)),
            ),
            Err(e) => r == Err::<SynthesizeOutcome, SynthesizeError>(SynthesizeError::Inference(e)),
        };
    assert(phonemizer.phonemized(text, voice.espeak_voice@, Ok::<Vec<Sentence>, PhonemizationError>(s)));
    assert(engine.inferred(ids, p, a));
}

/// Synthesizes audio for a registered voice.
pub struct Synthesize<'a, P: Phonemizer, E: InferenceEngine> {
    pub phonemizer: &'a P,
    pub engine: &'a mut E,
}

impl<'a, P: Phonemizer, E: InferenceEngine> Synthesize<'a, P, E> {
    /// Looks the voice up, phonemizes `text`, encodes the phonemes,
    /// resolves the overrides and runs the engine. An unregistered voice
    /// gives `VoiceNotFound` naming it. On success the warnings are those
    /// of encoding what the phonemizer returned.
    pub fn execute(&mut self, registry: &VoiceRegistry, voice_id: &str, text: &str, overrides: InferenceOverrides) -> (r: Result<SynthesizeOutcome, SynthesizeError>)
        ensures
            !registry@.contains_key(voice_id@) ==> (r matches Err(SynthesizeError::VoiceNotFound(id)) && id@ == voice_id@),
            registry@.contains_key(voice_id@) ==> match r {
                Ok(o) => exists|s: Seq<Sentence>| o.warnings@ == encoding_warnings(
                    #[trigger] registry@[voice_id@].phoneme_id_map@,
                    nfd(joined(s)),
                ),
                Err(e) => e is Phonemization || e is Inference,
            },
            registry@.contains_key(voice_id@) ==> synthesized_by::<P, E>(
                *old(self).phonemizer,
                *old(self).engine,
                registry@[voice_id@],
                text@,
                overrides,
                r,
            ),
    {
        let voice = match registry.lookup(voice_id) {
            Ok(v) => v,
            Err(e) => return Err(SynthesizeError::from_load_error(e)),
        };
        let phonemized = self.phonemizer.phonemize(text, voice.espeak_voice.as_str());
        let request = match request_from_phonemized(voice, phonemized, overrides) {
            Ok(req) => req,
            Err(e) => return Err(e),
        };
        let inferred = self.engine.infer(&request.encoding.ids, request.params);
        synthesis_outcome(request.encoding.warnings, inferred)
    }
}

} // verus!
