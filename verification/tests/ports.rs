use piper_rs::errors::{InferenceError, PhonemizationError, VoiceLoadError};
use piper_rs::inference::ResolvedInferenceParams;
use piper_rs::phoneme::PhonemeIdSequence;
use piper_rs::phoneme_map::PhonemeIdMap;
use piper_rs::ports::{InferenceEngine, Phonemizer, Sentence, SynthesizedAudio, VoiceRepository};
use piper_rs::voice::{AudioConfig, InferenceDefaults, SpeakerMap, Voice};

struct EchoPhonemizer;

impl Phonemizer for EchoPhonemizer {
    fn phonemize(&self, text: &str, _voice: &str) -> Result<Vec<Sentence>, PhonemizationError> {
        Ok(vec![Sentence(text.to_string())])
    }
}

struct FixedOutputEngine {
    output: SynthesizedAudio,
}

impl InferenceEngine for FixedOutputEngine {
    fn sample_rate(&self) -> u32 {
        self.output.sample_rate
    }

    fn infer(
        &mut self,
        _ids: &PhonemeIdSequence,
        _params: ResolvedInferenceParams,
    ) -> Result<SynthesizedAudio, InferenceError> {
        Ok(self.output.clone())
    }

    fn validate_arity(&self, _expects_speaker_tensor: bool) -> Result<(), InferenceError> {
        Ok(())
    }
}

struct FixedVoiceRepository;

impl VoiceRepository for FixedVoiceRepository {
    fn load(&self, voice_id: &str) -> Result<Voice, VoiceLoadError> {
        if voice_id == "known-voice" {
            Ok(Voice {
                voice_id: voice_id.to_string(),
                audio: AudioConfig { sample_rate: 22050 },
                inference_defaults: InferenceDefaults {
                    noise_scale: 0.667f32.to_bits(),
                    length_scale: 1.0f32.to_bits(),
                    noise_w: 0.8f32.to_bits(),
                },
                num_speakers: 1,
                speaker_map: SpeakerMap::new(),
                phoneme_id_map: PhonemeIdMap::new(),
                espeak_voice: "en-US".to_string(),
            })
        } else {
            Err(VoiceLoadError::NotFound(voice_id.to_string()))
        }
    }
}

#[test]
fn phonemizer_trait_object_can_be_called_through_a_dyn_reference() {
    let phonemizer: &dyn Phonemizer = &EchoPhonemizer;
    let result = phonemizer.phonemize("hello", "en-US").unwrap();
    assert_eq!(result, vec![Sentence("hello".to_string())]);
}

#[test]
fn inference_engine_trait_object_can_be_called_through_a_dyn_reference() {
    let mut engine: Box<dyn InferenceEngine> = Box::new(FixedOutputEngine {
        output: SynthesizedAudio {
            samples: vec![0.1f32.to_bits(), 0.2f32.to_bits()],
            sample_rate: 22050,
        },
    });
    let params = ResolvedInferenceParams {
        noise_scale: 0.667f32.to_bits(),
        length_scale: 1.0f32.to_bits(),
        noise_w: 0.8f32.to_bits(),
        speaker_id: None,
    };
    let result = engine.infer(&PhonemeIdSequence(vec![1, 2, 3]), params).unwrap();
    assert_eq!(result.samples, vec![0.1f32.to_bits(), 0.2f32.to_bits()]);
}

#[test]
fn trait_object_returns_not_found_for_an_unknown_voice() {
    let repo: &dyn VoiceRepository = &FixedVoiceRepository;
    let result = repo.load("unknown-voice");
    assert_eq!(result, Err(VoiceLoadError::NotFound("unknown-voice".to_string())));
}

#[test]
fn trait_object_returns_the_voice_for_a_known_id() {
    let repo: &dyn VoiceRepository = &FixedVoiceRepository;
    let result = repo.load("known-voice").unwrap();
    assert_eq!(result.voice_id, "known-voice");
}
