//! The voice configuration file's model (`<voice>.onnx.json`) and its
//! conversion into a `Voice`.

use std::collections::HashMap;
use vstd::prelude::*;
use crate::phoneme::{encode_phonemes, encoded_ids, nfd};
use crate::phoneme_map::PhonemeIdMap;
use crate::text::owned;
use crate::voice::{self, InferenceDefaults, Voice};

verus! {

/// The `audio` section.
#[derive(Debug, Clone, Copy, PartialEq, Eq, Structural)]
pub struct AudioConfig {
    pub sample_rate: u32,
}

/// The `espeak` section.
#[derive(Debug, Clone, PartialEq, Eq)]
pub struct ESpeakConfig {
    pub voice: String,
}

/// The `inference` section; each scale is the IEEE-754 bit pattern of an
/// `f32`.
#[derive(Debug, Clone, Copy, PartialEq, Eq, Structural)]
pub struct InferenceConfig {
    pub noise_scale: u32,
    pub length_scale: u32,
    pub noise_w: u32,
}

/// A voice configuration file.
#[derive(Debug, Clone, PartialEq)]
pub struct ModelConfig {
    pub audio: AudioConfig,
    pub espeak: ESpeakConfig,
    pub inference: InferenceConfig,
    pub num_speakers: u32,
    pub speaker_id_map: HashMap<String, i64>,
    pub phoneme_id_map: PhonemeIdMap,
}

/// `voice` is `config` under the id `voice_id`: every field carried over.
pub open spec fn voice_of_config(voice: Voice, voice_id: Seq<char>, config: ModelConfig) -> bool {
    &&& voice.voice_id@ == voice_id
    &&& voice.audio.sample_rate == config.audio.sample_rate
    &&& voice.inference_defaults == (InferenceDefaults {
        noise_scale: config.inference.noise_scale,
        length_scale: config.inference.length_scale,
        noise_w: config.inference.noise_w,
    })
    &&& voice.num_speakers == config.num_speakers
    &&& voice.speaker_map@ == config.speaker_id_map@
    &&& voice.phoneme_id_map@ == config.phoneme_id_map@
    &&& voice.espeak_voice@ == config.espeak.voice@
}

/// The voice a configuration describes, under the id `voice_id`.
pub fn model_config_to_voice(voice_id: &str, config: &ModelConfig) -> (v: Voice)
    ensures
        voice_of_config(v, voice_id@, *config),
{
    Voice {
        voice_id: owned(voice_id),
        audio: voice::AudioConfig { sample_rate: config.audio.sample_rate },
        inference_defaults: InferenceDefaults {
            noise_scale: config.inference.noise_scale,
            length_scale: config.inference.length_scale,
            noise_w: config.inference.noise_w,
        },
        num_speakers: config.num_speakers,
        speaker_map: config.speaker_id_map.clone(),
        phoneme_id_map: config.phoneme_id_map.clone(),
        espeak_voice: config.espeak.voice.clone(),
    }
}

/// The ids of `phonemes` under the configuration's phoneme table; the
/// same ids `encode_phonemes` gives, without the warnings.
pub fn phonemes_to_ids(config: &ModelConfig, phonemes: &str) -> (r: Vec<i64>)
    ensures
        r@ == encoded_ids(config.phoneme_id_map@, nfd(phonemes@)),
{
    let encoding = encode_phonemes(&config.phoneme_id_map, phonemes);
    encoding.ids.0
}

} // verus!
