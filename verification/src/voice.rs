//! A loaded voice: its audio settings, inference defaults, speakers and
//! phoneme table.

use std::collections::HashMap;
use vstd::prelude::*;
use crate::phoneme_map::PhonemeIdMap;

verus! {

/// Audio output settings of a voice.
#[derive(Debug, Clone, Copy, PartialEq, Eq, Structural)]
pub struct AudioConfig {
    pub sample_rate: u32,
}

/// Default inference parameters of a voice. Each field holds the IEEE-754
/// bit pattern of a single-precision scale (`f32::to_bits`); the library
/// only ever chooses between such values and never computes with them.
#[derive(Debug, Clone, Copy, PartialEq, Eq, Structural)]
pub struct InferenceDefaults {
    pub noise_scale: u32,
    pub length_scale: u32,
    pub noise_w: u32,
}

/// Speaker name to speaker id.
pub type SpeakerMap = HashMap<String, i64>;

/// A voice, ready for synthesis.
#[derive(Debug, Clone, PartialEq)]
pub struct Voice {
    pub voice_id: String,
    pub audio: AudioConfig,
    pub inference_defaults: InferenceDefaults,
    pub num_speakers: u32,
    pub speaker_map: SpeakerMap,
    pub phoneme_id_map: PhonemeIdMap,
    pub espeak_voice: String,
}

impl Voice {
    /// Whether the voice has more than one speaker.
    pub open spec fn is_multi_speaker(&self) -> bool {
        self.num_speakers > 1
    }

    /// The speaker map of a multi-speaker voice; `None` for a voice with
    /// a single speaker, whatever its map holds.
    pub fn speakers(&self) -> (r: Option<&SpeakerMap>)
        ensures
            r == (if self.is_multi_speaker() {
                Some(&self.speaker_map)
            } else {
                None
            }),
    {
        if self.num_speakers > 1 {
            Some(&self.speaker_map)
        } else {
            None
        }
    }
}

} // verus!
