//! Per-call inference overrides and their resolution against a voice's
//! defaults.

use vstd::prelude::*;
use crate::voice::{InferenceDefaults, Voice};

verus! {

/// Per-call overrides of a voice's default inference parameters; a `None`
/// field falls back to the voice's default. Scales are IEEE-754 bit
/// patterns of `f32` values.
#[derive(Debug, Clone, Copy, Default, PartialEq, Eq, Structural)]
pub struct InferenceOverrides {
    pub speaker_id: Option<i64>,
    pub length_scale: Option<u32>,
    pub noise_scale: Option<u32>,
    pub noise_w: Option<u32>,
}

/// Fully resolved inference parameters. `speaker_id` is `Some` exactly
/// when the voice has more than one speaker. Scales are IEEE-754 bit
/// patterns of `f32` values.
#[derive(Debug, Clone, Copy, PartialEq, Eq, Structural)]
pub struct ResolvedInferenceParams {
    pub noise_scale: u32,
    pub length_scale: u32,
    pub noise_w: u32,
    pub speaker_id: Option<i64>,
}

/// `o` if it is set, `d` otherwise.
pub open spec fn or_default<T>(o: Option<T>, d: T) -> T {
    match o {
        Some(v) => v,
        None => d,
    }
}

/// The parameters a voice with `num_speakers` speakers and defaults `d`
/// resolves `o` to: each scale individually falls back to its default;
/// a multi-speaker voice gets the requested speaker or speaker `0`; a
/// single-speaker voice gets no speaker id at all.
pub open spec fn resolved(d: InferenceDefaults, num_speakers: u32, o: InferenceOverrides) -> ResolvedInferenceParams {
    ResolvedInferenceParams {
        noise_scale: or_default(o.noise_scale, d.noise_scale),
        length_scale: or_default(o.length_scale, d.length_scale),
        noise_w: or_default(o.noise_w, d.noise_w),
        speaker_id: if num_speakers > 1 {
            Some(or_default(o.speaker_id, 0i64))
        } else {
            None
        },
    }
}

fn pick<T: Copy>(o: Option<T>, d: T) -> (r: T)
    ensures
        r == or_default(o, d),
{
    match o {
        Some(v) => v,
        None => d,
    }
}

impl Voice {
    /// Resolves per-call overrides against this voice's defaults.
    pub fn resolve_inference_params(&self, overrides: InferenceOverrides) -> (r: ResolvedInferenceParams)
        ensures
            r == resolved(self.inference_defaults, self.num_speakers, overrides),
    {
        let defaults = self.inference_defaults;
        ResolvedInferenceParams {
            noise_scale: pick(overrides.noise_scale, defaults.noise_scale),
            length_scale: pick(overrides.length_scale, defaults.length_scale),
            noise_w: pick(overrides.noise_w, defaults.noise_w),
            speaker_id: if self.num_speakers > 1 {
                Some(pick(overrides.speaker_id, 0))
            } else {
                None
            },
        }
    }
}

/// Each override falls back to its default on its own: an unset scale
/// takes the voice's default and a set one is used as given; a voice with
/// one speaker never gets a speaker id; a multi-speaker voice gets the
/// requested speaker, or speaker `0`.
pub proof fn lemma_overrides_fall_back(d: InferenceDefaults, num_speakers: u32, o: InferenceOverrides)
    ensures
        o.noise_scale is None ==> resolved(d, num_speakers, o).noise_scale == d.noise_scale,
        o.length_scale is None ==> resolved(d, num_speakers, o).length_scale == d.length_scale,
        o.noise_w is None ==> resolved(d, num_speakers, o).noise_w == d.noise_w,
        o.noise_scale matches Some(v) ==> resolved(d, num_speakers, o).noise_scale == v,
        o.length_scale matches Some(v) ==> resolved(d, num_speakers, o).length_scale == v,
        o.noise_w matches Some(v) ==> resolved(d, num_speakers, o).noise_w == v,
        num_speakers <= 1 ==> resolved(d, num_speakers, o).speaker_id is None,
        num_speakers > 1 && o.speaker_id is None ==> resolved(d, num_speakers, o).speaker_id == Some(0i64),
        num_speakers > 1 ==> (o.speaker_id matches Some(s) ==> resolved(d, num_speakers, o).speaker_id == Some(s)),
{
}

} // verus!
