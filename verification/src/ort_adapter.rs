//! The model-facing decisions of the ONNX inference adapter: how many
//! inputs a model must take, and the tensors one inference call feeds it.
//! Building the runtime's tensors and running the session are left to
//! the caller.

use vstd::prelude::*;
use crate::errors::InferenceError;
use crate::inference::ResolvedInferenceParams;
use crate::phoneme::PhonemeIdSequence;
use crate::phoneme_map::copy_ids;

verus! {

/// The number of inputs a model takes: phoneme ids, their length, the
/// scales, and a speaker id when the voice has several speakers.
pub open spec fn expected_inputs(expects_speaker_tensor: bool) -> usize {
    if expects_speaker_tensor { 4 } else { 3 }
}

/// Checks that a model with `actual` inputs fits the voice's speaker
/// mode.
pub fn check_arity(expects_speaker_tensor: bool, actual: usize) -> (r: Result<(), InferenceError>)
    ensures
        actual == expected_inputs(expects_speaker_tensor) ==> r is Ok,
        actual != expected_inputs(expects_speaker_tensor) ==> r == Err::<(), InferenceError>(InferenceError::ArityMismatch {
            expected: expected_inputs(expects_speaker_tensor),
            actual,
        }),
{
    let expected: usize = if expects_speaker_tensor { 4 } else { 3 };
    if actual != expected {
        return Err(InferenceError::ArityMismatch { expected, actual });
    }
    Ok(())
}

/// The data of the tensors of one inference call.
#[derive(Debug, Clone, PartialEq, Eq)]
pub struct InputTensors {
    /// The phoneme ids, shaped `[1, input.len()]`.
    pub input: Vec<i64>,
    /// The number of phoneme ids, shaped `[1]`.
    pub input_lengths: Vec<i64>,
    /// Noise scale, length scale and noise width, in that order, as
    /// `f32` bit patterns, shaped `[3]`.
    pub scales: Vec<u32>,
    /// The speaker id, shaped `[1]`, only for a multi-speaker call.
    pub speaker_id: Option<Vec<i64>>,
}

/// Lays out the tensors for `ids` and `params`. Whether a speaker tensor
/// is built follows `params.speaker_id` alone.
pub fn build_input_tensors(ids: &PhonemeIdSequence, params: &ResolvedInferenceParams) -> (t: InputTensors)
    requires
        ids.0@.len() <= i64::MAX,
    ensures
        t.input@ == ids.0@,
        t.input_lengths@ == seq![ids.0@.len() as i64],
        t.scales@ == seq![params.noise_scale, params.length_scale, params.noise_w],
        match params.speaker_id {
            Some(sid) => t.speaker_id matches Some(v) && v@ == seq![sid],
            None => t.speaker_id is None,
        },
{
    let input = copy_ids(&ids.0);
    let mut input_lengths: Vec<i64> = Vec::new();
    input_lengths.push(ids.0.len() as i64);
    let mut scales: Vec<u32> = Vec::new();
    scales.push(params.noise_scale);
    scales.push(params.length_scale);
    scales.push(params.noise_w);
    let speaker_id = match params.speaker_id {
        Some(sid) => {
            let mut v: Vec<i64> = Vec::new();
            v.push(sid);
            assert(v@ =~= seq![sid]);
            Some(v)
        },
        None => None,
    };
    assert(input_lengths@ =~= seq![ids.0@.len() as i64]);
    assert(scales@ =~= seq![params.noise_scale, params.length_scale, params.noise_w]);
    InputTensors { input, input_lengths, scales, speaker_id }
}

} // verus!
