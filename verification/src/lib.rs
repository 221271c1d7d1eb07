//! Verified core of a Piper text-to-speech front end: voices, phoneme
//! encoding, inference-parameter resolution, the use cases that compose
//! them, and the pure decision logic of the phonemizer and inference
//! adapters.

use vstd::prelude::*;

pub mod text;
pub mod errors;
pub mod phoneme_map;
pub mod phoneme;
pub mod voice;
pub mod inference;
pub mod ports;
pub mod registry;
pub mod use_cases;
pub mod stub;
pub mod espeak;
pub mod espeak_adapter;
pub mod model;
pub mod fs_repo;
pub mod ort_adapter;
pub mod piper;
pub mod cmake;

verus! {

} // verus!
