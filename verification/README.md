# piper-rs

A text-to-speech front end for Piper voice models, with its core written
in Verus and proved against its contracts.

- `src/` is the verified library: voices and their phoneme tables, phoneme
  encoding (with Unicode NFD normalization), inference-parameter
  resolution, the voice registry, the load/phonemize/synthesize use cases,
  the single-voice synthesizer, and the decision logic of the espeak-ng
  and ONNX Runtime adapters (clause accumulation, deadlines, queue
  failures, tensor layout, model arity), plus the build-configuration
  decisions a build script for espeak-ng makes (CMake booleans and
  caches, library names and patterns, Android settings); this crate has
  no build script of its own, so they are offered as library functions.
- The ports (`Phonemizer`, `InferenceEngine`, `VoiceRepository`) carry a
  spec function each that an implementation may define to say what it
  answers; the use cases state which arguments they hand to the ports and
  how each answer becomes their result.
- `app/` holds what touches the outside world: reading configuration
  files with serde, running ONNX models with `ort`, calling espeak-ng
  (through its C library or the `espeak-ng` crate), and the worker thread
  that serializes those calls.
- `tests/` exercises the library on concrete values.

Scales and audio samples are single-precision floats in the models; the
library carries them as their IEEE-754 bit patterns (`f32::to_bits`), since
it only ever moves them and never computes with them.
