use std::collections::HashMap;

use piper_rs::errors::VoiceLoadError;
use piper_rs::fs_repo::{is_safe_voice_id, load_outcome, FsVoiceRepository};
use piper_rs::model::{AudioConfig, ESpeakConfig, InferenceConfig, ModelConfig};
use piper_rs::phoneme_map::PhonemeIdMap;

fn repo(dir: &str) -> FsVoiceRepository {
    FsVoiceRepository::new(dir.to_string())
}

#[test]
fn rejects_an_absolute_voice_id_instead_of_escaping_base_dir() {
    let result = repo("/tmp/fs-voice-repo-test-absolute").config_path("/etc/passwd");
    assert_eq!(result, Err(VoiceLoadError::NotFound("/etc/passwd".to_string())));
}

#[test]
fn rejects_a_voice_id_containing_dot_dot_traversal() {
    let result = repo("/tmp/fs-voice-repo-test-traversal").config_path("../../../etc/passwd");
    assert_eq!(result, Err(VoiceLoadError::NotFound("../../../etc/passwd".to_string())));
}

#[test]
fn rejects_a_voice_id_containing_a_path_separator() {
    let result = repo("/tmp/fs-voice-repo-test-separator").config_path("sub/voice");
    assert_eq!(result, Err(VoiceLoadError::NotFound("sub/voice".to_string())));
}

#[test]
fn safe_ids_are_single_plain_components() {
    for ok in ["voice", "en_US-lessac-medium", "a.b", "...", ".hidden"] {
        assert!(is_safe_voice_id(ok), "{ok:?} should be safe");
    }
    for bad in ["", ".", "..", "/", "a/", "a/.", "./a", "a//b", "/etc/passwd"] {
        assert!(!is_safe_voice_id(bad), "{bad:?} should be refused");
    }
}

#[test]
fn the_config_path_is_the_id_with_its_suffix_inside_the_directory() {
    assert_eq!(repo("/voices").config_path("v1"), Ok("/voices/v1.onnx.json".to_string()));
    assert_eq!(repo("/voices/").config_path("v1"), Ok("/voices/v1.onnx.json".to_string()));
    assert_eq!(repo("").config_path("v1"), Ok("v1.onnx.json".to_string()));
}

fn config(num_speakers: u32, speakers: HashMap<String, i64>) -> ModelConfig {
    ModelConfig {
        audio: AudioConfig { sample_rate: 16000 },
        espeak: ESpeakConfig { voice: "en-GB".to_string() },
        inference: InferenceConfig {
            noise_scale: 0.5f32.to_bits(),
            length_scale: 1.1f32.to_bits(),
            noise_w: 0.7f32.to_bits(),
        },
        num_speakers,
        speaker_id_map: speakers,
        phoneme_id_map: PhonemeIdMap::from_pairs(vec![('a', vec![10])]),
    }
}

#[test]
fn an_unreadable_config_is_a_missing_voice() {
    assert_eq!(
        load_outcome("does-not-exist", None),
        Err(VoiceLoadError::NotFound("does-not-exist".to_string()))
    );
}

#[test]
fn an_unparsable_config_is_malformed() {
    assert_eq!(
        load_outcome("bad-voice", Some(Err("expected value at line 1".to_string()))),
        Err(VoiceLoadError::MalformedConfig("expected value at line 1".to_string()))
    );
}

#[test]
fn a_parsed_config_becomes_the_voice() {
    let speakers = HashMap::from([("alice".to_string(), 0i64), ("bob".to_string(), 1i64)]);
    let voice = load_outcome("multi-voice", Some(Ok(config(2, speakers)))).unwrap();

    assert_eq!(voice.voice_id, "multi-voice");
    assert_eq!(voice.audio.sample_rate, 16000);
    assert_eq!(voice.espeak_voice, "en-GB");
    assert_eq!(f32::from_bits(voice.inference_defaults.length_scale), 1.1);
    assert_eq!(voice.phoneme_id_map.get(&'a'), Some(&vec![10i64]));
    let speakers = voice.speakers().expect("multi-speaker voice should return Some");
    assert_eq!(speakers.get("alice"), Some(&0i64));
    assert_eq!(speakers.get("bob"), Some(&1i64));
}
