use piper_rs::errors::VoiceLoadError;
use piper_rs::phoneme_map::PhonemeIdMap;
use piper_rs::registry::VoiceRegistry;
use piper_rs::voice::{AudioConfig, InferenceDefaults, SpeakerMap, Voice};

fn voice(voice_id: &str) -> Voice {
    Voice {
        voice_id: voice_id.to_string(),
        audio: AudioConfig { sample_rate: 22050 },
        inference_defaults: InferenceDefaults {
            noise_scale: 0.667f32.to_bits(),
            length_scale: 1.0f32.to_bits(),
            noise_w: 0.8f32.to_bits(),
        },
        num_speakers: 1,
        speaker_map: SpeakerMap::new(),
        phoneme_id_map: PhonemeIdMap::new(),
        espeak_voice: "en-US".to_string(),
    }
}

#[test]
fn lookup_returns_not_found_for_an_unregistered_voice() {
    let registry = VoiceRegistry::new();
    assert_eq!(
        registry.lookup("missing"),
        Err(VoiceLoadError::NotFound("missing".to_string()))
    );
}

#[test]
fn lookup_returns_a_registered_voice() {
    let mut registry = VoiceRegistry::new();
    registry.register(voice("v1"));

    let found = registry.lookup("v1").unwrap();

    assert_eq!(found.voice_id, "v1");
}

#[test]
fn list_returns_every_registered_voice() {
    let mut registry = VoiceRegistry::new();
    registry.register(voice("v1"));
    registry.register(voice("v2"));

    let mut ids: Vec<_> = registry.list().iter().map(|v| v.voice_id.clone()).collect();
    ids.sort();

    assert_eq!(ids, vec!["v1".to_string(), "v2".to_string()]);
}

#[test]
fn registering_an_id_again_replaces_the_voice() {
    let mut registry = VoiceRegistry::new();
    registry.register(voice("v1"));
    let mut second = voice("v1");
    second.espeak_voice = "fr-FR".to_string();
    registry.register(second.clone());

    assert_eq!(registry.lookup("v1"), Ok(&second));
    assert_eq!(registry.list().len(), 1);
}

#[test]
fn registering_a_voice_leaves_others_alone() {
    let mut registry = VoiceRegistry::new();
    registry.register(voice("v1"));
    registry.register(voice("v2"));

    assert_eq!(registry.lookup("v1"), Ok(&voice("v1")));
    assert_eq!(registry.lookup("v2"), Ok(&voice("v2")));
    assert_eq!(registry.lookup("v3"), Err(VoiceLoadError::NotFound("v3".to_string())));
}

#[test]
fn an_empty_registry_lists_nothing() {
    assert!(VoiceRegistry::new().list().is_empty());
}
