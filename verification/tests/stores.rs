use tts_core::bindings::ChannelBindingStore;
use tts_core::models::Voice;
use tts_core::profiles::VoiceProfileStore;

fn voice(name: &str) -> Voice {
    Voice {
        language_code: "en-US".to_string(),
        name: name.to_string(),
        ssml_gender: "FEMALE".to_string(),
    }
}

#[test]
fn binding_lookup_follows_last_bind() {
    let mut store = ChannelBindingStore::new();
    assert_eq!(store.lookup(1), None);
    assert_eq!(store.bind(1, 100), None);
    assert_eq!(store.lookup(1), Some(100));
    assert_eq!(store.bind(1, 200), Some(100));
    assert_eq!(store.lookup(1), Some(200));
}

#[test]
fn binding_unbind_clears_only_that_guild() {
    let mut store = ChannelBindingStore::new();
    store.bind(1, 100);
    store.bind(2, 999);
    assert!(store.unbind(1));
    assert_eq!(store.lookup(1), None);
    assert_eq!(store.lookup(2), Some(999));
    assert!(!store.unbind(1));
}

#[test]
fn binding_other_guilds_do_not_interfere() {
    let mut store = ChannelBindingStore::new();
    store.bind(7, 70);
    store.bind(8, 80);
    store.unbind(8);
    store.bind(9, 90);
    assert_eq!(store.lookup(7), Some(70));
}

#[test]
fn profile_first_registration_wins() {
    let mut store = VoiceProfileStore::new();
    assert!(store.set_if_absent(42, voice("en-US-Wavenet-A")));
    assert!(!store.set_if_absent(42, voice("en-US-Wavenet-B")));
    assert_eq!(store.get(42), Some(&voice("en-US-Wavenet-A")));
}

#[test]
fn profile_clear_is_idempotent() {
    let mut store = VoiceProfileStore::new();
    store.set_if_absent(42, voice("en-US-Wavenet-A"));
    store.clear(42);
    assert_eq!(store.get(42), None);
    store.clear(42);
    assert_eq!(store.get(42), None);
    assert!(store.set_if_absent(42, voice("en-US-Wavenet-B")));
    assert_eq!(store.get(42), Some(&voice("en-US-Wavenet-B")));
}

#[test]
fn profile_users_are_independent() {
    let mut store = VoiceProfileStore::new();
    store.set_if_absent(1, voice("en-US-Wavenet-A"));
    store.set_if_absent(2, voice("en-US-Wavenet-B"));
    store.clear(1);
    assert_eq!(store.get(1), None);
    assert_eq!(store.get(2), Some(&voice("en-US-Wavenet-B")));
}
