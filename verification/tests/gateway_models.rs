use tts_core::gateway::{decode_audio_content, TransportError};
use tts_core::models::{
    Voice, VoiceInput, VoiceListEntity, VoiceListResponseEntity, VoiceRequest, VoiceResponse,
};
use tts_core::voices::{find_voice, voice_catalog_help};

fn entry(codes: &[&str], name: &str, gender: &str) -> VoiceListEntity {
    VoiceListEntity {
        language_codes: codes.iter().map(|c| c.to_string()).collect(),
        name: name.to_string(),
        ssml_gender: gender.to_string(),
        natural_sample_rate_hertz: 24000,
    }
}

#[test]
fn base64_payload_decodes() {
    let resp = VoiceResponse { audio_content: "aGVsbG8=".to_string() };
    assert_eq!(decode_audio_content(&resp), Ok(b"hello".to_vec()));
}

#[test]
fn empty_payload_decodes_to_nothing() {
    let resp = VoiceResponse { audio_content: String::new() };
    assert_eq!(decode_audio_content(&resp), Ok(Vec::new()));
}

#[test]
fn bad_payload_is_malformed() {
    let resp = VoiceResponse { audio_content: "not base64 at all!".to_string() };
    assert_eq!(decode_audio_content(&resp), Err(TransportError::MalformedResponse));
}

#[test]
fn request_carries_fixed_encoding() {
    let voice = Voice {
        language_code: "en-US".to_string(),
        name: "en-US-Wavenet-A".to_string(),
        ssml_gender: "FEMALE".to_string(),
    };
    let req = VoiceRequest::new("hello".to_string(), voice.clone(), 24000);
    assert_eq!(req.input.text, "hello");
    assert_eq!(req.voice, voice);
    assert_eq!(req.audio_config.audio_encoding, "OGG_OPUS");
    assert_eq!(req.audio_config.sample_rate_hertz, 24000);
}

#[test]
fn catalog_wrapper_holds_its_entries() {
    let listing = VoiceListResponseEntity {
        voices: vec![entry(&["en-US"], "en-US-Wavenet-A", "FEMALE")],
    };
    assert_eq!(listing.voices.len(), 1);
    assert_eq!(listing.voices[0].natural_sample_rate_hertz, 24000);
    let input = VoiceInput { text: "hi".to_string() };
    assert_eq!(input.text, "hi");
}

#[test]
fn find_voice_matches_exactly() {
    let catalog = vec![entry(&["en-US"], "en-US-Wavenet-A", "FEMALE")];
    let v = find_voice(&catalog, "en-US-Wavenet-A").unwrap();
    assert_eq!(v.language_code, "en-US");
    assert_eq!(v.name, "en-US-Wavenet-A");
    assert_eq!(v.ssml_gender, "FEMALE");
}

#[test]
fn find_voice_ignores_case_and_whitespace() {
    let catalog = vec![entry(&["en-GB"], "en-GB-Wavenet-B", "MALE")];
    let v = find_voice(&catalog, "  EN-gb-wavenet-b \n").unwrap();
    assert_eq!(v.name, "en-GB-Wavenet-B");
}

#[test]
fn find_voice_skips_entries_without_language_codes() {
    let catalog = vec![
        entry(&[], "en-US-Wavenet-A", "FEMALE"),
        entry(&["en-US", "en-GB"], "en-US-Wavenet-A", "MALE"),
    ];
    let v = find_voice(&catalog, "en-US-Wavenet-A").unwrap();
    assert_eq!(v.ssml_gender, "MALE");
    assert_eq!(v.language_code, "en-US");
}

#[test]
fn find_voice_takes_the_first_match() {
    let catalog = vec![
        entry(&["en-US"], "en-US-Wavenet-A", "FEMALE"),
        entry(&["en-GB"], "en-us-wavenet-a", "MALE"),
    ];
    let v = find_voice(&catalog, "EN-US-WAVENET-A").unwrap();
    assert_eq!(v.ssml_gender, "FEMALE");
}

#[test]
fn find_voice_unknown_name_is_none() {
    let catalog = vec![entry(&["en-US"], "en-US-Wavenet-A", "FEMALE")];
    assert!(find_voice(&catalog, "nope").is_none());
}

#[test]
fn catalog_help_lists_english_voices() {
    let catalog = vec![
        entry(&["en-US"], "en-US-Wavenet-C", "FEMALE"),
        entry(&["de-DE"], "de-DE-Wavenet-A", "FEMALE"),
        entry(&["en-GB"], "en-GB-Wavenet-B", "MALE"),
        entry(&[], "en-US-Orphan", "NEUTRAL"),
    ];
    assert_eq!(
        voice_catalog_help(&catalog),
        "> female: en-US-Wavenet-C\n> male: en-GB-Wavenet-B\n"
    );
}

#[test]
fn catalog_help_is_empty_without_english_voices() {
    let catalog = vec![entry(&["fr-FR"], "fr-FR-Wavenet-A", "FEMALE")];
    assert_eq!(voice_catalog_help(&catalog), "");
}
