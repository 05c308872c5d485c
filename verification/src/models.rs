//! Value types exchanged with the speech-synthesis gateway.
//!
//! `VoiceListEntity` and `VoiceListResponseEntity` mirror the gateway's voice
//! catalog; `VoiceRequest` and its parts form the body of a synthesis request;
//! `VoiceResponse` carries the encoded audio back.  The structs hold plain
//! values only; (de)serialization to the gateway's wire format happens outside
//! the library.

use vstd::prelude::*;

verus! {

/// One entry of the gateway's voice catalog.
#[derive(Debug, Clone, PartialEq, Eq)]
pub struct VoiceListEntity {
    pub language_codes: Vec<String>,
    pub name: String,
    pub ssml_gender: String,
    pub natural_sample_rate_hertz: u64,
}

/// The catalog: every voice the gateway can synthesize with.
#[derive(Debug, Clone, PartialEq, Eq)]
pub struct VoiceListResponseEntity {
    pub voices: Vec<VoiceListEntity>,
}

/// The gateway's answer to a synthesis request: audio bytes in a
/// base64-encoded container.
#[derive(Debug, Clone, PartialEq, Eq)]
pub struct VoiceResponse {
    pub audio_content: String,
}

/// The text to synthesize.
#[derive(Debug, Clone, PartialEq, Eq)]
pub struct VoiceInput {
    pub text: String,
}

/// A synthesis voice: language, catalog name, and gender tag.  Also the
/// per-user voice profile kept by `VoiceProfileStore`.
#[derive(Debug, Clone, PartialEq, Eq)]
pub struct Voice {
    pub language_code: String,
    pub name: String,
    pub ssml_gender: String,
}

/// Output container settings of a synthesis request.
#[derive(Debug, Clone, PartialEq, Eq)]
pub struct AudioConfig {
    pub audio_encoding: String,
    pub sample_rate_hertz: u32,
}

/// A complete synthesis request: input text, voice, and audio settings.
#[derive(Debug, Clone, PartialEq, Eq)]
pub struct VoiceRequest {
    pub input: VoiceInput,
    pub voice: Voice,
    pub audio_config: AudioConfig,
}

impl VoiceRequest {
    /// Builds the request the pipeline sends for one message: the given text
    /// and voice, with the fixed output encoding `OGG_OPUS`.
    pub fn new(text: String, voice: Voice, sample_rate_hertz: u32) -> (r: VoiceRequest)
        ensures
            r.input.text == text,
            r.voice == voice,
            r.audio_config.audio_encoding@ == "OGG_OPUS"@,
            r.audio_config.sample_rate_hertz == sample_rate_hertz,
    {
        VoiceRequest {
            input: VoiceInput { text },
            voice,
            audio_config: AudioConfig {
                audio_encoding: String::from_str("OGG_OPUS"),
                sample_rate_hertz,
            },
        }
    }
}

} // verus!
