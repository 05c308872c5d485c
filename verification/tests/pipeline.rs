use tts_core::bindings::ChannelBindingStore;
use tts_core::gateway::TransportError;
use tts_core::models::Voice;
use tts_core::orchestrator::{
    preflight, submit_playback, outcome_report, MessageEvent, OrchestratorConfig, PipelineOutcome,
    Preflight,
};
use tts_core::profiles::VoiceProfileStore;
use tts_core::sanitize::Mention;
use tts_core::session::VoiceSessionRegistry;

fn config() -> OrchestratorConfig {
    OrchestratorConfig {
        bot_name: "Gabby".to_string(),
        command_prefix: "g/".to_string(),
        denylist_exact: vec!["bitch".to_string()],
        denylist_substring: vec!["crumpets".to_string()],
    }
}

fn message(author_id: u64, guild: Option<u64>, channel: u64, content: &str) -> MessageEvent {
    MessageEvent {
        author_id,
        author_name: "someone".to_string(),
        guild_id: guild,
        channel_id: channel,
        content: content.to_string(),
        mentions: vec![],
    }
}

fn voice() -> Voice {
    Voice {
        language_code: "en-US".to_string(),
        name: "en-US-Wavenet-A".to_string(),
        ssml_gender: "FEMALE".to_string(),
    }
}

#[test]
fn full_run_reaches_playing() {
    let cfg = config();
    let mut bindings = ChannelBindingStore::new();
    let mut profiles = VoiceProfileStore::new();
    let mut registry = VoiceSessionRegistry::new();
    bindings.bind(1, 100);
    profiles.set_if_absent(7, voice());
    let handle = registry.join(1, 55).unwrap();

    let msg = message(7, Some(1), 100, "hello");
    let job = match preflight(&cfg, &msg, &bindings, &profiles) {
        Preflight::Synthesize(job) => job,
        _ => panic!("expected a synthesis job"),
    };
    assert_eq!(job.guild, 1);
    assert_eq!(job.text, "hello");
    assert_eq!(job.voice, voice());

    let audio = vec![0x4f, 0x67, 0x67];
    let outcome = submit_playback(&mut registry, handle, Ok(audio.clone()), true);
    assert_eq!(outcome, PipelineOutcome::Playing);
    assert_eq!(registry.current_playback(handle), Some(&audio));
    assert_eq!(outcome_report(outcome), None);
}

#[test]
fn wrong_channel_stops_at_unbound() {
    let cfg = config();
    let mut bindings = ChannelBindingStore::new();
    let mut profiles = VoiceProfileStore::new();
    bindings.bind(1, 100);
    profiles.set_if_absent(7, voice());

    let msg = message(7, Some(1), 101, "hello");
    assert!(matches!(preflight(&cfg, &msg, &bindings, &profiles), Preflight::Unbound));
}

#[test]
fn unbound_guild_stops_at_unbound() {
    let cfg = config();
    let bindings = ChannelBindingStore::new();
    let profiles = VoiceProfileStore::new();
    let msg = message(7, Some(1), 100, "hello");
    assert!(matches!(preflight(&cfg, &msg, &bindings, &profiles), Preflight::Unbound));
}

#[test]
fn bot_author_is_filtered() {
    let cfg = config();
    let bindings = ChannelBindingStore::new();
    let profiles = VoiceProfileStore::new();
    let mut msg = message(7, Some(1), 100, "hello");
    msg.author_name = "Gabby".to_string();
    assert!(matches!(preflight(&cfg, &msg, &bindings, &profiles), Preflight::Filtered));
}

#[test]
fn denylist_and_prefix_are_filtered() {
    let cfg = config();
    let mut bindings = ChannelBindingStore::new();
    let mut profiles = VoiceProfileStore::new();
    bindings.bind(1, 100);
    profiles.set_if_absent(7, voice());
    for content in ["bitch", "buttered crumpets here", "g/join"] {
        let msg = message(7, Some(1), 100, content);
        assert!(matches!(preflight(&cfg, &msg, &bindings, &profiles), Preflight::Filtered));
    }
}

#[test]
fn direct_message_is_filtered() {
    let cfg = config();
    let bindings = ChannelBindingStore::new();
    let profiles = VoiceProfileStore::new();
    let msg = message(7, None, 100, "hello");
    assert!(matches!(preflight(&cfg, &msg, &bindings, &profiles), Preflight::Filtered));
}

#[test]
fn missing_profile_stops_quietly() {
    let cfg = config();
    let mut bindings = ChannelBindingStore::new();
    let profiles = VoiceProfileStore::new();
    bindings.bind(1, 100);
    let msg = message(7, Some(1), 100, "hello");
    assert!(matches!(preflight(&cfg, &msg, &bindings, &profiles), Preflight::NoProfile));
}

#[test]
fn message_that_sanitizes_to_nothing_stops_quietly() {
    let cfg = config();
    let mut bindings = ChannelBindingStore::new();
    let mut profiles = VoiceProfileStore::new();
    bindings.bind(1, 100);
    profiles.set_if_absent(7, voice());
    let msg = message(7, Some(1), 100, "http://x.co/a");
    assert!(matches!(preflight(&cfg, &msg, &bindings, &profiles), Preflight::NothingToSay));
}

#[test]
fn mentions_are_spoken_by_display_name() {
    let cfg = config();
    let mut bindings = ChannelBindingStore::new();
    let mut profiles = VoiceProfileStore::new();
    bindings.bind(1, 100);
    profiles.set_if_absent(7, voice());
    let mut msg = message(7, Some(1), 100, "hi <@!9>");
    msg.mentions = vec![Mention { user_id: 9, display_name: "Sam".to_string() }];
    match preflight(&cfg, &msg, &bindings, &profiles) {
        Preflight::Synthesize(job) => assert_eq!(job.text, "hi Sam"),
        _ => panic!("expected a synthesis job"),
    }
}

#[test]
fn failed_synthesis_reports_generically() {
    let mut registry = VoiceSessionRegistry::new();
    let handle = registry.join(1, 55).unwrap();
    let outcome = submit_playback(
        &mut registry,
        handle,
        Err(TransportError::Unreachable),
        true,
    );
    assert_eq!(outcome, PipelineOutcome::SynthesisFailed);
    assert_eq!(registry.current_playback(handle), None);
    assert_eq!(outcome_report(outcome), Some("Could not synthesize speech".to_string()));
}

#[test]
fn no_session_outcome_after_leave() {
    let mut registry = VoiceSessionRegistry::new();
    let handle = registry.join(1, 55).unwrap();
    registry.leave(1);
    let outcome = submit_playback(&mut registry, handle, Ok(vec![1]), true);
    assert_eq!(outcome, PipelineOutcome::NoSession);
    assert_eq!(outcome_report(outcome), Some("Not in a voice channel".to_string()));
}

#[test]
fn refused_transport_reports_playback_failure() {
    let mut registry = VoiceSessionRegistry::new();
    let handle = registry.join(1, 55).unwrap();
    let outcome = submit_playback(&mut registry, handle, Ok(vec![1]), false);
    assert_eq!(outcome, PipelineOutcome::PlaybackFailed);
    assert_eq!(registry.current_playback(handle), None);
    assert_eq!(outcome_report(outcome), Some("Could not play the audio".to_string()));
}

#[test]
fn quiet_outcomes_send_nothing() {
    for o in [
        PipelineOutcome::Filtered,
        PipelineOutcome::Unbound,
        PipelineOutcome::NoProfile,
        PipelineOutcome::NothingToSay,
        PipelineOutcome::Playing,
    ] {
        assert_eq!(outcome_report(o), None);
    }
}
