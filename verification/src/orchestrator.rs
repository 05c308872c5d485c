//! The per-message pipeline: from an inbound message event to a terminal
//! outcome.
//!
//! Each message runs the same gauntlet, and every stop is terminal: the
//! message is filtered (bot-authored, denylisted, command-prefixed, or not
//! from a guild); the guild has no binding or the message sits in the wrong
//! channel; the author has no voice profile; the sanitized text is empty;
//! synthesis failed; the guild has no live session; playback was refused; or
//! the audio is playing.  The two outside exchanges — synthesis and the
//! voice transport's verdict on a submission — happen between `preflight`
//! and `submit_playback`; their results come back in as plain values.

use crate::bindings::{lookup_spec, ChannelBindingStore};
use crate::gateway::TransportError;
use crate::models::Voice;
use crate::profiles::{get_spec, VoiceProfileStore};
use crate::sanitize::{mention_views, sanitize, Mention};
use crate::session::{play_accepted_spec, PlaybackError, SessionHandle, VoiceSessionRegistry};
use crate::text::{contains_sub, contains_sub_exec, starts_with, starts_with_exec, str_to_chars};
use vstd::prelude::*;

verus! {

/// One inbound chat message, as plain values.
pub struct MessageEvent {
    pub author_id: u64,
    pub author_name: String,
    /// `None` for a direct message outside any guild.
    pub guild_id: Option<u64>,
    pub channel_id: u64,
    pub content: String,
    pub mentions: Vec<Mention>,
}

/// What the pipeline filters on sight: the bot's own name, the command
/// prefix, and two denylists — messages equal to an entry, and messages
/// containing an entry.
pub struct OrchestratorConfig {
    pub bot_name: String,
    pub command_prefix: String,
    pub denylist_exact: Vec<String>,
    pub denylist_substring: Vec<String>,
}

/// Is the message dropped before any store is consulted?  True when it is
/// authored by the bot itself, equals a denylisted string, contains a
/// denylisted string, starts with the command prefix, or arrives outside
/// any guild.
pub open spec fn filtered_spec(cfg: OrchestratorConfig, msg: MessageEvent) -> bool {
    ||| msg.author_name@ == cfg.bot_name@
    ||| exists|i: int|
        0 <= i < cfg.denylist_exact@.len() && cfg.denylist_exact@[i]@ == msg.content@
    ||| exists|i: int|
        0 <= i < cfg.denylist_substring@.len() && contains_sub(
            msg.content@,
            cfg.denylist_substring@[i]@,
        )
    ||| starts_with(msg.content@, cfg.command_prefix@)
    ||| msg.guild_id is None
}

/// Does the message sit in the very channel its guild is bound to?
pub open spec fn bound_to_spec(bindings: Map<u64, u64>, msg: MessageEvent) -> bool {
    msg.guild_id matches Some(g) && lookup_spec(bindings, g) == Some(msg.channel_id)
}

/// The speakable text of the message.
pub open spec fn speech_text_spec(msg: MessageEvent) -> Seq<char> {
    crate::sanitize::sanitize_spec(msg.content@, mention_views(msg.mentions@))
}

/// What `preflight` decided for one message.
pub enum Preflight {
    /// Dropped on sight; deliberately silent.
    Filtered,
    /// No binding, or the wrong channel; deliberately silent.
    Unbound,
    /// The author never registered a voice; deliberately silent.
    NoProfile,
    /// Sanitizing left nothing to say; deliberately silent.
    NothingToSay,
    /// Everything checked out: synthesize this.
    Synthesize(SynthesisJob),
}

/// The synthesis work order for one message.
pub struct SynthesisJob {
    pub guild: u64,
    pub text: String,
    pub voice: Voice,
}

/// The terminal state of one pipeline run.
#[derive(Debug, Clone, Copy, PartialEq, Eq, Structural)]
pub enum PipelineOutcome {
    Filtered,
    Unbound,
    NoProfile,
    NothingToSay,
    SynthesisFailed,
    NoSession,
    PlaybackFailed,
    Playing,
}

fn is_filtered(cfg: &OrchestratorConfig, msg: &MessageEvent) -> (b: bool)
    ensures
        b == filtered_spec(*cfg, *msg),
{
    if msg.author_name.eq(&cfg.bot_name) {
        return true;
    }
    let ne: usize = cfg.denylist_exact.len();
    let mut i: usize = 0;
    while i < ne
        invariant
            i <= ne == cfg.denylist_exact@.len(),
            forall|j: int| 0 <= j < i ==> cfg.denylist_exact@[j]@ != msg.content@,
        decreases ne - i,
    {
        if cfg.denylist_exact[i].eq(&msg.content) {
            return true;
        }
        i = i + 1;
    }
    let content = str_to_chars(msg.content.as_str());
    let ns: usize = cfg.denylist_substring.len();
    let mut i: usize = 0;
    while i < ns
        invariant
            i <= ns == cfg.denylist_substring@.len(),
            content@ == msg.content@,
            forall|j: int|
                0 <= j < i ==> !contains_sub(msg.content@, cfg.denylist_substring@[j]@),
        decreases ns - i,
    {
        let needle = str_to_chars(cfg.denylist_substring[i].as_str());
        if contains_sub_exec(&content, &needle) {
            return true;
        }
        i = i + 1;
    }
    let prefix = str_to_chars(cfg.command_prefix.as_str());
    if starts_with_exec(&content, &prefix) {
        return true;
    }
    match msg.guild_id {
        None => true,
        Some(_) => false,
    }
}

/// Runs the quiet half of the pipeline — everything up to, but not
/// including, the synthesis call: filters, the channel binding, the
/// author's profile, and sanitizing.  Every dropped message reports which
/// terminal state dropped it; a message that passes comes back as a
/// `Synthesize` job holding the sanitized text and the author's voice.
pub fn preflight(
    cfg: &OrchestratorConfig,
    msg: &MessageEvent,
    bindings: &ChannelBindingStore,
    profiles: &VoiceProfileStore,
) -> (p: Preflight)
    ensures
        p is Filtered <==> filtered_spec(*cfg, *msg),
        p is Unbound <==> !filtered_spec(*cfg, *msg) && !bound_to_spec(bindings@, *msg),
        p is NoProfile <==> !filtered_spec(*cfg, *msg) && bound_to_spec(bindings@, *msg)
            && get_spec(profiles@, msg.author_id) is None,
        p is NothingToSay <==> !filtered_spec(*cfg, *msg) && bound_to_spec(bindings@, *msg)
            && get_spec(profiles@, msg.author_id) is Some && speech_text_spec(*msg).len() == 0,
        p is Synthesize <==> !filtered_spec(*cfg, *msg) && bound_to_spec(bindings@, *msg)
            && get_spec(profiles@, msg.author_id) is Some && speech_text_spec(*msg).len() > 0,
        p matches Preflight::Synthesize(job) ==> {
            &&& msg.guild_id == Some(job.guild)
            &&& job.text@ == speech_text_spec(*msg)
            &&& get_spec(profiles@, msg.author_id) matches Some(v)
                && job.voice.language_code@ == v.language_code@ && job.voice.name@ == v.name@
                && job.voice.ssml_gender@ == v.ssml_gender@
        },
{
    if is_filtered(cfg, msg) {
        return Preflight::Filtered;
    }
    let guild: u64 = match msg.guild_id {
        Some(g) => g,
        None => {
            return Preflight::Filtered;
        },
    };
    match bindings.lookup(guild) {
        Some(channel) if channel == msg.channel_id => {},
        _ => {
            return Preflight::Unbound;
        },
    }
    let voice: Voice = match profiles.get(msg.author_id) {
        Some(v) => Voice {
            language_code: v.language_code.clone(),
            name: v.name.clone(),
            ssml_gender: v.ssml_gender.clone(),
        },
        None => {
            return Preflight::NoProfile;
        },
    };
    let text = sanitize(msg.content.as_str(), &msg.mentions);
    if text.as_str().is_empty() {
        return Preflight::NothingToSay;
    }
    Preflight::Synthesize(SynthesisJob { guild, text, voice })
}

/// Runs the loud half of the pipeline, after the synthesis exchange: maps a
/// failed synthesis to `SynthesisFailed`, and otherwise submits the audio
/// through `handle` — a stale handle ends in `NoSession`, a submission the
/// transport refused in `PlaybackFailed`, and an accepted one in `Playing`
/// with the session now holding exactly this audio.
pub fn submit_playback(
    registry: &mut VoiceSessionRegistry,
    handle: SessionHandle,
    synthesis: Result<Vec<u8>, TransportError>,
    transport_accepted: bool,
) -> (o: PipelineOutcome)
    requires
        old(registry)@.wf(),
    ensures
        final(registry)@.wf(),
        synthesis is Err ==> o == PipelineOutcome::SynthesisFailed && final(registry)@ == old(
            registry,
        )@,
        synthesis is Ok && !old(registry)@.handle_valid(handle) ==> o
            == PipelineOutcome::NoSession && final(registry)@ == old(registry)@,
        synthesis is Ok && old(registry)@.handle_valid(handle) && !transport_accepted ==> o
            == PipelineOutcome::PlaybackFailed && final(registry)@ == old(registry)@,
        synthesis matches Ok(audio) ==> (old(registry)@.handle_valid(handle) && transport_accepted
            ==> o == PipelineOutcome::Playing && final(registry)@ == play_accepted_spec(
            old(registry)@,
            handle,
            audio@,
        )),
{
    match synthesis {
        Err(_) => PipelineOutcome::SynthesisFailed,
        Ok(audio) => match registry.play(handle, audio, transport_accepted) {
            Ok(()) => PipelineOutcome::Playing,
            Err(PlaybackError::NoSession) => PipelineOutcome::NoSession,
            Err(PlaybackError::Rejected) => PipelineOutcome::PlaybackFailed,
        },
    }
}

/// The one short message a terminal state sends back to the originating
/// channel, or `None` for the deliberately quiet states (and for success,
/// where the speech itself is the confirmation).  Failure reports are
/// generic on purpose: no transport detail leaks into chat.
pub fn outcome_report(o: PipelineOutcome) -> (r: Option<String>)
    ensures
        r is Some <==> (o == PipelineOutcome::SynthesisFailed || o == PipelineOutcome::NoSession
            || o == PipelineOutcome::PlaybackFailed),
        o == PipelineOutcome::SynthesisFailed ==> (r matches Some(m) && m@
            == "Could not synthesize speech"@),
        o == PipelineOutcome::NoSession ==> (r matches Some(m) && m@
            == "Not in a voice channel"@),
        o == PipelineOutcome::PlaybackFailed ==> (r matches Some(m) && m@
            == "Could not play the audio"@),
{
    match o {
        PipelineOutcome::SynthesisFailed => Some(String::from_str("Could not synthesize speech")),
        PipelineOutcome::NoSession => Some(String::from_str("Not in a voice channel")),
        PipelineOutcome::PlaybackFailed => Some(String::from_str("Could not play the audio")),
        _ => None,
    }
}

} // verus!
