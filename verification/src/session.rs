//! Per-guild voice sessions and the playback policy.
//!
//! A guild has zero or one live sessions.  A session is reached through a
//! `SessionHandle` stamped with the epoch of the `join` that created it;
//! leaving the guild retires the epoch, so every handle handed out before a
//! `leave` fails from then on, even after a re-join.  At most one playback is
//! recorded per session, and a new submission replaces the current one: the
//! last call to land wins, and two payloads are never mixed.  Mute and deafen
//! are independent toggles recorded only when the voice transport confirmed
//! them.

use std::collections::HashMap;
use vstd::prelude::*;

verus! {

broadcast use vstd::std_specs::hash::group_hash_axioms;

/// A capability to address one guild's live session.  Valid as long as the
/// session it was minted for is still the guild's current one.
#[derive(Debug, Clone, Copy, PartialEq, Eq, Structural)]
pub struct SessionHandle {
    pub guild: u64,
    pub epoch: u64,
}

/// Why a session operation was refused.
#[derive(Debug, Clone, Copy, PartialEq, Eq, Structural)]
pub enum SessionError {
    /// The guild already has a session in a different voice channel.
    AlreadyConnectedElsewhere,
    /// The transport did not establish the connection, or no epoch was left.
    JoinFailed,
    /// The handle does not address the guild's current session.
    NoSession,
}

/// Why a playback submission was refused.
#[derive(Debug, Clone, Copy, PartialEq, Eq, Structural)]
pub enum PlaybackError {
    /// The handle was invalidated by a leave or disconnect.
    NoSession,
    /// The voice transport did not accept the audio.
    Rejected,
}

/// One guild's session as an exec value.
struct Session {
    channel: u64,
    epoch: u64,
    muted: bool,
    deafened: bool,
    playing: Option<Vec<u8>>,
}

/// The mathematical image of one session.
#[verifier::ext_equal]
pub struct SessionView {
    pub channel: u64,
    pub epoch: u64,
    pub muted: bool,
    pub deafened: bool,
    /// The payload currently being played, if any: exactly the bytes of the
    /// last accepted submission.
    pub playing: Option<Seq<u8>>,
}

impl View for Session {
    type V = SessionView;

    closed spec fn view(&self) -> SessionView {
        SessionView {
            channel: self.channel,
            epoch: self.epoch,
            muted: self.muted,
            deafened: self.deafened,
            playing: match self.playing {
                Some(a) => Some(a@),
                None => None,
            },
        }
    }
}

/// The mathematical image of the whole registry.
#[verifier::ext_equal]
pub struct RegistryView {
    pub sessions: Map<u64, SessionView>,
    /// The epoch the next successful `join` will stamp.
    pub next_epoch: u64,
}

/// The registry after a `join` that created a new session for `guild`.
pub open spec fn join_fresh_spec(r: RegistryView, guild: u64, channel: u64) -> RegistryView {
    RegistryView {
        sessions: r.sessions.insert(
            guild,
            SessionView { channel, epoch: r.next_epoch, muted: false, deafened: false, playing: None },
        ),
        next_epoch: (r.next_epoch + 1) as u64,
    }
}

/// The registry after `leave(guild)`.
pub open spec fn leave_spec(r: RegistryView, guild: u64) -> RegistryView {
    RegistryView { sessions: r.sessions.remove(guild), ..r }
}

/// The registry after a playback submission through `h` that the transport
/// accepted: the session's current payload is replaced by `audio`.
pub open spec fn play_accepted_spec(r: RegistryView, h: SessionHandle, audio: Seq<u8>) -> RegistryView {
    RegistryView {
        sessions: r.sessions.insert(
            h.guild,
            SessionView { playing: Some(audio), ..r.sessions[h.guild] },
        ),
        ..r
    }
}

impl RegistryView {
    /// Every live session carries an epoch older than the next one to be
    /// handed out; joins preserve this, which is what retires old handles
    /// for good.
    pub open spec fn wf(self) -> bool {
        forall|g: u64| #[trigger]
            self.sessions.contains_key(g) ==> self.sessions[g].epoch < self.next_epoch
    }

    /// Does `h` address the current session of its guild?
    pub open spec fn handle_valid(self, h: SessionHandle) -> bool {
        self.sessions.contains_key(h.guild) && self.sessions[h.guild].epoch == h.epoch
    }
}

/// Owns every guild's session.  Exclusive access per guild is the caller's
/// discipline; the registry itself keeps the bookkeeping consistent.
pub struct VoiceSessionRegistry {
    sessions: HashMap<u64, Session>,
    next_epoch: u64,
}

impl View for VoiceSessionRegistry {
    type V = RegistryView;

    closed spec fn view(&self) -> RegistryView {
        RegistryView {
            sessions: self.sessions@.map_values(|s: Session| s@),
            next_epoch: self.next_epoch,
        }
    }
}

proof fn lemma_map_values_insert(m: Map<u64, Session>, k: u64, v: Session)
    ensures
        m.insert(k, v).map_values(|s: Session| s@) == m.map_values(|s: Session| s@).insert(k, v@),
{
    assert(m.insert(k, v).map_values(|s: Session| s@) =~= m.map_values(
        |s: Session| s@,
    ).insert(k, v@));
}

proof fn lemma_map_values_remove(m: Map<u64, Session>, k: u64)
    ensures
        m.remove(k).map_values(|s: Session| s@) == m.map_values(|s: Session| s@).remove(k),
{
    assert(m.remove(k).map_values(|s: Session| s@) =~= m.map_values(|s: Session| s@).remove(k));
}

impl VoiceSessionRegistry {
    /// A fresh registry: no guild is connected.
    pub fn new() -> (r: Self)
        ensures
            r@.sessions == Map::<u64, SessionView>::empty(),
            r@.next_epoch == 0,
            r@.wf(),
    {
        let r = VoiceSessionRegistry { sessions: HashMap::new(), next_epoch: 0 };
        proof {
            assert(r@.sessions =~= Map::<u64, SessionView>::empty());
        }
        r
    }

    /// The handle of the guild's current session, or `None` when the bot is
    /// not connected there.
    pub fn get_or_none(&self, guild: u64) -> (h: Option<SessionHandle>)
        ensures
            match h {
                Some(handle) => self@.sessions.contains_key(guild) && handle.guild == guild
                    && handle.epoch == self@.sessions[guild].epoch && self@.handle_valid(handle),
                None => !self@.sessions.contains_key(guild),
            },
    {
        match self.sessions.get(&guild) {
            Some(s) => Some(SessionHandle { guild, epoch: s.epoch }),
            None => None,
        }
    }

    /// Connects the guild to `channel`.
    ///
    /// Re-joining the channel the guild is already in returns the current
    /// handle and changes nothing; a session in another channel is refused
    /// with `AlreadyConnectedElsewhere`; otherwise a new session starts with
    /// a fresh epoch, unmuted, undeafened, playing nothing.  `JoinFailed` is
    /// returned, with nothing changed, only in the unreachable-in-practice
    /// case that every epoch has been spent.
    pub fn join(&mut self, guild: u64, channel: u64) -> (r: Result<SessionHandle, SessionError>)
        requires
            old(self)@.wf(),
        ensures
            final(self)@.wf(),
            match r {
                Ok(h) => h.guild == guild && final(self)@.handle_valid(h)
                    && final(self)@.sessions[guild].channel == channel,
                Err(_) => final(self)@ == old(self)@,
            },
            old(self)@.sessions.contains_key(guild) && old(self)@.sessions[guild].channel
                == channel ==> r == Ok::<SessionHandle, SessionError>(
                SessionHandle { guild, epoch: old(self)@.sessions[guild].epoch },
            ) && final(self)@ == old(self)@,
            old(self)@.sessions.contains_key(guild) && old(self)@.sessions[guild].channel
                != channel ==> r == Err::<SessionHandle, SessionError>(
                SessionError::AlreadyConnectedElsewhere,
            ),
            !old(self)@.sessions.contains_key(guild) && old(self)@.next_epoch < u64::MAX ==> {
                &&& r == Ok::<SessionHandle, SessionError>(
                    SessionHandle { guild, epoch: old(self)@.next_epoch },
                )
                &&& final(self)@ == join_fresh_spec(old(self)@, guild, channel)
            },
            !old(self)@.sessions.contains_key(guild) && old(self)@.next_epoch == u64::MAX ==> r
                == Err::<SessionHandle, SessionError>(SessionError::JoinFailed),
    {
        match self.sessions.get(&guild) {
            Some(s) => {
                if s.channel == channel {
                    Ok(SessionHandle { guild, epoch: s.epoch })
                } else {
                    Err(SessionError::AlreadyConnectedElsewhere)
                }
            },
            None => {
                if self.next_epoch == u64::MAX {
                    Err(SessionError::JoinFailed)
                } else {
                    let epoch = self.next_epoch;
                    self.next_epoch = self.next_epoch + 1;
                    let ghost old_map = self.sessions@;
                    let s = Session {
                        channel,
                        epoch,
                        muted: false,
                        deafened: false,
                        playing: None,
                    };
                    let ghost sv = s@;
                    self.sessions.insert(guild, s);
                    proof {
                        lemma_map_values_insert(old_map, guild, Session {
                            channel,
                            epoch,
                            muted: false,
                            deafened: false,
                            playing: None,
                        });
                        assert(self@.sessions =~= old_map.map_values(|s: Session| s@).insert(
                            guild,
                            sv,
                        ));
                        assert(self@ =~= join_fresh_spec(old(self)@, guild, channel));
                    }
                    Ok(SessionHandle { guild, epoch })
                }
            },
        }
    }

    /// Disconnects the guild.  Returns `false` (and changes nothing) when no
    /// session existed.  Every handle to the removed session is invalid from
    /// here on.
    pub fn leave(&mut self, guild: u64) -> (was_connected: bool)
        requires
            old(self)@.wf(),
        ensures
            final(self)@.wf(),
            was_connected == old(self)@.sessions.contains_key(guild),
            final(self)@ == leave_spec(old(self)@, guild),
    {
        let ghost old_map = self.sessions@;
        let r = self.sessions.remove(&guild).is_some();
        proof {
            lemma_map_values_remove(old_map, guild);
            assert(self@ =~= leave_spec(old(self)@, guild));
        }
        r
    }

    /// Submits `audio` for playback through `h`.  `transport_accepted` is the
    /// voice transport's verdict on this submission, obtained by the caller.
    ///
    /// A stale or unknown handle fails with `NoSession` (never a crash, never
    /// a silent success); a submission the transport refused fails with
    /// `Rejected` and leaves the session as it was; an accepted submission
    /// replaces whatever was playing — the last call to land is the only one
    /// heard.
    pub fn play(&mut self, h: SessionHandle, audio: Vec<u8>, transport_accepted: bool) -> (r:
        Result<(), PlaybackError>)
        requires
            old(self)@.wf(),
        ensures
            final(self)@.wf(),
            final(self)@.next_epoch == old(self)@.next_epoch,
            !old(self)@.handle_valid(h) ==> r == Err::<(), PlaybackError>(PlaybackError::NoSession)
                && final(self)@ == old(self)@,
            old(self)@.handle_valid(h) && !transport_accepted ==> r == Err::<(), PlaybackError>(
                PlaybackError::Rejected,
            ) && final(self)@ == old(self)@,
            old(self)@.handle_valid(h) && transport_accepted ==> r == Ok::<(), PlaybackError>(())
                && final(self)@ == play_accepted_spec(old(self)@, h, audio@),
    {
        let ghost old_map = self.sessions@;
        match self.sessions.remove(&h.guild) {
            Some(sess) => {
                proof {
                    lemma_map_values_remove(old_map, h.guild);
                }
                if sess.epoch == h.epoch {
                    if transport_accepted {
                        let new_sess = Session {
                            channel: sess.channel,
                            epoch: sess.epoch,
                            muted: sess.muted,
                            deafened: sess.deafened,
                            playing: Some(audio),
                        };
                        let ghost nv = new_sess@;
                        self.sessions.insert(h.guild, new_sess);
                        proof {
                            lemma_map_values_insert(old_map.remove(h.guild), h.guild, Session {
                                channel: sess.channel,
                                epoch: sess.epoch,
                                muted: sess.muted,
                                deafened: sess.deafened,
                                playing: Some(audio),
                            });
                            assert(self@ =~= play_accepted_spec(old(self)@, h, audio@));
                        }
                        Ok(())
                    } else {
                        self.sessions.insert(h.guild, sess);
                        proof {
                            lemma_map_values_insert(old_map.remove(h.guild), h.guild, sess);
                            assert(self@.sessions =~= old(self)@.sessions);
                        }
                        Err(PlaybackError::Rejected)
                    }
                } else {
                    self.sessions.insert(h.guild, sess);
                    proof {
                        lemma_map_values_insert(old_map.remove(h.guild), h.guild, sess);
                        assert(self@.sessions =~= old(self)@.sessions);
                    }
                    Err(PlaybackError::NoSession)
                }
            },
            None => {
                proof {
                    lemma_map_values_remove(old_map, h.guild);
                    assert(self@.sessions =~= old(self)@.sessions);
                }
                Err(PlaybackError::NoSession)
            },
        }
    }

    /// Sets the mute toggle of the session behind `h` to `on`, but only when
    /// the voice transport confirmed the change (`transport_accepted`); a
    /// refused transport call leaves the recorded state untouched, so the
    /// toggle always reflects the transport.  Returns whether the toggle was
    /// applied.
    pub fn set_mute(&mut self, h: SessionHandle, on: bool, transport_accepted: bool) -> (r: Result<
        bool,
        SessionError,
    >)
        requires
            old(self)@.wf(),
        ensures
            final(self)@.wf(),
            final(self)@.next_epoch == old(self)@.next_epoch,
            !old(self)@.handle_valid(h) ==> r == Err::<bool, SessionError>(SessionError::NoSession)
                && final(self)@ == old(self)@,
            old(self)@.handle_valid(h) && !transport_accepted ==> r == Ok::<bool, SessionError>(
                false,
            ) && final(self)@ == old(self)@,
            old(self)@.handle_valid(h) && transport_accepted ==> r == Ok::<bool, SessionError>(true)
                && final(self)@.sessions == old(self)@.sessions.insert(
                h.guild,
                SessionView { muted: on, ..old(self)@.sessions[h.guild] },
            ),
    {
        let ghost old_map = self.sessions@;
        match self.sessions.remove(&h.guild) {
            Some(sess) => {
                proof {
                    lemma_map_values_remove(old_map, h.guild);
                }
                if sess.epoch == h.epoch {
                    if transport_accepted {
                        let new_sess = Session { muted: on, ..sess };
                        self.sessions.insert(h.guild, new_sess);
                        proof {
                            lemma_map_values_insert(
                                old_map.remove(h.guild),
                                h.guild,
                                Session { muted: on, ..sess },
                            );
                            assert(self@.sessions =~= old(self)@.sessions.insert(
                                h.guild,
                                SessionView { muted: on, ..old(self)@.sessions[h.guild] },
                            ));
                        }
                        Ok(true)
                    } else {
                        self.sessions.insert(h.guild, sess);
                        proof {
                            lemma_map_values_insert(old_map.remove(h.guild), h.guild, sess);
                            assert(self@.sessions =~= old(self)@.sessions);
                        }
                        Ok(false)
                    }
                } else {
                    self.sessions.insert(h.guild, sess);
                    proof {
                        lemma_map_values_insert(old_map.remove(h.guild), h.guild, sess);
                        assert(self@.sessions =~= old(self)@.sessions);
                    }
                    Err(SessionError::NoSession)
                }
            },
            None => {
                proof {
                    lemma_map_values_remove(old_map, h.guild);
                    assert(self@.sessions =~= old(self)@.sessions);
                }
                Err(SessionError::NoSession)
            },
        }
    }

    /// Sets the deafen toggle, under the same transport-confirmation rule as
    /// `set_mute`.
    pub fn set_deafen(&mut self, h: SessionHandle, on: bool, transport_accepted: bool) -> (r:
        Result<bool, SessionError>)
        requires
            old(self)@.wf(),
        ensures
            final(self)@.wf(),
            final(self)@.next_epoch == old(self)@.next_epoch,
            !old(self)@.handle_valid(h) ==> r == Err::<bool, SessionError>(SessionError::NoSession)
                && final(self)@ == old(self)@,
            old(self)@.handle_valid(h) && !transport_accepted ==> r == Ok::<bool, SessionError>(
                false,
            ) && final(self)@ == old(self)@,
            old(self)@.handle_valid(h) && transport_accepted ==> r == Ok::<bool, SessionError>(true)
                && final(self)@.sessions == old(self)@.sessions.insert(
                h.guild,
                SessionView { deafened: on, ..old(self)@.sessions[h.guild] },
            ),
    {
        let ghost old_map = self.sessions@;
        match self.sessions.remove(&h.guild) {
            Some(sess) => {
                proof {
                    lemma_map_values_remove(old_map, h.guild);
                }
                if sess.epoch == h.epoch {
                    if transport_accepted {
                        let new_sess = Session { deafened: on, ..sess };
                        self.sessions.insert(h.guild, new_sess);
                        proof {
                            lemma_map_values_insert(
                                old_map.remove(h.guild),
                                h.guild,
                                Session { deafened: on, ..sess },
                            );
                            assert(self@.sessions =~= old(self)@.sessions.insert(
                                h.guild,
                                SessionView { deafened: on, ..old(self)@.sessions[h.guild] },
                            ));
                        }
                        Ok(true)
                    } else {
                        self.sessions.insert(h.guild, sess);
                        proof {
                            lemma_map_values_insert(old_map.remove(h.guild), h.guild, sess);
                            assert(self@.sessions =~= old(self)@.sessions);
                        }
                        Ok(false)
                    }
                } else {
                    self.sessions.insert(h.guild, sess);
                    proof {
                        lemma_map_values_insert(old_map.remove(h.guild), h.guild, sess);
                        assert(self@.sessions =~= old(self)@.sessions);
                    }
                    Err(SessionError::NoSession)
                }
            },
            None => {
                proof {
                    lemma_map_values_remove(old_map, h.guild);
                    assert(self@.sessions =~= old(self)@.sessions);
                }
                Err(SessionError::NoSession)
            },
        }
    }

    /// The payload the session behind `h` is currently playing: exactly the
    /// audio of the last accepted submission, `None` when nothing plays or
    /// the handle is stale.
    pub fn current_playback(&self, h: SessionHandle) -> (r: Option<&Vec<u8>>)
        ensures
            match r {
                Some(a) => self@.handle_valid(h) && self@.sessions[h.guild].playing == Some(a@),
                None => !self@.handle_valid(h) || self@.sessions[h.guild].playing is None,
            },
    {
        match self.sessions.get(&h.guild) {
            Some(s) if s.epoch == h.epoch => match &s.playing {
                Some(a) => Some(a),
                None => None,
            },
            _ => None,
        }
    }

    /// Whether the session behind `h` is muted, or `None` for a stale or
    /// unknown handle.
    pub fn is_muted(&self, h: SessionHandle) -> (r: Option<bool>)
        ensures
            self@.handle_valid(h) ==> r == Some(self@.sessions[h.guild].muted),
            !self@.handle_valid(h) ==> r is None,
    {
        match self.sessions.get(&h.guild) {
            Some(s) if s.epoch == h.epoch => Some(s.muted),
            _ => None,
        }
    }

    /// Whether the session behind `h` is deafened, or `None` for a stale or
    /// unknown handle.
    pub fn is_deafened(&self, h: SessionHandle) -> (r: Option<bool>)
        ensures
            self@.handle_valid(h) ==> r == Some(self@.sessions[h.guild].deafened),
            !self@.handle_valid(h) ==> r is None,
    {
        match self.sessions.get(&h.guild) {
            Some(s) if s.epoch == h.epoch => Some(s.deafened),
            _ => None,
        }
    }
}

/// The last submission to land wins: of two accepted playback submissions
/// through the same handle, the guild's session ends up holding exactly the
/// second payload — the first is gone, never queued and never mixed in, and
/// the result is the same as if only the second had been submitted.
pub proof fn lemma_last_playback_wins(
    r: RegistryView,
    h: SessionHandle,
    a1: Seq<u8>,
    a2: Seq<u8>,
)
    requires
        r.handle_valid(h),
    ensures
        play_accepted_spec(play_accepted_spec(r, h, a1), h, a2) == play_accepted_spec(r, h, a2),
        play_accepted_spec(play_accepted_spec(r, h, a1), h, a2).sessions[h.guild].playing == Some(
            a2,
        ),
{
    assert(play_accepted_spec(play_accepted_spec(r, h, a1), h, a2) =~= play_accepted_spec(
        r,
        h,
        a2,
    ));
}

/// Guilds are independent: joining, leaving or playing in one guild never
/// touches another guild's session, so one guild's playback never waits on
/// or disturbs another's.
pub proof fn lemma_guilds_independent(
    r: RegistryView,
    h: SessionHandle,
    audio: Seq<u8>,
    guild: u64,
    channel: u64,
    other: u64,
)
    requires
        other != guild,
        other != h.guild,
    ensures
        join_fresh_spec(r, guild, channel).sessions.contains_key(other) == r.sessions.contains_key(
            other,
        ),
        r.sessions.contains_key(other) ==> join_fresh_spec(r, guild, channel).sessions[other]
            == r.sessions[other],
        leave_spec(r, guild).sessions.contains_key(other) == r.sessions.contains_key(other),
        r.sessions.contains_key(other) ==> leave_spec(r, guild).sessions[other]
            == r.sessions[other],
        play_accepted_spec(r, h, audio).sessions.contains_key(other) == r.sessions.contains_key(
            other,
        ),
        r.sessions.contains_key(other) ==> play_accepted_spec(r, h, audio).sessions[other]
            == r.sessions[other],
{
}

/// Leaving a guild invalidates every handle to its session at once, and a
/// later re-join cannot revive them: the new session carries a fresh epoch.
/// By the contract of `play`, a submission through such a handle therefore
/// fails with `NoSession` — never a crash, never a silent success.
pub proof fn lemma_leave_invalidates_handles(
    r: RegistryView,
    h: SessionHandle,
    channel: u64,
)
    requires
        r.wf(),
        r.handle_valid(h),
        r.next_epoch < u64::MAX,
    ensures
        !leave_spec(r, h.guild).handle_valid(h),
        !join_fresh_spec(leave_spec(r, h.guild), h.guild, channel).handle_valid(h),
        leave_spec(r, h.guild).wf(),
        join_fresh_spec(leave_spec(r, h.guild), h.guild, channel).wf(),
{
}

} // verus!
