use tts_core::session::{PlaybackError, SessionError, VoiceSessionRegistry};

#[test]
fn join_leave_lifecycle() {
    let mut reg = VoiceSessionRegistry::new();
    assert!(reg.get_or_none(1).is_none());
    let h = reg.join(1, 10).unwrap();
    assert_eq!(reg.get_or_none(1), Some(h));
    assert!(reg.leave(1));
    assert!(reg.get_or_none(1).is_none());
    assert!(!reg.leave(1));
}

#[test]
fn rejoin_same_channel_returns_same_handle() {
    let mut reg = VoiceSessionRegistry::new();
    let h1 = reg.join(1, 10).unwrap();
    let h2 = reg.join(1, 10).unwrap();
    assert_eq!(h1, h2);
}

#[test]
fn join_elsewhere_is_refused() {
    let mut reg = VoiceSessionRegistry::new();
    reg.join(1, 10).unwrap();
    assert_eq!(reg.join(1, 11), Err(SessionError::AlreadyConnectedElsewhere));
}

#[test]
fn guilds_have_independent_sessions() {
    let mut reg = VoiceSessionRegistry::new();
    let h1 = reg.join(1, 10).unwrap();
    let h2 = reg.join(2, 20).unwrap();
    assert!(reg.leave(2));
    assert_eq!(reg.get_or_none(1), Some(h1));
    assert!(reg.play(h1, vec![1, 2, 3], true).is_ok());
    assert_eq!(reg.play(h2, vec![9], true), Err(PlaybackError::NoSession));
}

#[test]
fn last_playback_wins() {
    let mut reg = VoiceSessionRegistry::new();
    let h = reg.join(1, 10).unwrap();
    assert_eq!(reg.play(h, vec![1, 1, 1], true), Ok(()));
    assert_eq!(reg.play(h, vec![2, 2], true), Ok(()));
    assert_eq!(reg.current_playback(h), Some(&vec![2, 2]));
}

#[test]
fn refused_playback_changes_nothing() {
    let mut reg = VoiceSessionRegistry::new();
    let h = reg.join(1, 10).unwrap();
    assert_eq!(reg.play(h, vec![1], true), Ok(()));
    assert_eq!(reg.play(h, vec![2], false), Err(PlaybackError::Rejected));
    assert_eq!(reg.current_playback(h), Some(&vec![1]));
}

#[test]
fn stale_handle_fails_with_no_session() {
    let mut reg = VoiceSessionRegistry::new();
    let h = reg.join(1, 10).unwrap();
    assert!(reg.leave(1));
    assert_eq!(reg.play(h, vec![1], true), Err(PlaybackError::NoSession));
}

#[test]
fn rejoin_does_not_revive_old_handle() {
    let mut reg = VoiceSessionRegistry::new();
    let h_old = reg.join(1, 10).unwrap();
    reg.leave(1);
    let h_new = reg.join(1, 10).unwrap();
    assert_ne!(h_old, h_new);
    assert_eq!(reg.play(h_old, vec![1], true), Err(PlaybackError::NoSession));
    assert_eq!(reg.play(h_new, vec![2], true), Ok(()));
    assert_eq!(reg.current_playback(h_new), Some(&vec![2]));
}

#[test]
fn mute_tracks_transport_confirmation() {
    let mut reg = VoiceSessionRegistry::new();
    let h = reg.join(1, 10).unwrap();
    assert_eq!(reg.is_muted(h), Some(false));
    assert_eq!(reg.set_mute(h, true, false), Ok(false));
    assert_eq!(reg.is_muted(h), Some(false));
    assert_eq!(reg.set_mute(h, true, true), Ok(true));
    assert_eq!(reg.is_muted(h), Some(true));
    assert_eq!(reg.set_mute(h, false, true), Ok(true));
    assert_eq!(reg.is_muted(h), Some(false));
}

#[test]
fn deafen_is_independent_of_mute() {
    let mut reg = VoiceSessionRegistry::new();
    let h = reg.join(1, 10).unwrap();
    assert_eq!(reg.set_deafen(h, true, true), Ok(true));
    assert_eq!(reg.is_deafened(h), Some(true));
    assert_eq!(reg.is_muted(h), Some(false));
}

#[test]
fn toggles_fail_on_stale_handle() {
    let mut reg = VoiceSessionRegistry::new();
    let h = reg.join(1, 10).unwrap();
    reg.leave(1);
    assert_eq!(reg.set_mute(h, true, true), Err(SessionError::NoSession));
    assert_eq!(reg.set_deafen(h, true, true), Err(SessionError::NoSession));
    assert_eq!(reg.is_muted(h), None);
    assert_eq!(reg.is_deafened(h), None);
}
