use soundboard::language::ModelLanguage;
use soundboard::lifecycle::{
    check_if_channel_empty, should_tear_down, CallStatus, JoinDecision, LeaveDecision, Session,
    SessionState, VoiceMember,
};
use soundboard::soundboard::{RecognitionType, SoundBoard};
use soundboard::speech_to_text::{EngineResult, RecognizedWord};

fn board() -> SoundBoard {
    SoundBoard::new()
        .add_song("verstappen", RecognitionType::WORD, ModelLanguage::DUTCH, "max.mp3")
        .add_song("intihar", RecognitionType::WORD, ModelLanguage::TURKISH, "intihar.ogg")
}

fn connected(channel: u64) -> Session {
    let mut s = Session::new();
    assert_eq!(s.request_join(Some(channel)), JoinDecision::Connect { channel });
    assert!(s.join_succeeded(&board(), vec![ModelLanguage::TURKISH, ModelLanguage::DUTCH]));
    s
}

fn said(text: &str) -> EngineResult {
    EngineResult {
        text: text.to_string(),
        words: vec![RecognizedWord { word: text.to_string(), conf_bits: 1.0f32.to_bits() }],
    }
}

fn member(user_id: u64, channel_id: Option<u64>) -> VoiceMember {
    VoiceMember { user_id, channel_id }
}

#[test]
fn join_connects_then_reports_connected() {
    let s = connected(42);
    assert_eq!(s.state(), SessionState::Connected { channel: 42 });
}

#[test]
fn join_to_current_channel_is_already_connected() {
    let mut s = connected(42);
    assert_eq!(s.request_join(Some(42)), JoinDecision::AlreadyConnected);
    assert_eq!(s.state(), SessionState::Connected { channel: 42 });
}

#[test]
fn join_without_voice_channel() {
    let mut s = Session::new();
    assert_eq!(s.request_join(None), JoinDecision::NotInVoice);
    assert_eq!(s.state(), SessionState::Disconnected);
}

#[test]
fn join_other_channel_reconnects() {
    let mut s = connected(42);
    assert_eq!(s.request_join(Some(43)), JoinDecision::Connect { channel: 43 });
    assert_eq!(s.state(), SessionState::Connecting { channel: 43 });
    assert_eq!(s.on_audio(1, &[1, 1]), None);
}

#[test]
fn failed_join_leaves_session_disconnected() {
    let mut s = Session::new();
    s.request_join(Some(9));
    s.join_failed();
    assert_eq!(s.state(), SessionState::Disconnected);
    assert!(!s.join_succeeded(&board(), vec![ModelLanguage::DUTCH]));
    assert_eq!(s.state(), SessionState::Disconnected);
}

#[test]
fn leave_requests() {
    let mut s = connected(42);
    assert_eq!(s.request_leave(), LeaveDecision::Leave);
    assert_eq!(s.state(), SessionState::Disconnected);
    assert_eq!(s.request_leave(), LeaveDecision::NotConnected);
}

#[test]
fn speaking_outside_a_connection_is_ignored() {
    let mut s = Session::new();
    assert!(s.on_speaking(5, 100).is_none());
    assert_eq!(s.on_audio(5, &[1, 1]), None);
    assert!(s.on_silence(5, &vec![]).is_empty());
}

#[test]
fn driver_disconnect_resets_registry() {
    let mut s = connected(42);
    assert!(s.on_speaking(5, 100).is_some());
    assert!(s.on_speaking(6, 200).is_some());
    assert!(s.on_audio(5, &[1, 1]).is_some());
    assert!(s.on_audio(6, &[1, 1]).is_some());
    s.on_driver_disconnect();
    assert_eq!(s.state(), SessionState::Connected { channel: 42 });
    assert!(s.active_slots(5).is_empty());
    assert!(s.active_slots(6).is_empty());
    let results = vec![Some(said("intihar")), Some(said("verstappen"))];
    assert!(s.on_silence(5, &results).is_empty());
    assert!(s.on_silence(6, &results).is_empty());
    assert_eq!(s.on_speaker_disconnect(100), None);
}

#[test]
fn driver_reconnect_resets_registry() {
    let mut s = connected(42);
    s.on_speaking(5, 100);
    s.on_driver_reconnect();
    assert_eq!(s.on_audio(5, &[1, 1]), None);
    assert_eq!(s.state(), SessionState::Connected { channel: 42 });
}

#[test]
fn speaking_audio_silence_cycle() {
    let mut s = connected(42);
    let added = s.on_speaking(5, 100).unwrap();
    assert_eq!(added.grammars.len(), 2);
    assert_eq!(s.on_audio(5, &[10, 20, 30, 40]), Some(vec![15, 35]));
    assert_eq!(s.active_slots(5), vec![true, true]);
    let results = vec![None, Some(said("verstappen"))];
    assert_eq!(
        s.on_silence(5, &results),
        vec![("verstappen".to_string(), ModelLanguage::DUTCH)]
    );
    assert_eq!(s.on_speaker_disconnect(100), Some(5));
}

#[test]
fn self_channel_none_forces_leave() {
    let mut s = connected(42);
    assert!(s.on_self_channel_changed(None));
    assert_eq!(s.state(), SessionState::Disconnected);
    assert!(!s.on_self_channel_changed(None));
}

#[test]
fn channel_move_follows_and_resets() {
    let mut s = connected(42);
    s.on_speaking(5, 100);
    assert!(!s.on_self_channel_changed(Some(50)));
    assert_eq!(s.state(), SessionState::Connected { channel: 50 });
    assert_eq!(s.on_audio(5, &[1, 1]), None);
}

#[test]
fn channel_emptiness_ignores_the_bot() {
    let members = vec![member(1, Some(42)), member(2, Some(7)), member(3, None)];
    assert!(check_if_channel_empty(&members, 1, 42));
    assert!(!check_if_channel_empty(&members, 1, 7));
    assert!(check_if_channel_empty(&vec![], 1, 42));
}

#[test]
fn teardown_decision() {
    let members = vec![member(1, Some(42)), member(2, Some(42))];
    assert!(!should_tear_down(CallStatus::Absent, &members, 1));
    assert!(should_tear_down(CallStatus::Idle, &members, 1));
    assert!(!should_tear_down(CallStatus::InChannel { channel: 42 }, &members, 1));
    assert!(should_tear_down(CallStatus::InChannel { channel: 43 }, &members, 1));
}

#[test]
fn empty_channel_tears_session_down() {
    let mut s = connected(42);
    let alone = vec![member(1, Some(42))];
    assert!(s.on_voice_state_changed(CallStatus::InChannel { channel: 42 }, &alone, 1));
    assert_eq!(s.state(), SessionState::Disconnected);
    let mut s = connected(42);
    let company = vec![member(1, Some(42)), member(2, Some(42))];
    assert!(!s.on_voice_state_changed(CallStatus::InChannel { channel: 42 }, &company, 1));
    assert_eq!(s.state(), SessionState::Connected { channel: 42 });
}
