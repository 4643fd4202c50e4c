use soundboard::language::ModelLanguage;
use soundboard::soundboard::{RecognitionType, SoundBoard};
use soundboard::speech_to_text::{EngineResult, RecognizedWord};
use soundboard::voice_handler::VoiceHandler;

fn board() -> SoundBoard {
    SoundBoard::new()
        .add_song("intihar", RecognitionType::WORD, ModelLanguage::TURKISH, "intihar.ogg")
        .add_song("as kendini", RecognitionType::PHRASE, ModelLanguage::TURKISH, "as.mp3")
        .add_song("verstappen", RecognitionType::WORD, ModelLanguage::DUTCH, "max.mp3")
}

fn handler() -> VoiceHandler {
    board().get_voice_handler(vec![
        ModelLanguage::ENGLISH,
        ModelLanguage::TURKISH,
        ModelLanguage::DUTCH,
    ])
}

fn said(text: &str, conf: f32) -> EngineResult {
    EngineResult {
        text: text.to_string(),
        words: vec![RecognizedWord { word: text.to_string(), conf_bits: conf.to_bits() }],
    }
}

#[test]
fn slots_only_for_languages_with_triggers() {
    let mut h = handler();
    let added = h.add_listener(5, 100);
    assert_eq!(added.evicted, None);
    let langs: Vec<ModelLanguage> = added.grammars.iter().map(|g| g.0).collect();
    assert_eq!(langs, vec![ModelLanguage::TURKISH, ModelLanguage::DUTCH]);
    assert_eq!(added.grammars[0].1, vec!["intihar".to_string(), "as kendini".to_string()]);
    assert_eq!(added.grammars[1].1, vec!["verstappen".to_string()]);
    assert_eq!(h.active_slots(5), vec![false, false]);
    assert_eq!(h.speaker_count(), 1);
    assert_eq!(h.listener_count(), 1);
}

#[test]
fn rebinding_a_speaker_evicts_old_ssrc() {
    let mut h = handler();
    h.add_listener(5, 100);
    let added = h.add_listener(6, 100);
    assert_eq!(added.evicted, Some(5));
    assert_eq!(h.speaker_count(), 1);
    assert_eq!(h.listener_count(), 1);
    assert!(h.active_slots(5).is_empty());
    assert_eq!(h.active_slots(6).len(), 2);
    assert_eq!(h.listen(5, &[1, 1]), None);
}

#[test]
fn ssrc_taken_over_unbinds_previous_speaker() {
    let mut h = handler();
    h.add_listener(5, 100);
    h.add_listener(5, 200);
    assert_eq!(h.speaker_count(), 1);
    assert_eq!(h.listener_count(), 1);
    assert_eq!(h.remove_listener(100), None);
    assert_eq!(h.remove_listener(200), Some(5));
    assert_eq!(h.speaker_count(), 0);
    assert_eq!(h.listener_count(), 0);
}

#[test]
fn same_speaker_same_ssrc_refreshes_slots() {
    let mut h = handler();
    h.add_listener(5, 100);
    h.listen(5, &[2, 2]);
    assert_eq!(h.active_slots(5), vec![true, true]);
    let added = h.add_listener(5, 100);
    assert_eq!(added.evicted, None);
    assert_eq!(h.active_slots(5), vec![false, false]);
    assert_eq!(h.speaker_count(), 1);
}

#[test]
fn removing_unknown_speaker_is_noop() {
    let mut h = handler();
    h.add_listener(5, 100);
    assert_eq!(h.remove_listener(999), None);
    assert_eq!(h.speaker_count(), 1);
    assert_eq!(h.listener_count(), 1);
}

#[test]
fn bindings_stay_one_to_one_over_calls() {
    let mut h = handler();
    h.add_listener(1, 10);
    h.add_listener(2, 20);
    h.add_listener(3, 10);
    h.add_listener(2, 30);
    h.remove_listener(20);
    assert_eq!(h.speaker_count(), 2);
    assert_eq!(h.listener_count(), 2);
    assert_eq!(h.remove_listener(10), Some(3));
    assert_eq!(h.remove_listener(30), Some(2));
    assert_eq!(h.listener_count(), 0);
}

#[test]
fn feed_then_finalise_matches_policy() {
    let mut h = handler();
    h.add_listener(5, 100);
    assert_eq!(h.listen(5, &[10, 20, 30, 40]), Some(vec![15, 35]));
    assert_eq!(h.active_slots(5), vec![true, true]);
    let results = vec![Some(said("nothing", 1.0)), Some(said("verstappen", 0.999))];
    assert!(h.finalise(5, &results).is_empty());
    assert_eq!(h.active_slots(5), vec![false, false]);
}

#[test]
fn dutch_word_scenario_plays_dutch_clip() {
    let b = board();
    let mut h = b.get_voice_handler(vec![ModelLanguage::TURKISH, ModelLanguage::DUTCH]);
    h.add_listener(5, 100);
    assert!(h.listen(5, &[100, 100]).is_some());
    let results = vec![Some(said("", 0.0)), Some(said("verstappen", 1.0))];
    let found = h.finalise(5, &results);
    assert_eq!(found, vec![("verstappen".to_string(), ModelLanguage::DUTCH)]);
    let clip = b.find_sound(&found[0].0, found[0].1).unwrap();
    assert_eq!(b.sounds[clip].path, "max.mp3");
}

#[test]
fn finalise_without_audio_reports_nothing() {
    let mut h = handler();
    h.add_listener(5, 100);
    let results = vec![Some(said("intihar", 1.0)), Some(said("verstappen", 1.0))];
    assert!(h.finalise(5, &results).is_empty());
}

#[test]
fn reset_then_feed_and_finalise_are_noops() {
    let mut h = handler();
    h.add_listener(5, 100);
    h.listen(5, &[1, 2]);
    h.reset_listeners();
    assert_eq!(h.listen(5, &[1, 2]), None);
    let results = vec![Some(said("intihar", 1.0))];
    assert!(h.finalise(5, &results).is_empty());
    assert!(h.active_slots(5).is_empty());
    h.reset_listeners();
    assert_eq!(h.speaker_count(), 0);
}

#[test]
fn unknown_ssrc_is_ignored() {
    let mut h = handler();
    assert_eq!(h.listen(7, &[1, 2]), None);
    assert!(h.finalise(7, &vec![]).is_empty());
    assert!(h.active_slots(7).is_empty());
}
