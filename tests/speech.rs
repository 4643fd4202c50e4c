use soundboard::language::ModelLanguage;
use soundboard::speech_to_text::{
    evaluate, stereo_to_mono, EngineResult, RecognizedWord, SpeechToText,
    CONFIDENCE_THRESHOLD_BITS,
};

fn word(w: &str, conf: f32) -> RecognizedWord {
    RecognizedWord { word: w.to_string(), conf_bits: conf.to_bits() }
}

fn result(text: &str, words: Vec<RecognizedWord>) -> EngineResult {
    EngineResult { text: text.to_string(), words }
}

fn strings(v: &[&str]) -> Vec<String> {
    v.iter().map(|s| s.to_string()).collect()
}

#[test]
fn downmix_halves_then_sums() {
    assert_eq!(stereo_to_mono(&[10, 20, 30, 40]), vec![15, 35]);
}

#[test]
fn downmix_truncates_each_channel() {
    // 3/2 + 3/2 == 2, not (3+3)/2 == 3
    assert_eq!(stereo_to_mono(&[3, 3]), vec![2]);
    assert_eq!(stereo_to_mono(&[-3, -3]), vec![-2]);
    assert_eq!(stereo_to_mono(&[i16::MAX, i16::MAX, i16::MIN, i16::MIN]), vec![32766, -32768]);
}

#[test]
fn downmix_drops_trailing_sample() {
    assert_eq!(stereo_to_mono(&[2, 4, 6]), vec![3]);
    assert_eq!(stereo_to_mono(&[]), Vec::<i16>::new());
}

#[test]
fn threshold_bits_are_those_of_0_999() {
    assert_eq!(CONFIDENCE_THRESHOLD_BITS, 0.999f32.to_bits());
}

#[test]
fn confident_word_matches() {
    let r = result("verstappen", vec![word("verstappen", 1.0)]);
    assert_eq!(evaluate(&r, &strings(&["verstappen"]), &vec![]), Some("verstappen".to_string()));
}

#[test]
fn word_at_exact_threshold_does_not_match() {
    let r = result("verstappen", vec![word("verstappen", 0.999)]);
    assert_eq!(evaluate(&r, &strings(&["verstappen"]), &vec![]), None);
}

#[test]
fn word_just_above_threshold_matches() {
    let above = f32::from_bits(0.999f32.to_bits() + 1);
    let r = result("verstappen", vec![word("verstappen", above)]);
    assert_eq!(evaluate(&r, &strings(&["verstappen"]), &vec![]), Some("verstappen".to_string()));
}

#[test]
fn negative_or_nan_confidence_does_not_match() {
    let r = result("x", vec![word("intihar", -1.0), word("intihar", f32::NAN)]);
    assert_eq!(evaluate(&r, &strings(&["intihar"]), &vec![]), None);
}

#[test]
fn unlisted_confident_word_does_not_match() {
    let r = result("hello", vec![word("hello", 1.0)]);
    assert_eq!(evaluate(&r, &strings(&["verstappen"]), &vec![]), None);
}

#[test]
fn first_confident_listed_word_wins() {
    let r = result(
        "a b c",
        vec![word("a", 0.5), word("b", 1.0), word("c", 1.0)],
    );
    assert_eq!(evaluate(&r, &strings(&["c", "b"]), &vec![]), Some("b".to_string()));
}

#[test]
fn phrase_matches_with_extra_words() {
    let r = result("well as kendini now", vec![word("well", 0.2)]);
    assert_eq!(evaluate(&r, &vec![], &strings(&["as kendini"])), Some("as kendini".to_string()));
}

#[test]
fn phrase_missing_a_character_does_not_match() {
    let r = result("as kendin", vec![]);
    assert_eq!(evaluate(&r, &vec![], &strings(&["as kendini"])), None);
}

#[test]
fn first_phrase_in_catalog_order_wins() {
    let r = result("one two three", vec![]);
    assert_eq!(
        evaluate(&r, &vec![], &strings(&["two three", "one two"])),
        Some("two three".to_string())
    );
}

#[test]
fn word_is_preferred_over_phrase() {
    let r = result("as kendini intihar", vec![word("intihar", 1.0)]);
    assert_eq!(
        evaluate(&r, &strings(&["intihar"]), &strings(&["as kendini"])),
        Some("intihar".to_string())
    );
}

#[test]
fn slot_reports_only_after_audio() {
    let mut slot =
        SpeechToText::new_with_grammar(ModelLanguage::DUTCH, &strings(&["verstappen"]), &vec![]);
    let r = result("verstappen", vec![word("verstappen", 1.0)]);
    assert_eq!(slot.finalise(Some(&r)), None);
    let mono = slot.listen(&[10, 20, 30, 40]);
    assert_eq!(mono, vec![15, 35]);
    assert!(slot.active);
    assert_eq!(slot.finalise(Some(&r)), Some(("verstappen".to_string(), ModelLanguage::DUTCH)));
    assert!(!slot.active);
    assert_eq!(slot.finalise(Some(&r)), None);
}

#[test]
fn slot_grammar_is_words_then_phrases() {
    let slot = SpeechToText::new_with_grammar(
        ModelLanguage::TURKISH,
        &strings(&["intihar"]),
        &strings(&["as kendini"]),
    );
    assert_eq!(slot.grammar(), strings(&["intihar", "as kendini"]));
}
