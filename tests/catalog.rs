use soundboard::language::ModelLanguage;
use soundboard::soundboard::{
    recognition_type_of, CatalogError, DbSound, RecognitionType, SoundBoard,
};

fn row(prompt: &str, language: &str, file: &str) -> DbSound {
    DbSound { prompt: prompt.to_string(), language: language.to_string(), file_name: file.to_string() }
}

fn board() -> SoundBoard {
    SoundBoard::new()
        .add_song("intihar", RecognitionType::WORD, ModelLanguage::TURKISH, "intihar.ogg")
        .add_song("as kendini", RecognitionType::PHRASE, ModelLanguage::TURKISH, "as.mp3")
        .add_song("verstappen", RecognitionType::WORD, ModelLanguage::DUTCH, "max.mp3")
}

#[test]
fn language_names_round_trip() {
    for l in [ModelLanguage::ENGLISH, ModelLanguage::TURKISH, ModelLanguage::DUTCH] {
        assert_eq!(ModelLanguage::from_str(l.as_str()), Some(l));
    }
    assert_eq!(ModelLanguage::from_str("dutch"), Some(ModelLanguage::DUTCH));
    assert_eq!(ModelLanguage::from_str("Dutch"), None);
    assert_eq!(ModelLanguage::from_str(""), None);
}

#[test]
fn prompt_kind_by_token_count() {
    assert_eq!(recognition_type_of("verstappen"), RecognitionType::WORD);
    assert_eq!(recognition_type_of("  verstappen  "), RecognitionType::WORD);
    assert_eq!(recognition_type_of(""), RecognitionType::WORD);
    assert_eq!(recognition_type_of("as kendini"), RecognitionType::PHRASE);
    assert_eq!(recognition_type_of(" as\tkendini "), RecognitionType::PHRASE);
    assert_eq!(recognition_type_of("a\u{3000}b"), RecognitionType::PHRASE);
}

#[test]
fn words_and_phrases_are_split_by_kind() {
    let b = board();
    let words = b.get_words();
    let phrases = b.get_phrases();
    assert_eq!(words.filter_by_language(ModelLanguage::TURKISH), vec!["intihar".to_string()]);
    assert_eq!(words.filter_by_language(ModelLanguage::DUTCH), vec!["verstappen".to_string()]);
    assert_eq!(phrases.filter_by_language(ModelLanguage::TURKISH), vec!["as kendini".to_string()]);
    assert!(phrases.filter_by_language(ModelLanguage::DUTCH).is_empty());
    assert!(words.filter_by_language(ModelLanguage::ENGLISH).is_empty());
}

#[test]
fn find_sound_looks_up_text_and_language() {
    let b = board();
    assert_eq!(b.find_sound("verstappen", ModelLanguage::DUTCH), Some(2));
    assert_eq!(b.find_sound("verstappen", ModelLanguage::TURKISH), None);
    assert_eq!(b.find_sound("nothing", ModelLanguage::DUTCH), None);
    let b = b.add_song("verstappen", RecognitionType::WORD, ModelLanguage::DUTCH, "max2.mp3");
    assert_eq!(b.find_sound("verstappen", ModelLanguage::DUTCH), Some(3));
}

#[test]
fn catalog_from_rows() {
    let rows = vec![row("as kendini", "turkish", "a1"), row("verstappen", "dutch", "b2")];
    let b = SoundBoard::from_db_sounds(&rows).ok().unwrap();
    assert_eq!(b.sounds.len(), 2);
    assert_eq!(b.sounds[0].name, "as kendini");
    assert_eq!(b.sounds[0].recognition_type, RecognitionType::PHRASE);
    assert_eq!(b.sounds[0].language, ModelLanguage::TURKISH);
    assert_eq!(b.sounds[0].path, "songs/a1");
    assert_eq!(b.sounds[1].recognition_type, RecognitionType::WORD);
    assert_eq!(b.sounds[1].path, "songs/b2");
}

#[test]
fn catalog_rejects_unknown_language() {
    let rows = vec![row("a", "dutch", "x"), row("b", "klingon", "y"), row("c", "elvish", "z")];
    assert_eq!(
        SoundBoard::from_db_sounds(&rows).err(),
        Some(CatalogError::InvalidLanguage { row: 1 })
    );
}

#[test]
fn empty_rows_give_empty_catalog() {
    let b = SoundBoard::from_db_sounds(&vec![]).ok().unwrap();
    assert!(b.sounds.is_empty());
}
