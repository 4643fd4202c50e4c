use soundboard::commands::{
    clip_path, format_sound_list, trim, validate_prompt, validate_upload, UploadError,
};
use soundboard::language::ModelLanguage;
use soundboard::soundboard::DbSound;

fn row(prompt: &str, language: &str) -> DbSound {
    DbSound { prompt: prompt.to_string(), language: language.to_string(), file_name: "f".to_string() }
}

#[test]
fn trim_strips_both_ends() {
    assert_eq!(trim("  as kendini \t\n"), "as kendini");
    assert_eq!(trim("x"), "x");
    assert_eq!(trim("   "), "");
    assert_eq!(trim(""), "");
    assert_eq!(trim("\u{a0}a b\u{3000}"), "a b");
}

#[test]
fn upload_accepted() {
    let s = validate_upload("  verstappen ", "dutch", 1000, Some("audio/mpeg")).ok().unwrap();
    assert_eq!(s.prompt, "verstappen");
    assert_eq!(s.language, ModelLanguage::DUTCH);
}

#[test]
fn upload_size_limit() {
    assert!(validate_upload("a", "dutch", 2 * 1024 * 1024, Some("audio/ogg")).is_ok());
    assert_eq!(
        validate_upload("a", "dutch", 2 * 1024 * 1024 + 1, Some("audio/ogg")).err(),
        Some(UploadError::TooLarge)
    );
}

#[test]
fn upload_must_be_audio() {
    assert_eq!(validate_upload("a", "dutch", 1, Some("image/png")).err(), Some(UploadError::NotAudio));
    assert_eq!(validate_upload("a", "dutch", 1, Some("aud")).err(), Some(UploadError::NotAudio));
    assert_eq!(validate_upload("a", "dutch", 1, None).err(), Some(UploadError::NotAudio));
}

#[test]
fn upload_prompt_and_language_checked() {
    assert_eq!(validate_upload("  ", "dutch", 1, Some("audio/ogg")).err(), Some(UploadError::EmptyPrompt));
    assert_eq!(validate_upload("a", "german", 1, Some("audio/ogg")).err(), Some(UploadError::InvalidLanguage));
}

#[test]
fn upload_error_messages() {
    assert_eq!(UploadError::TooLarge.message(), "File size too large. Max 2mb.");
    assert_eq!(UploadError::NotAudio.message(), "Only audio files are supported");
    assert_eq!(UploadError::EmptyPrompt.message(), "Prompt cannot be empty");
    assert_eq!(UploadError::InvalidLanguage.message(), "Invalid language");
}

#[test]
fn removal_prompt() {
    assert_eq!(validate_prompt(" intihar "), Some("intihar".to_string()));
    assert_eq!(validate_prompt(" \t "), None);
}

#[test]
fn clip_paths() {
    assert_eq!(clip_path("abc"), "songs/abc");
}

#[test]
fn sound_listing() {
    assert_eq!(format_sound_list(&vec![]), "No sounds found");
    assert_eq!(format_sound_list(&vec![row("intihar", "turkish")]), "```intihar - turkish```");
    assert_eq!(
        format_sound_list(&vec![row("intihar", "turkish"), row("verstappen", "dutch")]),
        "```intihar - turkish\nverstappen - dutch```"
    );
}
