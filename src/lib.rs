//! Speech-triggered soundboard for voice sessions.
//!
//! The library keeps the per-session state of a voice assistant that listens to
//! several speakers at once and plays a clip when one of them says a configured
//! trigger: the trigger catalog, the speaker registry with one recognizer slot
//! per speaker and language, the match policy applied to recognizer output, and
//! the lifecycle decisions of a session.

pub mod commands;
pub mod language;
pub mod lifecycle;
pub mod soundboard;
pub mod speech_to_text;
pub mod text;
pub mod voice_handler;
