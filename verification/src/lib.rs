pub mod anki;
pub mod csv;
pub mod cache;
pub mod lang;
pub mod markup;
pub mod text;
pub mod tts;
