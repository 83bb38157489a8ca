//! A small lexicon of word-like entries, each tagged with a bit-field of
//! grammatical properties.
//!
//! The library holds the entries and their flags, the format of the file in
//! which a lexicon is kept, the shorthand in which edits of the flags are
//! typed, and the dialogue in which a lexicon is edited. It reads no file
//! and prints nothing: it works on bytes and texts that it is handed, and
//! hands bytes and texts back.

pub mod text;
pub mod trimming;
pub mod flags;
pub mod flags_laws;
pub mod lexeme;
pub mod lexeme_laws;
pub mod command;
pub mod command_laws;
pub mod parser;
pub mod interpreter;
pub mod interpreter_laws;
pub mod codec;
pub mod codec_laws;
pub mod index;
pub mod shell;
pub mod shell_laws;
pub mod printer;
