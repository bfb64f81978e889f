//! Lexical front end of a small declarative scripting language for
//! visual-novel style content.

pub mod chars;
pub mod err;
pub mod laws;
pub mod lexer;
pub mod pos;
pub mod scan;
pub mod text;
pub mod token;
