//! Reading templates, in Maud or rsx syntax, from their tokens.
pub mod grammar;
pub mod reader;
pub mod tokens_read;
