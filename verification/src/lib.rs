//! The command line of fogo, a terminal program for moving between
//! folders: its flags and what they stand for, the resolution of the flags
//! that were written into one value for each setting, the little language
//! of the keymap option with its vocabulary, and the table of key bindings
//! that the mappings amount to.

pub mod bindings;
pub mod cli;
pub mod definitions;
pub mod help;
pub mod keymap;
pub mod precedence;
pub mod schema;
pub mod session;
pub mod settings;
pub mod text;
pub mod texts;
pub mod vocabulary;
