//! The modal line editor.

pub mod command;
pub mod editor;
pub mod engine;
pub mod keys;
pub mod laws;
pub mod line;
pub mod modes;
pub mod prompt;
pub mod text_object;
