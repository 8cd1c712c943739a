//! The two cores of an interactive shell, without the system calls around them:
//! the command language (syntax tree, parser, expansion, job bookkeeping) and the
//! modal line editor (line buffer, modes, text objects, completion).

pub mod chars;
pub mod line_editor;
pub mod completion;
pub mod ast;
pub mod grammar;
pub mod parser;
pub mod pattern;
pub mod glob;
pub mod dict;
pub mod env;
pub mod job;
pub mod io;
pub mod eval;
pub mod shell;
pub mod builtins;
pub mod terminal_size;
pub mod render;
pub mod roundtrip;
