//! Back end of a desktop application launcher: entry files are read into
//! plain records, launch commands are cleaned of placeholders, one category
//! label is chosen per program, and programs are ranked against a typed query.

pub mod text;
pub mod ranking;
pub mod command;
pub mod category;
pub mod program;
pub mod entry;
pub mod discover;
