//! The verified core of a note-taking application: fuzzy search sessions over
//! snapshots of candidates, the documents those candidates are built from,
//! and the rules that turn note paths into titles, tags and palette entries.

pub mod action;
pub mod cache;
pub mod command;
pub mod editor_state;
pub mod engine;
pub mod locater;
pub mod message;
pub mod meta;
pub mod missed_events;
pub mod note;
pub mod palette;
pub mod palette_action;
pub mod pattern;
pub mod searcher;
pub mod settings;
pub mod state;
pub mod suggester;
pub mod table;
pub mod tag;
pub mod text;
pub mod title;
pub mod window_state;
