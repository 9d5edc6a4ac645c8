//! A chat-driven media-retrieval assistant's core: the format-selection
//! engine that picks the single best media encoding under per-session
//! constraints, the bounded per-session preference store that parametrizes
//! it, and the command interpreter that mutates those preferences.

pub mod chooser;
pub mod config;
pub mod files;
pub mod formats;
pub mod interp;
pub mod messages;
pub mod prefs;
pub mod store;
pub mod text;
