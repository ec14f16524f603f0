//! Core logic of a lyrics manager for a music library: the status of each
//! song, the library index, LRC lyric files, the lyrics search decisions, the
//! engine's control state and the view logic of its dashboard.
pub mod status;
pub mod text;
pub mod lrc;
pub mod order;
pub mod library;
pub mod stats;
pub mod engine;
pub mod laws;
pub mod search;
pub mod dashboard;
pub mod scan;
