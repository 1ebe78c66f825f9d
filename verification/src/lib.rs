//! Core of a media-download manager: task records and their lifecycle,
//! a bounded concurrency gate, a registry of running engine processes,
//! a parser for the engine's line-oriented progress protocol, and a
//! playlist-listing expander.
//!
//! The modules here hold the verified logic; process spawning, file
//! access and the user interface live outside the library and talk to
//! it through plain values.

pub mod aria2;
pub mod auth;
pub mod download;
pub mod ffmpeg;
pub mod gate;
pub mod models;
pub mod progress;
pub mod registry;
pub mod settings;
pub mod store;
pub mod strutil;
pub mod version;
pub mod ytdlp;
