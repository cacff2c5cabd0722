//! Cosmic Noise: the core of an ambient noise player.
//!
//! The library holds the player's logic: the tracks found in the sound
//! directories, the playback control of the audio system, the messages of
//! the interface and how the player state answers them, and the errors.
//! Volumes are values of a type chosen by the caller (decibels in the
//! application), which the library stores and hands on.

pub mod app;
pub mod audio;
pub mod config;
pub mod errors;
pub mod messages;
pub mod models;
pub mod ui;
pub mod utils;

pub use app::{CosmicNoise, Message};
pub use config::ConfigManager;
pub use errors::{AppError, AudioError, ConfigError, FileSystemError};
pub use models::{AppTheme, AppView, NoiseTrack, PlaybackState};
