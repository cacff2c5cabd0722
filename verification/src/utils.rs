//! Helpers: sound file discovery and the window-frame messages.

pub mod files;
pub mod dragwin;
