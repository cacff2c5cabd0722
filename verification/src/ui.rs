//! What the user interface shows, and how texts are shaped for it.

pub mod components;
pub mod view;
