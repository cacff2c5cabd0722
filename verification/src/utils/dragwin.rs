//! The messages of the window frame (drag, resize, toolbar buttons) and how
//! the application state answers them.

use vstd::prelude::*;

use crate::app::{cnoise_audio_done, CosmicNoise, Effect};
use crate::audio::{command_in_bounds, AudioCommand};
use crate::audio::engine::SoundHandle;
use crate::errors::AppError;
use crate::models::{AppTheme, AppView};
use kira::Decibels;

verus! {

/// Window management messages: drag, resize, maximize, minimize, close.
#[derive(Debug, Clone, Copy, PartialEq, Eq, Structural)]
pub enum WindowMessage {
    Drag,
    Maximize,
    Minimize,
    NorthWest,
    North,
    NorthEast,
    West,
    East,
    South,
    SouthWest,
    SouthEast,
    Close,
}

/// Navigation messages: the settings view, back to the player, a new theme.
#[derive(Debug, Clone, Copy, PartialEq, Eq, Structural)]
pub enum UIMessage {
    Settings,
    BackToPlayer,
    ThemeChanged(AppTheme),
}

/// The messages of the window frame.
#[derive(Debug, Clone)]
pub enum Message<V> {
    Window(WindowMessage),
    Audio(AudioCommand<V>),
    UI(UIMessage),
}

/// The message can be carried out: an audio command in it touches only
/// tracks that exist.
pub open spec fn message_in_bounds<V>(message: Message<V>, app: CosmicNoise<V>) -> bool {
    match message {
        Message::Audio(command) => command_in_bounds(
            command,
            app.audio_system.handle_ids(),
            app.track_list@.len() as int,
        ),
        _ => true,
    }
}

/// Answers a window-frame message: a window request is handed back for the
/// window system, an audio command is carried out on the player, and a
/// navigation message switches the view or the theme (the new theme is
/// handed back to be saved).
pub fn update<V: Copy, S, M>(message: Message<V>, cnoise: &mut CosmicNoise<V>, start: &S, mix: &M) -> (effect: Effect<V>) where
    S: Fn(String, V, V) -> Result<SoundHandle, AppError>,
    M: Fn(V, V) -> Decibels,

    requires
        forall|p: String, a: V, b: V| #[trigger] start.requires((p, a, b)),
        forall|a: V, b: V| #[trigger] mix.requires((a, b)),
        message_in_bounds(message, *old(cnoise)),
    ensures
        match message {
            Message::Window(w) => effect == Effect::<V>::Window(w) && *final(cnoise) == *old(cnoise),
            Message::Audio(command) => cnoise_audio_done(
                command,
                *old(cnoise),
                *final(cnoise),
                effect,
                *start,
                *mix,
            ),
            Message::UI(UIMessage::Settings) => effect == Effect::<V>::Nothing
                && *final(cnoise) == (CosmicNoise { current_view: AppView::Settings, ..*old(cnoise) }),
            Message::UI(UIMessage::BackToPlayer) => effect == Effect::<V>::Nothing
                && *final(cnoise) == (CosmicNoise { current_view: AppView::Player, ..*old(cnoise) }),
            Message::UI(UIMessage::ThemeChanged(theme)) => effect == Effect::<V>::SaveTheme(theme)
                && *final(cnoise) == (CosmicNoise { current_theme: theme, ..*old(cnoise) }),
        },
{
    match message {
        Message::Window(window_msg) => Effect::Window(window_msg),
        Message::Audio(audio_cmd) => cnoise.process_audio_command(audio_cmd, start, mix),
        Message::UI(ui_msg) => match ui_msg {
            UIMessage::Settings => {
                cnoise.current_view = AppView::Settings;
                Effect::Nothing
            },
            UIMessage::BackToPlayer => {
                cnoise.current_view = AppView::Player;
                Effect::Nothing
            },
            UIMessage::ThemeChanged(theme) => {
                cnoise.current_theme = theme;
                Effect::SaveTheme(theme)
            },
        },
    }
}

} // verus!
