//! The state of the player and how it answers its messages.

use vstd::prelude::*;

use crate::audio::engine::SoundHandle;
use crate::audio::{command_done, command_in_bounds, start_accounts_for, AudioCommand, AudioEvent, AudioSystem};
use crate::errors::AppError;
use crate::models::{AppTheme, AppView, NoiseTrack};
use crate::utils::dragwin;
use kira::Decibels;

verus! {

/// The state of the player.
pub struct CosmicNoise<V> {
    /// The audio system that plays the tracks.
    pub audio_system: AudioSystem<V>,
    /// The available tracks.
    pub track_list: Vec<NoiseTrack<V>>,
    /// The current error, if any.
    pub error: Option<AppError>,
    /// The current view.
    pub current_view: AppView,
    /// The current theme.
    pub current_theme: AppTheme,
}

/// The messages of the player.
#[derive(Debug)]
pub enum Message<V> {
    /// A message of the window frame.
    DragWin(dragwin::Message<V>),
    /// The tracks were loaded, or loading failed.
    Loaded(Result<Vec<NoiseTrack<V>>, AppError>),
}

/// What the application has to do outside the player state after a
/// message: nothing, a window request, saving the theme, or saving the
/// master volume.
#[derive(Debug, Clone, Copy, PartialEq, Eq)]
pub enum Effect<V> {
    Nothing,
    Window(dragwin::WindowMessage),
    SaveTheme(AppTheme),
    SaveMasterVolume(V),
}

/// The error after an audio command: a failure becomes the error, and a
/// success clears an audio error but keeps any other.
pub open spec fn error_after<V>(error: Option<AppError>, res: Result<Vec<AudioEvent<V>>, AppError>) -> Option<AppError> {
    match res {
        Ok(_) => if error matches Some(AppError::Audio(_)) {
            None
        } else {
            error
        },
        Err(e) => Some(e),
    }
}

/// A failed command's error becomes the current error; a successful one
/// clears an audio error and leaves every other error, or none, as it was.
pub proof fn lemma_success_clears_only_audio_errors<V>(
    error: Option<AppError>,
    res: Result<Vec<AudioEvent<V>>, AppError>,
)
    ensures
        res matches Err(e) ==> error_after(error, res) == Some(e),
        res is Ok ==> (error_after(error, res) is None <==> (error is None || error matches Some(
            AppError::Audio(_),
        ))),
        res is Ok && !(error matches Some(AppError::Audio(_))) ==> error_after(error, res) == error,
{
}

/// What an audio command does to the player: the audio system and the tracks
/// change as the command says, the error follows the outcome, and a new
/// master volume is handed back to be saved.
pub open spec fn cnoise_audio_done<V, S, M>(
    command: AudioCommand<V>,
    old_app: CosmicNoise<V>,
    new_app: CosmicNoise<V>,
    effect: Effect<V>,
    start: S,
    mix: M,
) -> bool where S: Fn(String, V, V) -> Result<SoundHandle, AppError>, M: Fn(V, V) -> Decibels {
    &&& exists|res: Result<Vec<AudioEvent<V>>, AppError>|
        {
            &&& command_done(
                command,
                old_app.audio_system,
                new_app.audio_system,
                old_app.track_list@,
                new_app.track_list@,
                res,
                mix,
            )
            &&& start_accounts_for(
                command,
                old_app.track_list@,
                old_app.audio_system.spec_master_volume(),
                start,
                res,
            )
            &&& new_app.error == error_after(old_app.error, res)
        }
    &&& new_app.current_view == old_app.current_view
    &&& new_app.current_theme == old_app.current_theme
    &&& effect == match command {
        AudioCommand::SetMasterVolume(v) => Effect::SaveMasterVolume(v),
        _ => Effect::<V>::Nothing,
    }
}

/// The message can be carried out: an audio command in it touches only
/// tracks that exist.
pub open spec fn app_message_in_bounds<V>(message: Message<V>, app: CosmicNoise<V>) -> bool {
    match message {
        Message::DragWin(m) => dragwin::message_in_bounds(m, app),
        Message::Loaded(_) => true,
    }
}

impl<V: Copy> CosmicNoise<V> {
    /// The player with the given audio system and theme, no tracks, no
    /// error, on the player view.
    pub fn new(audio_system: AudioSystem<V>, current_theme: AppTheme) -> (app: Self)
        ensures
            app.audio_system == audio_system,
            app.track_list@.len() == 0,
            app.error is None,
            app.current_view == AppView::Player,
            app.current_theme == current_theme,
    {
        CosmicNoise {
            audio_system,
            track_list: Vec::new(),
            error: None,
            current_view: AppView::Player,
            current_theme,
        }
    }

    /// Answers a message: a window-frame message as `dragwin::update` does,
    /// and loaded tracks replace the track list and clear the error, where a
    /// failed loading sets it.
    pub fn update<S, M>(&mut self, message: Message<V>, start: &S, mix: &M) -> (effect: Effect<V>) where
        S: Fn(String, V, V) -> Result<SoundHandle, AppError>,
        M: Fn(V, V) -> Decibels,

        requires
            forall|p: String, a: V, b: V| #[trigger] start.requires((p, a, b)),
            forall|a: V, b: V| #[trigger] mix.requires((a, b)),
            app_message_in_bounds(message, *old(self)),
        ensures
            match message {
                Message::DragWin(dragwin::Message::Window(w)) => effect == Effect::<V>::Window(w)
                    && *final(self) == *old(self),
                Message::DragWin(dragwin::Message::Audio(command)) => cnoise_audio_done(
                    command,
                    *old(self),
                    *final(self),
                    effect,
                    *start,
                    *mix,
                ),
                Message::DragWin(dragwin::Message::UI(dragwin::UIMessage::Settings)) => effect
                    == Effect::<V>::Nothing && *final(self) == (CosmicNoise {
                    current_view: AppView::Settings,
                    ..*old(self)
                }),
                Message::DragWin(dragwin::Message::UI(dragwin::UIMessage::BackToPlayer)) => effect
                    == Effect::<V>::Nothing && *final(self) == (CosmicNoise {
                    current_view: AppView::Player,
                    ..*old(self)
                }),
                Message::DragWin(dragwin::Message::UI(dragwin::UIMessage::ThemeChanged(theme))) => effect
                    == Effect::<V>::SaveTheme(theme) && *final(self) == (CosmicNoise {
                    current_theme: theme,
                    ..*old(self)
                }),
                Message::Loaded(Ok(tracks)) => effect == Effect::<V>::Nothing && *final(self) == (CosmicNoise {
                    track_list: tracks,
                    error: None,
                    ..*old(self)
                }),
                Message::Loaded(Err(e)) => effect == Effect::<V>::Nothing && *final(self) == (CosmicNoise {
                    error: Some(e),
                    ..*old(self)
                }),
            },
    {
        match message {
            Message::DragWin(drag_msg) => dragwin::update(drag_msg, self, start, mix),
            Message::Loaded(result) => {
                match result {
                    Ok(tracks) => {
                        self.track_list = tracks;
                        self.error = None;
                    },
                    Err(e) => {
                        self.error = Some(e);
                    },
                }
                Effect::Nothing
            },
        }
    }

    /// Carries out an audio command on the tracks; a failure becomes the
    /// error, and a success clears an audio error. A new master volume is
    /// handed back to be saved.
    pub fn process_audio_command<S, M>(&mut self, command: AudioCommand<V>, start: &S, mix: &M) -> (effect: Effect<V>) where
        S: Fn(String, V, V) -> Result<SoundHandle, AppError>,
        M: Fn(V, V) -> Decibels,

        requires
            forall|p: String, a: V, b: V| #[trigger] start.requires((p, a, b)),
            forall|a: V, b: V| #[trigger] mix.requires((a, b)),
            command_in_bounds(command, old(self).audio_system.handle_ids(), old(self).track_list@.len() as int),
        ensures
            cnoise_audio_done(command, *old(self), *final(self), effect, *start, *mix),
    {
        let effect = match command {
            AudioCommand::SetMasterVolume(v) => Effect::SaveMasterVolume(v),
            _ => Effect::Nothing,
        };
        let res = self.audio_system.process_command(command, &mut self.track_list, start, mix);
        let ghost outcome = res;
        let ghost old_error = self.error;
        match res {
            Ok(_) => {
                if matches!(self.error, Some(AppError::Audio(_))) {
                    self.error = None;
                }
            },
            Err(e) => {
                self.error = Some(e);
            },
        }
        assert(self.error == error_after(old_error, outcome));
        effect
    }

    /// Records how saving a new theme went: a failure becomes the error.
    pub fn theme_saved(&mut self, result: Result<(), AppError>)
        ensures
            match result {
                Ok(()) => *final(self) == *old(self),
                Err(e) => *final(self) == (CosmicNoise { error: Some(e), ..*old(self) }),
            },
    {
        if let Err(e) = result {
            self.error = Some(e);
        }
    }

    /// Whether the command touches only tracks that exist.
    pub fn command_fits(&self, command: &AudioCommand<V>) -> (fits: bool)
        ensures
            fits == command_in_bounds(*command, self.audio_system.handle_ids(), self.track_list@.len() as int),
    {
        self.audio_system.command_fits(command, self.track_list.len())
    }
}

} // verus!
