//! What the interface shows: which screen is under the toolbar, how an error
//! is presented, and how a track's playback state is drawn.

use vstd::prelude::*;

use crate::app::CosmicNoise;
use crate::errors::{app_message, AppError, AudioError, FileSystemError};
use crate::models::{AppView, PlaybackState};

verus! {

/// The screens under the toolbar.
#[derive(Debug, Clone, Copy, PartialEq, Eq, Structural)]
pub enum Screen {
    /// The current error.
    Error,
    /// The notice that no tracks were found.
    Empty,
    /// The grid of tracks.
    Tracks,
    /// The settings.
    Settings,
}

/// The screen for the player's state: in the player view an error comes
/// first, then the notice that there are no tracks, then the tracks.
pub open spec fn spec_screen<V>(app: CosmicNoise<V>) -> Screen {
    match app.current_view {
        AppView::Player => if app.error is Some {
            Screen::Error
        } else if app.track_list@.len() == 0 {
            Screen::Empty
        } else {
            Screen::Tracks
        },
        AppView::Settings => Screen::Settings,
    }
}

/// In the player view a set error is always what is shown, whatever the
/// track list holds; the notice that no tracks were found is shown only when
/// no error is set, and the grid only when there is neither an error nor an
/// empty list. The settings view shows the settings whatever the state.
pub proof fn lemma_error_screen_comes_first<V>(app: CosmicNoise<V>)
    ensures
        app.current_view == AppView::Player && app.error is Some ==> spec_screen(app) == Screen::Error,
        spec_screen(app) == Screen::Empty ==> app.error is None && app.track_list@.len() == 0,
        spec_screen(app) == Screen::Tracks ==> app.error is None && app.track_list@.len() > 0,
        spec_screen(app) == Screen::Settings <==> app.current_view == AppView::Settings,
{
}

/// The screen the player shows under the toolbar.
pub fn screen_for<V>(app: &CosmicNoise<V>) -> (screen: Screen)
    ensures
        screen == spec_screen(*app),
        app.current_view == AppView::Player && app.error is Some ==> screen == Screen::Error,
        app.current_view == AppView::Player && app.error is None && app.track_list@.len() == 0
            ==> screen == Screen::Empty,
        app.current_view == AppView::Player && app.error is None && app.track_list@.len() > 0
            ==> screen == Screen::Tracks,
        app.current_view == AppView::Settings ==> screen == Screen::Settings,
{
    match app.current_view {
        AppView::Player => {
            if app.error.is_some() {
                Screen::Error
            } else if app.track_list.len() == 0 {
                Screen::Empty
            } else {
                Screen::Tracks
            }
        },
        AppView::Settings => Screen::Settings,
    }
}

/// The icon shown with an error: a locked folder where a directory could not
/// be read, a missing folder otherwise.
pub open spec fn spec_error_icon(e: AppError) -> Seq<char> {
    match e {
        AppError::FileSystem(FileSystemError::DirectoryReadError) => "assets/icons/dir_not_allowed.svg"@,
        _ => "assets/icons/dir_not_found.svg"@,
    }
}

/// The text shown with an error: a hint for the errors a user can mend, the
/// error's own description for the others. The texts are fixed English
/// texts: the player carries no translations, so the missing-directory and
/// playback hints are not localized.
pub open spec fn spec_error_text(e: AppError) -> Seq<char> {
    match e {
        AppError::FileSystem(FileSystemError::DirectoryNotFound) =>
            "No sound directory found. Put audio files in ~/.local/share/cosmic-noise/sounds or ~/.config/cosmic-noise/sounds."@,
        AppError::FileSystem(FileSystemError::DirectoryReadError) =>
            "Could not read audio directory. Check permissions."@,
        AppError::FileSystem(FileSystemError::InvalidFileFormat) =>
            "Found an invalid or unsupported audio file format."@,
        AppError::Audio(AudioError::HandleCreationFailed) => "The sound could not be played."@,
        _ => app_message(e),
    }
}

/// The path of the icon shown with the error.
pub fn error_icon(error: &AppError) -> (path: &'static str)
    ensures
        path@ == spec_error_icon(*error),
{
    match error {
        AppError::FileSystem(FileSystemError::DirectoryReadError) => "assets/icons/dir_not_allowed.svg",
        _ => "assets/icons/dir_not_found.svg",
    }
}

/// The text shown with the error.
pub fn error_text(error: &AppError) -> (text: String)
    ensures
        text@ == spec_error_text(*error),
{
    match error {
        AppError::FileSystem(FileSystemError::DirectoryNotFound) => String::from_str(
            "No sound directory found. Put audio files in ~/.local/share/cosmic-noise/sounds or ~/.config/cosmic-noise/sounds.",
        ),
        AppError::FileSystem(FileSystemError::DirectoryReadError) => String::from_str(
            "Could not read audio directory. Check permissions.",
        ),
        AppError::FileSystem(FileSystemError::InvalidFileFormat) => String::from_str(
            "Found an invalid or unsupported audio file format.",
        ),
        AppError::Audio(AudioError::HandleCreationFailed) => String::from_str("The sound could not be played."),
        _ => error.to_string(),
    }
}

/// How a track's wave is drawn: moving in the running colour while it plays,
/// still in the paused colour while paused, still in the primary colour
/// otherwise.
#[derive(Debug, Clone, Copy, PartialEq, Eq, Structural)]
pub enum WaveStyle {
    Running,
    Paused,
    Idle,
}

/// The wave style of a playback state.
pub open spec fn spec_wave_style(state: PlaybackState) -> WaveStyle {
    match state {
        PlaybackState::Playing => WaveStyle::Running,
        PlaybackState::Paused => WaveStyle::Paused,
        _ => WaveStyle::Idle,
    }
}

/// The wave style of a track in the given state.
pub fn wave_style(state: PlaybackState) -> (style: WaveStyle)
    ensures
        style == spec_wave_style(state),
{
    match state {
        PlaybackState::Playing => WaveStyle::Running,
        PlaybackState::Paused => WaveStyle::Paused,
        _ => WaveStyle::Idle,
    }
}

} // verus!
