use std::time::Duration;

use cosmic_noise::audio::AudioSystem;
use cosmic_noise::ui::view::{error_icon, error_text, screen_for, wave_style, Screen, WaveStyle};
use cosmic_noise::{AppError, AppTheme, AppView, AudioError, CosmicNoise, FileSystemError, NoiseTrack, PlaybackState};

fn new_app() -> CosmicNoise<f32> {
    CosmicNoise::new(AudioSystem::new(-30.0f32, Duration::from_secs(1)), AppTheme::Tokyo)
}

#[test]
fn an_app_without_tracks_shows_the_empty_notice() {
    assert_eq!(screen_for(&new_app()), Screen::Empty);
}

#[test]
fn an_app_with_tracks_shows_them() {
    let mut app = new_app();
    app.track_list.push(NoiseTrack::new("rain".to_string(), "/s/rain.ogg".to_string(), -30.0));
    assert_eq!(screen_for(&app), Screen::Tracks);
}

#[test]
fn an_error_comes_before_the_tracks() {
    let mut app = new_app();
    app.track_list.push(NoiseTrack::new("rain".to_string(), "/s/rain.ogg".to_string(), -30.0));
    app.error = Some(AppError::Audio(AudioError::HandleCreationFailed));
    assert_eq!(screen_for(&app), Screen::Error);
}

#[test]
fn the_settings_view_shows_the_settings_even_with_an_error() {
    let mut app = new_app();
    app.error = Some(AppError::FileSystem(FileSystemError::DirectoryNotFound));
    app.current_view = AppView::Settings;
    assert_eq!(screen_for(&app), Screen::Settings);
}

#[test]
fn a_directory_that_cannot_be_read_gets_its_own_icon() {
    let unreadable = AppError::FileSystem(FileSystemError::DirectoryReadError);
    let missing = AppError::FileSystem(FileSystemError::DirectoryNotFound);
    assert_eq!(error_icon(&unreadable), "assets/icons/dir_not_allowed.svg");
    assert_eq!(error_icon(&missing), "assets/icons/dir_not_found.svg");
    assert_eq!(error_text(&unreadable), "Could not read audio directory. Check permissions.");
}

#[test]
fn error_texts_give_hints_or_the_description() {
    assert_eq!(
        error_text(&AppError::FileSystem(FileSystemError::InvalidFileFormat)),
        "Found an invalid or unsupported audio file format."
    );
    assert_eq!(error_text(&AppError::Audio(AudioError::HandleCreationFailed)), "The sound could not be played.");
    assert!(error_text(&AppError::FileSystem(FileSystemError::DirectoryNotFound)).contains("cosmic-noise/sounds"));
    assert_eq!(
        error_text(&AppError::Audio(AudioError::InitializationFailed)),
        "Audio error: Failed to initialize audio system"
    );
}

#[test]
fn only_a_playing_track_has_a_running_wave() {
    assert_eq!(wave_style(PlaybackState::Playing), WaveStyle::Running);
    assert_eq!(wave_style(PlaybackState::Paused), WaveStyle::Paused);
    assert_eq!(wave_style(PlaybackState::Stopped), WaveStyle::Idle);
    assert_eq!(wave_style(PlaybackState::Pausing), WaveStyle::Idle);
}
