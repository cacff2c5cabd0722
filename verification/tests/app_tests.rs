use std::time::Duration;

use cosmic_noise::app::Effect;
use cosmic_noise::audio::engine::SoundHandle;
use cosmic_noise::audio::{AudioCommand, AudioSystem};
use cosmic_noise::utils::dragwin::{self, UIMessage, WindowMessage};
use cosmic_noise::{AppError, AppTheme, AppView, AudioError, CosmicNoise, FileSystemError, Message, NoiseTrack};
use kira::Decibels;

fn new_app() -> CosmicNoise<f32> {
    CosmicNoise::new(AudioSystem::new(-30.0f32, Duration::from_secs(1)), AppTheme::Tokyo)
}

fn failing_start(_path: String, _volume: f32, _master: f32) -> Result<SoundHandle, AppError> {
    Err(AppError::Audio(AudioError::PlaybackError("cannot open".to_string())))
}

fn mix(track: f32, master: f32) -> Decibels {
    Decibels((track + master).clamp(-60.0, 0.0))
}

fn ui(message: UIMessage) -> Message<f32> {
    Message::DragWin(dragwin::Message::UI(message))
}

fn tracks() -> Vec<NoiseTrack<f32>> {
    vec![
        NoiseTrack::new("rain".to_string(), "/s/rain.ogg".to_string(), -30.0),
        NoiseTrack::new("wind".to_string(), "/s/wind.ogg".to_string(), -20.0),
    ]
}

#[test]
fn test_app_creation() {
    let app = new_app();
    assert!(app.track_list.is_empty());
    assert!(app.error.is_none());
}

#[test]
fn new_app_shows_the_player_with_its_theme() {
    let app = CosmicNoise::new(AudioSystem::new(-12.0f32, Duration::from_millis(500)), AppTheme::Moonfly);
    assert_eq!(app.current_view, AppView::Player);
    assert_eq!(app.current_theme, AppTheme::Moonfly);
    assert_eq!(app.audio_system.master_volume(), -12.0);
}

#[test]
fn settings_and_back_switch_the_view() {
    let mut app = new_app();
    let effect = app.update(ui(UIMessage::Settings), &failing_start, &mix);
    assert_eq!(effect, Effect::Nothing);
    assert_eq!(app.current_view, AppView::Settings);
    let effect = app.update(ui(UIMessage::BackToPlayer), &failing_start, &mix);
    assert_eq!(effect, Effect::Nothing);
    assert_eq!(app.current_view, AppView::Player);
}

#[test]
fn a_new_theme_is_applied_and_handed_back_to_be_saved() {
    let mut app = new_app();
    let effect = app.update(ui(UIMessage::ThemeChanged(AppTheme::Catppuccin)), &failing_start, &mix);
    assert_eq!(effect, Effect::SaveTheme(AppTheme::Catppuccin));
    assert_eq!(app.current_theme, AppTheme::Catppuccin);
    assert_eq!(app.current_view, AppView::Player);
}

#[test]
fn window_requests_are_handed_back_untouched() {
    let mut app = new_app();
    let effect = app.update(Message::DragWin(dragwin::Message::Window(WindowMessage::SouthEast)), &failing_start, &mix);
    assert_eq!(effect, Effect::Window(WindowMessage::SouthEast));
    assert!(app.track_list.is_empty());
    assert_eq!(app.current_view, AppView::Player);
}

#[test]
fn loaded_tracks_replace_the_list_and_clear_the_error() {
    let mut app = new_app();
    app.error = Some(AppError::FileSystem(FileSystemError::DirectoryNotFound));
    let effect = app.update(Message::Loaded(Ok(tracks())), &failing_start, &mix);
    assert_eq!(effect, Effect::Nothing);
    assert_eq!(app.track_list.len(), 2);
    assert_eq!(app.track_list[1].name, "wind");
    assert!(app.error.is_none());
}

#[test]
fn failed_loading_sets_the_error_and_keeps_the_tracks() {
    let mut app = new_app();
    app.update(Message::Loaded(Ok(tracks())), &failing_start, &mix);
    app.update(Message::Loaded(Err(AppError::FileSystem(FileSystemError::DirectoryNotFound))), &failing_start, &mix);
    assert_eq!(app.error, Some(AppError::FileSystem(FileSystemError::DirectoryNotFound)));
    assert_eq!(app.track_list.len(), 2);
}

#[test]
fn a_failed_command_sets_the_error_and_a_success_clears_it() {
    let mut app = new_app();
    app.update(Message::Loaded(Ok(tracks())), &failing_start, &mix);
    let effect = app.process_audio_command(AudioCommand::Play(0), &failing_start, &mix);
    assert_eq!(effect, Effect::Nothing);
    assert_eq!(app.error, Some(AppError::Audio(AudioError::PlaybackError("cannot open".to_string()))));
    let effect = app.process_audio_command(AudioCommand::SetMasterVolume(-6.0), &failing_start, &mix);
    assert_eq!(effect, Effect::SaveMasterVolume(-6.0));
    assert!(app.error.is_none());
    assert_eq!(app.audio_system.master_volume(), -6.0);
}

#[test]
fn a_success_keeps_an_error_that_is_not_an_audio_error() {
    let mut app = new_app();
    app.error = Some(AppError::FileSystem(FileSystemError::DirectoryNotFound));
    app.process_audio_command(AudioCommand::StopAll, &failing_start, &mix);
    assert_eq!(app.error, Some(AppError::FileSystem(FileSystemError::DirectoryNotFound)));
}

#[test]
fn saving_the_theme_records_only_a_failure() {
    let mut app = new_app();
    app.theme_saved(Ok(()));
    assert!(app.error.is_none());
    app.theme_saved(Err(AppError::Config(cosmic_noise::ConfigError::SaveFailed)));
    assert_eq!(app.error, Some(AppError::Config(cosmic_noise::ConfigError::SaveFailed)));
}

#[test]
fn commands_fit_only_existing_tracks() {
    let mut app = new_app();
    app.update(Message::Loaded(Ok(tracks())), &failing_start, &mix);
    assert!(app.command_fits(&AudioCommand::Play(1)));
    assert!(app.command_fits(&AudioCommand::StopAll));
    assert!(!app.command_fits(&AudioCommand::SetVolume { track_id: 2, volume: -3.0 }));
}
