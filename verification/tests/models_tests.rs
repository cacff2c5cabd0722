use cosmic_noise::config::ConfigManager;
use cosmic_noise::models::{FileSettings, SUPPORTED_EXTENSIONS};
use cosmic_noise::{AppTheme, AppView, NoiseTrack, PlaybackState};

#[test]
fn test_theme_default() {
    let theme = AppTheme::default();
    assert_eq!(theme, AppTheme::Tokyo);
}

#[test]
fn test_theme_display() {
    assert_eq!(AppTheme::GruvboxLight.display_name(), "Gruvbox Light");
    assert!(AppTheme::all().len() >= 4);
}

#[test]
fn test_noise_track_creation() {
    const DEFAULT_VOLUME_DB: f32 = -30.0;
    let track = NoiseTrack::new("test".to_string(), "/test/path.mp3".to_string(), DEFAULT_VOLUME_DB);

    assert_eq!(track.name, "test");
    assert_eq!(track.volume_level, DEFAULT_VOLUME_DB);
}

#[test]
fn noise_track_starts_stopped_with_its_path() {
    let track = NoiseTrack::new("rain".to_string(), "/sounds/rain.ogg".to_string(), -12.5f32);
    assert_eq!(track.path, "/sounds/rain.ogg");
    assert_eq!(track.state, PlaybackState::Stopped);
}

#[test]
fn every_theme_has_its_name() {
    let names: Vec<&str> = AppTheme::all().iter().map(|t| t.display_name()).collect();
    assert_eq!(
        names,
        vec!["Light", "Gruvbox Light", "Gruvbox Dark", "Tokyo Night", "Catppuccin", "Moonfly"]
    );
    assert_eq!(AppTheme::Tokyo.to_string(), "Tokyo Night");
}

#[test]
fn themes_are_listed_once_each() {
    let all = AppTheme::all();
    assert_eq!(all.len(), 6);
    for (i, a) in all.iter().enumerate() {
        for (j, b) in all.iter().enumerate() {
            assert_eq!(i == j, a == b);
            assert_eq!(i == j, a.display_name() == b.display_name());
        }
    }
}

#[test]
fn default_view_is_the_player() {
    assert_eq!(AppView::default(), AppView::Player);
}

#[test]
fn default_file_settings() {
    let settings = FileSettings::default();
    assert!(settings.custom_directories.is_empty());
    assert!(!settings.watch_directories);
    assert_eq!(settings.supported_extensions, vec!["mp3", "ogg", "flac", "wav"]);
    assert_eq!(settings.supported_extensions.len(), SUPPORTED_EXTENSIONS.len());
    assert!(settings.recursive_scan);
    assert_eq!(settings.max_scan_depth, 3);
}

#[test]
fn stored_theme_is_loaded() {
    assert_eq!(ConfigManager::load_theme(Some(AppTheme::Moonfly)), AppTheme::Moonfly);
}

#[test]
fn missing_configuration_gives_the_default_configuration_theme() {
    assert_eq!(ConfigManager::load_theme(None), AppTheme::GruvboxLight);
    assert_eq!(ConfigManager::default_config_theme(), AppTheme::GruvboxLight);
    assert_ne!(ConfigManager::default_config_theme(), AppTheme::default());
}
