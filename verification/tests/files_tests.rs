use cosmic_noise::errors::{AppError, FileSystemError};
use cosmic_noise::utils::files::{eq_ignore_ascii_case, extension_in, get_stem, load_data, FileExtension, WalkEntry};
use cosmic_noise::PlaybackState;

fn file(path: &str) -> WalkEntry {
    WalkEntry::Found { path: path.to_string(), is_file: true }
}

fn dir(path: &str) -> WalkEntry {
    WalkEntry::Found { path: path.to_string(), is_file: false }
}

#[test]
fn stems_drop_the_extension() {
    assert_eq!(get_stem("/home/u/.local/share/cosmic-noise/sounds/rain.mp3"), "rain");
    assert_eq!(get_stem("waves.tar.ogg"), "waves.tar");
    assert_eq!(get_stem(".hidden"), ".hidden");
    assert_eq!(get_stem("/"), "");
}

#[test]
fn extensions_compare_without_case() {
    let exts = ["mp3", "ogg", "flac", "wav"];
    assert!("birds.MP3".has_extension(&exts));
    assert!("birds.Flac".has_extension(&exts));
    assert!(!"birds.txt".has_extension(&exts));
    assert!(!"birds".has_extension(&exts));
    assert!(eq_ignore_ascii_case("WaV", "wav"));
    assert!(!eq_ignore_ascii_case("wave", "wav"));
}

#[test]
fn tracks_come_from_both_directories_in_order() {
    let data = vec![dir("/d/sounds"), file("/d/sounds/rain.mp3"), file("/d/sounds/wind.ogg")];
    let config = vec![dir("/c/sounds"), file("/c/sounds/fire.wav")];
    let tracks = load_data(Some(data), Some(config), -30.0f32).unwrap();
    let names: Vec<&str> = tracks.iter().map(|t| t.name.as_str()).collect();
    assert_eq!(names, vec!["rain", "wind", "fire"]);
    assert_eq!(tracks[2].path, "/c/sounds/fire.wav");
    assert!(tracks.iter().all(|t| t.volume_level == -30.0 && t.state == PlaybackState::Stopped));
}

#[test]
fn a_name_seen_first_wins() {
    let data = vec![file("/d/rain.mp3")];
    let config = vec![file("/c/rain.flac"), file("/c/birds.wav")];
    let tracks = load_data(Some(data), Some(config), 0.0f32).unwrap();
    assert_eq!(tracks.len(), 2);
    assert_eq!(tracks[0].path, "/d/rain.mp3");
    assert_eq!(tracks[1].name, "birds");
}

#[test]
fn no_directory_is_an_error() {
    assert_eq!(
        load_data::<f32>(None, None, 0.0).unwrap_err(),
        AppError::FileSystem(FileSystemError::DirectoryNotFound)
    );
}

#[test]
fn an_empty_directory_gives_no_tracks() {
    let tracks = load_data(None, Some(vec![dir("/c/sounds")]), 0.0f32).unwrap();
    assert!(tracks.is_empty());
}

#[test]
fn an_unsupported_file_is_an_error() {
    let data = vec![file("/d/rain.mp3"), file("/d/notes.txt")];
    assert_eq!(
        load_data(Some(data), None, 0.0f32).unwrap_err(),
        AppError::FileSystem(FileSystemError::InvalidFileFormat)
    );
}

#[test]
fn an_unreadable_entry_is_an_error() {
    let config = vec![file("/c/rain.mp3"), WalkEntry::Unreadable];
    assert_eq!(
        load_data(None, Some(config), 0.0f32).unwrap_err(),
        AppError::FileSystem(FileSystemError::DirectoryReadError)
    );
}

#[test]
fn an_extension_is_allowed_whatever_its_case() {
    let exts = ["mp3", "ogg"];
    assert!(extension_in("OGG", &exts));
    assert!(extension_in("Mp3", &exts));
    assert!(!extension_in("mp", &exts));
    assert!(!extension_in("ogg", &[]));
}
