use cosmic_noise::errors::{FileErrorCause, IoFailure};
use cosmic_noise::{AppError, AudioError, ConfigError, FileSystemError};

#[test]
fn test_error_display() {
    let fs_error = AppError::FileSystem(FileSystemError::DirectoryNotFound);
    assert!(fs_error.to_string().contains("Sound directory not found"));

    let audio_error = AppError::Audio(AudioError::InitializationFailed);
    assert!(
        audio_error
            .to_string()
            .contains("Failed to initialize audio system")
    );
}

#[test]
fn test_error_conversion() {
    let fs_error = FileSystemError::DirectoryNotFound;
    let app_error: AppError = fs_error.into();
    assert!(matches!(app_error, AppError::FileSystem(_)));
}

#[test]
fn error_messages_name_kind_and_cause() {
    assert_eq!(
        AppError::FileSystem(FileSystemError::IOError("disk gone".to_string())).to_string(),
        "File system error: IO error: disk gone"
    );
    assert_eq!(
        AppError::Audio(AudioError::PlaybackError("Track index out of bounds".to_string())).to_string(),
        "Audio error: Playback error: Track index out of bounds"
    );
    assert_eq!(
        AppError::Config(ConfigError::SaveFailed).to_string(),
        "Configuration error: Failed to save configuration"
    );
    assert_eq!(
        AudioError::DecoderError("bad frame".to_string()).to_string(),
        "Audio decoder error: bad frame"
    );
}

#[test]
fn every_file_system_error_has_its_message() {
    assert_eq!(
        FileSystemError::DirectoryNotFound.to_string(),
        "Sound directory not found. Please check that sounds exist in '$HOME/.local/share/cosmic-noise/sounds' or '$HOME/.config/cosmic-noise/sounds'"
    );
    assert_eq!(FileSystemError::DirectoryReadError.to_string(), "Could not read directory contents");
    assert_eq!(FileSystemError::InvalidFileFormat.to_string(), "Invalid or unsupported audio file format");
    assert_eq!(FileSystemError::PermissionDenied.to_string(), "Permission denied accessing audio files");
}

#[test]
fn every_audio_error_has_its_message() {
    assert_eq!(AudioError::InitializationFailed.to_string(), "Failed to initialize audio system");
    assert_eq!(AudioError::HandleCreationFailed.to_string(), "Failed to create audio playback handle");
    assert_eq!(AudioError::NoDefaultTrack.to_string(), "Audio file contains no default track");
    assert_eq!(AudioError::UnknownSampleRate.to_string(), "Audio file has unknown or unsupported sample rate");
    assert_eq!(AudioError::UnknownDuration.to_string(), "Could not determine audio file duration");
    assert_eq!(
        AudioError::UnsupportedChannelConfiguration.to_string(),
        "Audio file has unsupported channel configuration"
    );
}

#[test]
fn conversions_wrap_each_kind() {
    let a: AppError = AudioError::NoDefaultTrack.into();
    assert_eq!(a, AppError::Audio(AudioError::NoDefaultTrack));
    let c: AppError = ConfigError::SaveFailed.into();
    assert_eq!(c, AppError::Config(ConfigError::SaveFailed));
}

#[test]
fn file_read_failures_map_to_audio_errors() {
    assert_eq!(AudioError::from_cause(FileErrorCause::NoDefaultTrack), AudioError::NoDefaultTrack);
    assert_eq!(AudioError::from_cause(FileErrorCause::UnknownSampleRate), AudioError::UnknownSampleRate);
    assert_eq!(AudioError::from_cause(FileErrorCause::UnknownDuration), AudioError::UnknownDuration);
    assert_eq!(
        AudioError::from_cause(FileErrorCause::UnsupportedChannelConfiguration),
        AudioError::UnsupportedChannelConfiguration
    );
    assert_eq!(
        AudioError::from_cause(FileErrorCause::Io("gone".to_string())),
        AudioError::PlaybackError("gone".to_string())
    );
    assert_eq!(
        AudioError::from_cause(FileErrorCause::Decoding("garbled".to_string())),
        AudioError::DecoderError("garbled".to_string())
    );
}

#[test]
fn kira_file_errors_are_classified() {
    let missing = kira::sound::FromFileError::IoError(std::io::Error::new(
        std::io::ErrorKind::NotFound,
        "no such file",
    ));
    assert_eq!(AudioError::from_file_error(missing), AudioError::PlaybackError("no such file".to_string()));
    assert_eq!(
        AudioError::from_file_error(kira::sound::FromFileError::UnknownDuration),
        AudioError::UnknownDuration
    );
}

#[test]
fn io_errors_map_to_file_system_errors() {
    let not_found = std::io::Error::new(std::io::ErrorKind::NotFound, "nothing here");
    assert_eq!(FileSystemError::from_io_error(&not_found), FileSystemError::DirectoryNotFound);
    let denied = std::io::Error::new(std::io::ErrorKind::PermissionDenied, "keep out");
    assert_eq!(FileSystemError::from_io_error(&denied), FileSystemError::PermissionDenied);
    let other = std::io::Error::new(std::io::ErrorKind::Other, "it broke");
    assert_eq!(FileSystemError::from_io_error(&other), FileSystemError::IOError("it broke".to_string()));
    assert_eq!(FileSystemError::from_io_failure(IoFailure::NotFound), FileSystemError::DirectoryNotFound);
}
