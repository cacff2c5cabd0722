//! The errors of the player.

use vstd::prelude::*;

use kira::sound::FromFileError;

verus! {

/// Main error type of the player.
#[derive(Debug, Clone, PartialEq)]
pub enum AppError {
    /// File system related errors.
    FileSystem(FileSystemError),
    /// Audio playback related errors.
    Audio(AudioError),
    /// Configuration related errors.
    Config(ConfigError),
}

/// File system related errors.
#[derive(Debug, Clone, PartialEq)]
pub enum FileSystemError {
    /// No sound directory was found.
    DirectoryNotFound,
    /// A directory's contents could not be read.
    DirectoryReadError,
    /// A file with an unsupported format was found.
    InvalidFileFormat,
    /// Access was denied.
    PermissionDenied,
    /// Any other input/output error, with its description.
    IOError(String),
}

/// Audio playback related errors.
#[derive(Debug, Clone, PartialEq)]
pub enum AudioError {
    /// The audio manager could not be started.
    InitializationFailed,
    /// No playback handle could be created.
    HandleCreationFailed,
    /// The audio file has no default track.
    NoDefaultTrack,
    /// The audio file's sample rate is unknown or unsupported.
    UnknownSampleRate,
    /// The audio file's duration is unknown.
    UnknownDuration,
    /// The audio file's channel configuration is unsupported.
    UnsupportedChannelConfiguration,
    /// The decoder failed, with its description.
    DecoderError(String),
    /// Playback failed, with a description.
    PlaybackError(String),
}

/// Configuration related errors.
#[derive(Debug, Clone, PartialEq)]
pub enum ConfigError {
    /// The configuration could not be saved.
    SaveFailed,
}

/// The description of a file system error.
pub open spec fn file_system_message(e: FileSystemError) -> Seq<char> {
    match e {
        FileSystemError::DirectoryNotFound => "Sound directory not found. Please check that sounds exist in '$HOME/.local/share/cosmic-noise/sounds' or '$HOME/.config/cosmic-noise/sounds'"@,
        FileSystemError::DirectoryReadError => "Could not read directory contents"@,
        FileSystemError::InvalidFileFormat => "Invalid or unsupported audio file format"@,
        FileSystemError::PermissionDenied => "Permission denied accessing audio files"@,
        FileSystemError::IOError(msg) => "IO error: "@ + msg@,
    }
}

/// The description of an audio error.
pub open spec fn audio_message(e: AudioError) -> Seq<char> {
    match e {
        AudioError::InitializationFailed => "Failed to initialize audio system"@,
        AudioError::HandleCreationFailed => "Failed to create audio playback handle"@,
        AudioError::NoDefaultTrack => "Audio file contains no default track"@,
        AudioError::UnknownSampleRate => "Audio file has unknown or unsupported sample rate"@,
        AudioError::UnknownDuration => "Could not determine audio file duration"@,
        AudioError::UnsupportedChannelConfiguration => "Audio file has unsupported channel configuration"@,
        AudioError::DecoderError(msg) => "Audio decoder error: "@ + msg@,
        AudioError::PlaybackError(msg) => "Playback error: "@ + msg@,
    }
}

/// The description of a configuration error.
pub open spec fn config_message(e: ConfigError) -> Seq<char> {
    match e {
        ConfigError::SaveFailed => "Failed to save configuration"@,
    }
}

/// The description of an application error: its kind, then its cause.
pub open spec fn app_message(e: AppError) -> Seq<char> {
    match e {
        AppError::FileSystem(inner) => "File system error: "@ + file_system_message(inner),
        AppError::Audio(inner) => "Audio error: "@ + audio_message(inner),
        AppError::Config(inner) => "Configuration error: "@ + config_message(inner),
    }
}

impl FileSystemError {
    /// The description of the error.
    pub fn to_string(&self) -> (text: String)
        ensures
            text@ == file_system_message(*self),
    {
        match self {
            FileSystemError::DirectoryNotFound => String::from_str(
                "Sound directory not found. Please check that sounds exist in '$HOME/.local/share/cosmic-noise/sounds' or '$HOME/.config/cosmic-noise/sounds'",
            ),
            FileSystemError::DirectoryReadError => String::from_str("Could not read directory contents"),
            FileSystemError::InvalidFileFormat => String::from_str("Invalid or unsupported audio file format"),
            FileSystemError::PermissionDenied => String::from_str("Permission denied accessing audio files"),
            FileSystemError::IOError(msg) => String::from_str("IO error: ").concat(msg.as_str()),
        }
    }
}

impl AudioError {
    /// The description of the error.
    pub fn to_string(&self) -> (text: String)
        ensures
            text@ == audio_message(*self),
    {
        match self {
            AudioError::InitializationFailed => String::from_str("Failed to initialize audio system"),
            AudioError::HandleCreationFailed => String::from_str("Failed to create audio playback handle"),
            AudioError::NoDefaultTrack => String::from_str("Audio file contains no default track"),
            AudioError::UnknownSampleRate => String::from_str("Audio file has unknown or unsupported sample rate"),
            AudioError::UnknownDuration => String::from_str("Could not determine audio file duration"),
            AudioError::UnsupportedChannelConfiguration => String::from_str(
                "Audio file has unsupported channel configuration",
            ),
            AudioError::DecoderError(msg) => String::from_str("Audio decoder error: ").concat(msg.as_str()),
            AudioError::PlaybackError(msg) => String::from_str("Playback error: ").concat(msg.as_str()),
        }
    }
}

impl ConfigError {
    /// The description of the error.
    pub fn to_string(&self) -> (text: String)
        ensures
            text@ == config_message(*self),
    {
        match self {
            ConfigError::SaveFailed => String::from_str("Failed to save configuration"),
        }
    }
}

impl AppError {
    /// The description of the error: its kind, then its cause.
    pub fn to_string(&self) -> (text: String)
        ensures
            text@ == app_message(*self),
    {
        match self {
            AppError::FileSystem(e) => String::from_str("File system error: ").concat(e.to_string().as_str()),
            AppError::Audio(e) => String::from_str("Audio error: ").concat(e.to_string().as_str()),
            AppError::Config(e) => String::from_str("Configuration error: ").concat(e.to_string().as_str()),
        }
    }
}

impl From<FileSystemError> for AppError {
    fn from(error: FileSystemError) -> (e: AppError) {
        AppError::FileSystem(error)
    }
}

impl vstd::std_specs::convert::FromSpecImpl<FileSystemError> for AppError {
    open spec fn obeys_from_spec() -> bool {
        true
    }

    open spec fn from_spec(error: FileSystemError) -> AppError {
        AppError::FileSystem(error)
    }
}

impl From<AudioError> for AppError {
    fn from(error: AudioError) -> (e: AppError) {
        AppError::Audio(error)
    }
}

impl vstd::std_specs::convert::FromSpecImpl<AudioError> for AppError {
    open spec fn obeys_from_spec() -> bool {
        true
    }

    open spec fn from_spec(error: AudioError) -> AppError {
        AppError::Audio(error)
    }
}

impl From<ConfigError> for AppError {
    fn from(error: ConfigError) -> (e: AppError) {
        AppError::Config(error)
    }
}

impl vstd::std_specs::convert::FromSpecImpl<ConfigError> for AppError {
    open spec fn obeys_from_spec() -> bool {
        true
    }

    open spec fn from_spec(error: ConfigError) -> AppError {
        AppError::Config(error)
    }
}

/// The kinds of failure of reading an audio file, with the description of
/// the underlying input/output or decoding error.
#[derive(Debug, Clone, PartialEq)]
pub enum FileErrorCause {
    NoDefaultTrack,
    UnknownSampleRate,
    UnknownDuration,
    UnsupportedChannelConfiguration,
    /// Reading the file failed.
    Io(String),
    /// Decoding the file failed.
    Decoding(String),
}

/// The audio error that a failure of reading an audio file gives.
pub open spec fn spec_audio_error_of(cause: FileErrorCause) -> AudioError {
    match cause {
        FileErrorCause::NoDefaultTrack => AudioError::NoDefaultTrack,
        FileErrorCause::UnknownSampleRate => AudioError::UnknownSampleRate,
        FileErrorCause::UnknownDuration => AudioError::UnknownDuration,
        FileErrorCause::UnsupportedChannelConfiguration => AudioError::UnsupportedChannelConfiguration,
        FileErrorCause::Io(msg) => AudioError::PlaybackError(msg),
        FileErrorCause::Decoding(msg) => AudioError::DecoderError(msg),
    }
}

/// The variant of kira's `FromFileError`, numbered in the order kira
/// declares them: 0 `NoDefaultTrack`, 1 `UnknownSampleRate`,
/// 2 `UnknownDuration`, 3 `UnsupportedChannelConfiguration`, 4 `IoError`,
/// 5 `SymphoniaError`.
pub uninterp spec fn kira_file_error_variant(error: FromFileError) -> u8;

/// Names the variant of kira's `FromFileError` by the library's own enum,
/// turning the wrapped `std::io::Error` or symphonia error into its
/// description (`to_string`). Claimed: the cause is the one for the error's
/// variant. The description is not claimed: it is the wrapped error's
/// `Display` text, which may depend on the system's locale.
#[verifier::external_body]
fn file_error_cause(error: FromFileError) -> (cause: FileErrorCause)
    ensures
        (kira_file_error_variant(error) == 0) == (cause == FileErrorCause::NoDefaultTrack),
        (kira_file_error_variant(error) == 1) == (cause == FileErrorCause::UnknownSampleRate),
        (kira_file_error_variant(error) == 2) == (cause == FileErrorCause::UnknownDuration),
        (kira_file_error_variant(error) == 3) == (cause == FileErrorCause::UnsupportedChannelConfiguration),
        (kira_file_error_variant(error) == 4) == (cause is Io),
        (kira_file_error_variant(error) == 5) == (cause is Decoding),
{
    match error {
        FromFileError::NoDefaultTrack => FileErrorCause::NoDefaultTrack,
        FromFileError::UnknownSampleRate => FileErrorCause::UnknownSampleRate,
        FromFileError::UnknownDuration => FileErrorCause::UnknownDuration,
        FromFileError::UnsupportedChannelConfiguration => FileErrorCause::UnsupportedChannelConfiguration,
        FromFileError::IoError(e) => FileErrorCause::Io(e.to_string()),
        FromFileError::SymphoniaError(e) => FileErrorCause::Decoding(e.to_string()),
    }
}

impl AudioError {
    /// The audio error for a failure of reading an audio file.
    pub fn from_cause(cause: FileErrorCause) -> (e: AudioError)
        ensures
            e == spec_audio_error_of(cause),
    {
        match cause {
            FileErrorCause::NoDefaultTrack => AudioError::NoDefaultTrack,
            FileErrorCause::UnknownSampleRate => AudioError::UnknownSampleRate,
            FileErrorCause::UnknownDuration => AudioError::UnknownDuration,
            FileErrorCause::UnsupportedChannelConfiguration => AudioError::UnsupportedChannelConfiguration,
            FileErrorCause::Io(msg) => AudioError::PlaybackError(msg),
            FileErrorCause::Decoding(msg) => AudioError::DecoderError(msg),
        }
    }

    /// The audio error for kira's failure of reading an audio file: a read
    /// failure becomes a playback error, a decoding failure a decoder error,
    /// and each other kind its own variant.
    pub fn from_file_error(error: FromFileError) -> (e: AudioError)
        ensures
            kira_file_error_variant(error) == 0 ==> e == AudioError::NoDefaultTrack,
            kira_file_error_variant(error) == 1 ==> e == AudioError::UnknownSampleRate,
            kira_file_error_variant(error) == 2 ==> e == AudioError::UnknownDuration,
            kira_file_error_variant(error) == 3 ==> e == AudioError::UnsupportedChannelConfiguration,
            kira_file_error_variant(error) == 4 ==> e is PlaybackError,
            kira_file_error_variant(error) == 5 ==> e is DecoderError,
            exists|cause: FileErrorCause| e == spec_audio_error_of(cause),
    {
        let cause = file_error_cause(error);
        AudioError::from_cause(cause)
    }
}

/// The kinds of input/output failure that the library tells apart.
#[derive(Debug, Clone, PartialEq)]
pub enum IoFailure {
    NotFound,
    PermissionDenied,
    /// Any other kind, with the error's description.
    Other(String),
}

/// The file system error that an input/output failure gives.
pub open spec fn spec_file_system_error_of(failure: IoFailure) -> FileSystemError {
    match failure {
        IoFailure::NotFound => FileSystemError::DirectoryNotFound,
        IoFailure::PermissionDenied => FileSystemError::PermissionDenied,
        IoFailure::Other(msg) => FileSystemError::IOError(msg),
    }
}

#[verifier::external_type_specification]
#[verifier::external_body]
pub struct ExIoError(std::io::Error);

/// The class of an input/output error's kind (`std::io::Error::kind`):
/// 0 `NotFound`, 1 `PermissionDenied`, 2 any other kind.
pub uninterp spec fn io_error_kind_class(error: std::io::Error) -> u8;

/// Names the kind (`std::io::Error::kind`) of an input/output error by the
/// library's own enum: not found, permission denied, or any other kind with
/// the error's description (`to_string`). Claimed: the failure is the one
/// for the class of the error's kind. The description is not claimed: it
/// is the error's `Display` text, which may depend on the system's locale.
#[verifier::external_body]
fn io_failure_of(error: &std::io::Error) -> (failure: IoFailure)
    ensures
        (io_error_kind_class(*error) == 0) == (failure == IoFailure::NotFound),
        (io_error_kind_class(*error) == 1) == (failure == IoFailure::PermissionDenied),
        (io_error_kind_class(*error) == 2) == (failure is Other),
{
    match error.kind() {
        std::io::ErrorKind::NotFound => IoFailure::NotFound,
        std::io::ErrorKind::PermissionDenied => IoFailure::PermissionDenied,
        _ => IoFailure::Other(error.to_string()),
    }
}

impl FileSystemError {
    /// The file system error for an input/output error: a missing file or
    /// directory, a denied permission, or any other failure with its
    /// description.
    pub fn from_io_error(error: &std::io::Error) -> (e: FileSystemError)
        ensures
            io_error_kind_class(*error) == 0 ==> e == FileSystemError::DirectoryNotFound,
            io_error_kind_class(*error) == 1 ==> e == FileSystemError::PermissionDenied,
            io_error_kind_class(*error) == 2 ==> e is IOError,
            exists|failure: IoFailure| e == spec_file_system_error_of(failure),
    {
        FileSystemError::from_io_failure(io_failure_of(error))
    }

    /// The file system error for an input/output failure.
    pub fn from_io_failure(failure: IoFailure) -> (e: FileSystemError)
        ensures
            e == spec_file_system_error_of(failure),
    {
        match failure {
            IoFailure::NotFound => FileSystemError::DirectoryNotFound,
            IoFailure::PermissionDenied => FileSystemError::PermissionDenied,
            IoFailure::Other(msg) => FileSystemError::IOError(msg),
        }
    }
}

} // verus!
