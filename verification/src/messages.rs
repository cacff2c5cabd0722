//! The messages that flow through the application, grouped by concern, and
//! their conversions. `V` is the caller's volume type.

use vstd::prelude::*;

use crate::audio::AudioCommand;
use crate::errors::AppError;
use crate::models::{AppTheme, NoiseTrack};

verus! {

/// Main application message, encompassing every event.
#[derive(Debug)]
pub enum Message<V> {
    /// Window and UI management messages.
    Window(WindowMessage),
    /// Audio messages.
    Audio(AudioMessage<V>),
    /// File and track management messages.
    Tracks(TrackMessage<V>),
    /// Application lifecycle messages.
    App(AppMessage),
}

/// Window and UI management messages.
#[derive(Debug, Clone, PartialEq, Eq, Structural)]
pub enum WindowMessage {
    /// Drag the window.
    Drag,
    /// Maximize or restore the window.
    Maximize,
    /// Close the window.
    Close,
    /// Resize the window at a border.
    Resize(ResizeDirection),
}

/// Window resize directions.
#[derive(Debug, Clone, Copy, PartialEq, Eq, Structural)]
pub enum ResizeDirection {
    North,
    NorthEast,
    East,
    SouthEast,
    South,
    SouthWest,
    West,
    NorthWest,
}

/// Audio messages.
#[derive(Debug, Clone)]
pub enum AudioMessage<V> {
    /// Carry out an audio command.
    Command(AudioCommand<V>),
    /// Play or pause a track.
    PlayPause(usize),
    /// A track's volume changed.
    VolumeChanged { track_id: usize, volume: V },
    /// Stop all tracks.
    StopAll,
    /// Pause all tracks.
    PauseAll,
    /// Resume all paused tracks.
    ResumeAll,
    /// Set the master volume.
    SetMasterVolume(V),
}

/// Track and file management messages.
#[derive(Debug)]
pub enum TrackMessage<V> {
    /// Tracks were loaded from the file system.
    Loaded(Result<Vec<NoiseTrack<V>>, AppError>),
    /// Reload the tracks.
    Reload,
    /// The selected track changed.
    SelectTrack(usize),
    /// A track's metadata was updated.
    MetadataUpdated { track_id: usize },
}

/// Application lifecycle and state messages.
#[derive(Debug, Clone)]
pub enum AppMessage {
    Started,
    SettingsChanged,
    /// An error occurred.
    Error(AppError),
    ClearError,
    UpdateStats,
    ThemeChanged,
    SwitchToSettings,
    SwitchToPlayer,
    Exit,
}

impl<V> From<WindowMessage> for Message<V> {
    fn from(msg: WindowMessage) -> (m: Message<V>) {
        Message::Window(msg)
    }
}

impl<V> vstd::std_specs::convert::FromSpecImpl<WindowMessage> for Message<V> {
    open spec fn obeys_from_spec() -> bool {
        true
    }

    open spec fn from_spec(msg: WindowMessage) -> Message<V> {
        Message::Window(msg)
    }
}

impl<V> From<AudioMessage<V>> for Message<V> {
    fn from(msg: AudioMessage<V>) -> (m: Message<V>) {
        Message::Audio(msg)
    }
}

impl<V> vstd::std_specs::convert::FromSpecImpl<AudioMessage<V>> for Message<V> {
    open spec fn obeys_from_spec() -> bool {
        true
    }

    open spec fn from_spec(msg: AudioMessage<V>) -> Message<V> {
        Message::Audio(msg)
    }
}

impl<V> From<TrackMessage<V>> for Message<V> {
    fn from(msg: TrackMessage<V>) -> (m: Message<V>) {
        Message::Tracks(msg)
    }
}

impl<V> vstd::std_specs::convert::FromSpecImpl<TrackMessage<V>> for Message<V> {
    open spec fn obeys_from_spec() -> bool {
        true
    }

    open spec fn from_spec(msg: TrackMessage<V>) -> Message<V> {
        Message::Tracks(msg)
    }
}

impl<V> From<AppMessage> for Message<V> {
    fn from(msg: AppMessage) -> (m: Message<V>) {
        Message::App(msg)
    }
}

impl<V> vstd::std_specs::convert::FromSpecImpl<AppMessage> for Message<V> {
    open spec fn obeys_from_spec() -> bool {
        true
    }

    open spec fn from_spec(msg: AppMessage) -> Message<V> {
        Message::App(msg)
    }
}

impl<V> From<AudioCommand<V>> for AudioMessage<V> {
    fn from(cmd: AudioCommand<V>) -> (m: AudioMessage<V>) {
        AudioMessage::Command(cmd)
    }
}

impl<V> vstd::std_specs::convert::FromSpecImpl<AudioCommand<V>> for AudioMessage<V> {
    open spec fn obeys_from_spec() -> bool {
        true
    }

    open spec fn from_spec(cmd: AudioCommand<V>) -> AudioMessage<V> {
        AudioMessage::Command(cmd)
    }
}

impl<V> From<AudioCommand<V>> for Message<V> {
    fn from(cmd: AudioCommand<V>) -> (m: Message<V>) {
        Message::Audio(AudioMessage::Command(cmd))
    }
}

impl<V> vstd::std_specs::convert::FromSpecImpl<AudioCommand<V>> for Message<V> {
    open spec fn obeys_from_spec() -> bool {
        true
    }

    open spec fn from_spec(cmd: AudioCommand<V>) -> Message<V> {
        Message::Audio(AudioMessage::Command(cmd))
    }
}

/// The flat window-frame message of the earlier design, which the legacy
/// message carries.
#[derive(Debug)]
pub enum LegacyDragMessage<V> {
    Drag,
    Maximize,
    Close,
    North,
    NorthEast,
    East,
    SouthEast,
    South,
    SouthWest,
    West,
    NorthWest,
    /// Play or pause a track.
    Play(usize),
    /// A track's volume changed: the volume, then the track.
    VolumeChanged((V, usize)),
    StopAll,
    PauseAll,
    ResumeAll,
    Settings,
    BackToPlayer,
    ThemeChanged(AppTheme),
}

/// The message type of the earlier design.
#[derive(Debug)]
pub enum LegacyMessage<V> {
    DragWin(LegacyDragMessage<V>),
    Loaded(Result<Vec<NoiseTrack<V>>, AppError>),
}

/// The message of the current design that a window-frame message of the
/// earlier design stands for.
pub open spec fn spec_from_legacy_drag<V>(msg: LegacyDragMessage<V>) -> Message<V> {
    match msg {
        LegacyDragMessage::Drag => Message::Window(WindowMessage::Drag),
        LegacyDragMessage::Maximize => Message::Window(WindowMessage::Maximize),
        LegacyDragMessage::Close => Message::Window(WindowMessage::Close),
        LegacyDragMessage::North => Message::Window(WindowMessage::Resize(ResizeDirection::North)),
        LegacyDragMessage::NorthEast => Message::Window(WindowMessage::Resize(ResizeDirection::NorthEast)),
        LegacyDragMessage::East => Message::Window(WindowMessage::Resize(ResizeDirection::East)),
        LegacyDragMessage::SouthEast => Message::Window(WindowMessage::Resize(ResizeDirection::SouthEast)),
        LegacyDragMessage::South => Message::Window(WindowMessage::Resize(ResizeDirection::South)),
        LegacyDragMessage::SouthWest => Message::Window(WindowMessage::Resize(ResizeDirection::SouthWest)),
        LegacyDragMessage::West => Message::Window(WindowMessage::Resize(ResizeDirection::West)),
        LegacyDragMessage::NorthWest => Message::Window(WindowMessage::Resize(ResizeDirection::NorthWest)),
        LegacyDragMessage::Play(i) => Message::Audio(AudioMessage::PlayPause(i)),
        LegacyDragMessage::VolumeChanged((volume, track_id)) => Message::Audio(
            AudioMessage::VolumeChanged { track_id, volume },
        ),
        LegacyDragMessage::StopAll => Message::Audio(AudioMessage::StopAll),
        LegacyDragMessage::PauseAll => Message::Audio(AudioMessage::PauseAll),
        LegacyDragMessage::ResumeAll => Message::Audio(AudioMessage::ResumeAll),
        LegacyDragMessage::Settings => Message::App(AppMessage::SwitchToSettings),
        LegacyDragMessage::BackToPlayer => Message::App(AppMessage::SwitchToPlayer),
        LegacyDragMessage::ThemeChanged(_) => Message::App(AppMessage::ThemeChanged),
    }
}

/// The message of the current design that a legacy message stands for.
pub open spec fn spec_from_legacy<V>(legacy: LegacyMessage<V>) -> Message<V> {
    match legacy {
        LegacyMessage::DragWin(msg) => spec_from_legacy_drag(msg),
        LegacyMessage::Loaded(result) => Message::Tracks(TrackMessage::Loaded(result)),
    }
}

impl<V> From<LegacyMessage<V>> for Message<V> {
    fn from(legacy: LegacyMessage<V>) -> (m: Message<V>) {
        match legacy {
            LegacyMessage::DragWin(drag_msg) => match drag_msg {
                LegacyDragMessage::Drag => Message::Window(WindowMessage::Drag),
                LegacyDragMessage::Maximize => Message::Window(WindowMessage::Maximize),
                LegacyDragMessage::Close => Message::Window(WindowMessage::Close),
                LegacyDragMessage::North => Message::Window(WindowMessage::Resize(ResizeDirection::North)),
                LegacyDragMessage::NorthEast => Message::Window(
                    WindowMessage::Resize(ResizeDirection::NorthEast),
                ),
                LegacyDragMessage::East => Message::Window(WindowMessage::Resize(ResizeDirection::East)),
                LegacyDragMessage::SouthEast => Message::Window(
                    WindowMessage::Resize(ResizeDirection::SouthEast),
                ),
                LegacyDragMessage::South => Message::Window(WindowMessage::Resize(ResizeDirection::South)),
                LegacyDragMessage::SouthWest => Message::Window(
                    WindowMessage::Resize(ResizeDirection::SouthWest),
                ),
                LegacyDragMessage::West => Message::Window(WindowMessage::Resize(ResizeDirection::West)),
                LegacyDragMessage::NorthWest => Message::Window(
                    WindowMessage::Resize(ResizeDirection::NorthWest),
                ),
                LegacyDragMessage::Play(i) => Message::Audio(AudioMessage::PlayPause(i)),
                LegacyDragMessage::VolumeChanged((volume, track_id)) => Message::Audio(
                    AudioMessage::VolumeChanged { track_id, volume },
                ),
                LegacyDragMessage::StopAll => Message::Audio(AudioMessage::StopAll),
                LegacyDragMessage::PauseAll => Message::Audio(AudioMessage::PauseAll),
                LegacyDragMessage::ResumeAll => Message::Audio(AudioMessage::ResumeAll),
                LegacyDragMessage::Settings => Message::App(AppMessage::SwitchToSettings),
                LegacyDragMessage::BackToPlayer => Message::App(AppMessage::SwitchToPlayer),
                LegacyDragMessage::ThemeChanged(_theme) => Message::App(AppMessage::ThemeChanged),
            },
            LegacyMessage::Loaded(result) => Message::Tracks(TrackMessage::Loaded(result)),
        }
    }
}

impl<V> vstd::std_specs::convert::FromSpecImpl<LegacyMessage<V>> for Message<V> {
    open spec fn obeys_from_spec() -> bool {
        true
    }

    open spec fn from_spec(legacy: LegacyMessage<V>) -> Message<V> {
        spec_from_legacy(legacy)
    }
}

} // verus!
