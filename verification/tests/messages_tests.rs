use cosmic_noise::audio::AudioCommand;
use cosmic_noise::errors::{AppError, FileSystemError};
use cosmic_noise::messages::{
    AppMessage, AudioMessage, LegacyDragMessage, LegacyMessage, Message, ResizeDirection,
    TrackMessage, WindowMessage,
};
use cosmic_noise::AppTheme;

#[test]
fn test_message_conversions() {
    let audio_msg = AudioMessage::<f32>::StopAll;
    let main_msg: Message<f32> = audio_msg.into();

    match main_msg {
        Message::Audio(AudioMessage::StopAll) => (),
        _ => panic!("Conversion failed"),
    }
}

#[test]
fn test_window_message_conversion() {
    let window_msg = WindowMessage::Maximize;
    let main_msg: Message<f32> = window_msg.into();

    match main_msg {
        Message::Window(WindowMessage::Maximize) => (),
        _ => panic!("Conversion failed"),
    }
}

#[test]
fn test_legacy_conversion() {
    let legacy = LegacyMessage::<f32>::DragWin(LegacyDragMessage::StopAll);
    let main_msg: Message<f32> = legacy.into();

    match main_msg {
        Message::Audio(AudioMessage::StopAll) => (),
        _ => panic!("Legacy conversion failed"),
    }
}

#[test]
fn legacy_window_frame_messages_map_to_window_messages() {
    let m: Message<f32> = LegacyMessage::DragWin(LegacyDragMessage::SouthWest).into();
    assert!(matches!(m, Message::Window(WindowMessage::Resize(ResizeDirection::SouthWest))));
    let m: Message<f32> = LegacyMessage::DragWin(LegacyDragMessage::Drag).into();
    assert!(matches!(m, Message::Window(WindowMessage::Drag)));
}

#[test]
fn legacy_volume_change_keeps_track_and_volume() {
    let m: Message<f32> = LegacyMessage::DragWin(LegacyDragMessage::VolumeChanged((-12.0, 3))).into();
    match m {
        Message::Audio(AudioMessage::VolumeChanged { track_id, volume }) => {
            assert_eq!(track_id, 3);
            assert_eq!(volume, -12.0);
        }
        _ => panic!("volume change lost"),
    }
}

#[test]
fn legacy_navigation_maps_to_app_messages() {
    let m: Message<f32> = LegacyMessage::DragWin(LegacyDragMessage::Settings).into();
    assert!(matches!(m, Message::App(AppMessage::SwitchToSettings)));
    let m: Message<f32> =
        LegacyMessage::DragWin(LegacyDragMessage::ThemeChanged(AppTheme::Moonfly)).into();
    assert!(matches!(m, Message::App(AppMessage::ThemeChanged)));
    let m: Message<f32> = LegacyMessage::DragWin(LegacyDragMessage::Play(2)).into();
    assert!(matches!(m, Message::Audio(AudioMessage::PlayPause(2))));
}

#[test]
fn legacy_loaded_result_is_kept() {
    let err = AppError::FileSystem(FileSystemError::DirectoryNotFound);
    let m: Message<f32> = LegacyMessage::Loaded(Err(err.clone())).into();
    match m {
        Message::Tracks(TrackMessage::Loaded(Err(e))) => assert_eq!(e, err),
        _ => panic!("loaded result lost"),
    }
}

#[test]
fn commands_wrap_into_audio_messages() {
    let m: Message<f32> = AudioCommand::Play(4).into();
    assert!(matches!(m, Message::Audio(AudioMessage::Command(AudioCommand::Play(4)))));
    let a: AudioMessage<f32> = AudioCommand::StopAll.into();
    assert!(matches!(a, AudioMessage::Command(AudioCommand::StopAll)));
    let t: Message<f32> = TrackMessage::Reload.into();
    assert!(matches!(t, Message::Tracks(TrackMessage::Reload)));
    let x: Message<f32> = AppMessage::Exit.into();
    assert!(matches!(x, Message::App(AppMessage::Exit)));
}
