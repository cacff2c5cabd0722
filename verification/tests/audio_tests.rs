use std::cell::RefCell;
use std::io::Cursor;
use std::time::Duration;

use cosmic_noise::audio::engine::SoundHandle;
use cosmic_noise::audio::{has_finished, play_step, tally, toggle_applies, AudioCommand, AudioEvent, AudioSystem, PlayStep};
use cosmic_noise::{AppError, AudioError, NoiseTrack, PlaybackState};
use kira::sound::streaming::StreamingSoundData;
use kira::{AudioManager, AudioManagerSettings, Decibels, DefaultBackend};

/// A short mono 16-bit WAV file of silence.
fn wav_bytes() -> Vec<u8> {
    let samples: u32 = 800;
    let data_len = samples * 2;
    let mut b = Vec::new();
    b.extend_from_slice(b"RIFF");
    b.extend_from_slice(&(36 + data_len).to_le_bytes());
    b.extend_from_slice(b"WAVE");
    b.extend_from_slice(b"fmt ");
    b.extend_from_slice(&16u32.to_le_bytes());
    b.extend_from_slice(&1u16.to_le_bytes());
    b.extend_from_slice(&1u16.to_le_bytes());
    b.extend_from_slice(&8000u32.to_le_bytes());
    b.extend_from_slice(&16000u32.to_le_bytes());
    b.extend_from_slice(&2u16.to_le_bytes());
    b.extend_from_slice(&16u16.to_le_bytes());
    b.extend_from_slice(b"data");
    b.extend_from_slice(&data_len.to_le_bytes());
    b.extend(std::iter::repeat(0u8).take(data_len as usize));
    b
}

struct Engine {
    manager: RefCell<AudioManager<DefaultBackend>>,
}

impl Engine {
    fn new() -> Self {
        Engine {
            manager: RefCell::new(AudioManager::<DefaultBackend>::new(AudioManagerSettings::default()).unwrap()),
        }
    }

    fn start(&self, path: String) -> Result<SoundHandle, AppError> {
        if path.ends_with("missing.wav") {
            return Err(AppError::Audio(AudioError::PlaybackError("no such file".to_string())));
        }
        let data = StreamingSoundData::from_cursor(Cursor::new(wav_bytes()))
            .map_err(|e| AppError::Audio(AudioError::from_file_error(e)))?;
        self.manager
            .borrow_mut()
            .play(data)
            .map_err(|_| AppError::Audio(AudioError::HandleCreationFailed))
    }
}

fn mix(track: f32, master: f32) -> Decibels {
    Decibels((track + master).clamp(-60.0, 0.0))
}

fn tracks() -> Vec<NoiseTrack<f32>> {
    vec![
        NoiseTrack::new("rain".to_string(), "/s/rain.wav".to_string(), -30.0),
        NoiseTrack::new("wind".to_string(), "/s/wind.wav".to_string(), -20.0),
        NoiseTrack::new("gone".to_string(), "/s/missing.wav".to_string(), -10.0),
    ]
}

fn new_system() -> AudioSystem<f32> {
    AudioSystem::new(-30.0, Duration::from_secs(1))
}

#[test]
fn test_audio_stats() {
    let mut audio_system = new_system();
    let stats = audio_system.get_stats(false);
    assert_eq!(stats.total_tracks, 0);
    assert_eq!(stats.playing_tracks, 0);
    assert_eq!(stats.paused_tracks, 0);
    assert_eq!(stats.global_state, PlaybackState::Stopped);
}

#[test]
fn test_audio_system_creation() {
    let mut audio_system = new_system();
    assert_eq!(audio_system.global_state(), PlaybackState::Stopped);
    assert_eq!(audio_system.active_tracks_count(), 0);
    assert_eq!(audio_system.master_volume(), -30.0);
}

#[test]
fn playing_a_missing_track_is_out_of_bounds() {
    let engine = Engine::new();
    let start = |p: String, _v: f32, _m: f32| engine.start(p);
    let mut sys = new_system();
    let mut list = tracks();
    let res = sys.process_command(AudioCommand::Play(7), &mut list, &start, &mix);
    assert_eq!(
        res.unwrap_err(),
        AppError::Audio(AudioError::PlaybackError("Track index out of bounds".to_string()))
    );
    assert_eq!(sys.active_tracks_count(), 0);
}

#[test]
fn play_starts_then_pauses() {
    let engine = Engine::new();
    let start = |p: String, _v: f32, _m: f32| engine.start(p);
    let mut sys = new_system();
    let mut list = tracks();

    let events = sys.process_command(AudioCommand::Play(0), &mut list, &start, &mix).unwrap();
    assert!(matches!(events.as_slice(), [AudioEvent::TrackStarted(0)]));
    assert_eq!(list[0].state, PlaybackState::Playing);
    assert_eq!(sys.active_tracks_count(), 1);
    assert!(sys.is_track_playing(0));
    assert_eq!(sys.global_state(), PlaybackState::Playing);

    let events = sys.process_command(AudioCommand::Play(0), &mut list, &start, &mix).unwrap();
    assert!(matches!(events.as_slice(), [AudioEvent::TrackPaused(0)]));
    assert_eq!(list[0].state, PlaybackState::Paused);
    assert_eq!(sys.get_stats(true).total_tracks, 1);
}

#[test]
fn a_failed_start_leaves_the_track_as_it_was() {
    let engine = Engine::new();
    let start = |p: String, _v: f32, _m: f32| engine.start(p);
    let mut sys = new_system();
    let mut list = tracks();
    let res = sys.process_command(AudioCommand::Play(2), &mut list, &start, &mix);
    assert_eq!(res.unwrap_err(), AppError::Audio(AudioError::PlaybackError("no such file".to_string())));
    assert_eq!(list[2].state, PlaybackState::Stopped);
    assert_eq!(sys.active_tracks_count(), 0);
}

#[test]
fn stop_drops_the_handle() {
    let engine = Engine::new();
    let start = |p: String, _v: f32, _m: f32| engine.start(p);
    let mut sys = new_system();
    let mut list = tracks();
    sys.process_command(AudioCommand::Play(1), &mut list, &start, &mix).unwrap();
    let events = sys.process_command(AudioCommand::Stop(1), &mut list, &start, &mix).unwrap();
    assert!(matches!(events.as_slice(), [AudioEvent::TrackStopped(1)]));
    assert_eq!(list[1].state, PlaybackState::Stopped);
    assert_eq!(sys.active_tracks_count(), 0);
    assert_eq!(sys.global_state(), PlaybackState::Stopped);
    assert_eq!(sys.track_state(1), PlaybackState::Stopped);

    let events = sys.process_command(AudioCommand::Stop(1), &mut list, &start, &mix).unwrap();
    assert!(events.is_empty());
}

#[test]
fn stop_all_silences_every_track() {
    let engine = Engine::new();
    let start = |p: String, _v: f32, _m: f32| engine.start(p);
    let mut sys = new_system();
    let mut list = tracks();
    sys.process_command(AudioCommand::Play(0), &mut list, &start, &mix).unwrap();
    sys.process_command(AudioCommand::Play(1), &mut list, &start, &mix).unwrap();
    let events = sys.process_command(AudioCommand::StopAll, &mut list, &start, &mix).unwrap();
    assert_eq!(events.len(), 2);
    assert!(events.iter().all(|e| matches!(e, AudioEvent::TrackStopped(0) | AudioEvent::TrackStopped(1))));
    assert_eq!(sys.active_tracks_count(), 0);
    assert_eq!(sys.global_state(), PlaybackState::Stopped);
    assert!(list.iter().all(|t| t.state == PlaybackState::Stopped));
}

#[test]
fn pause_all_pauses_playing_tracks() {
    let engine = Engine::new();
    let start = |p: String, _v: f32, _m: f32| engine.start(p);
    let mut sys = new_system();
    let mut list = tracks();
    sys.process_command(AudioCommand::Play(0), &mut list, &start, &mix).unwrap();
    sys.process_command(AudioCommand::Play(1), &mut list, &start, &mix).unwrap();
    let events = sys.process_command(AudioCommand::PauseAll, &mut list, &start, &mix).unwrap();
    assert_eq!(events.len(), 2);
    assert_eq!(list[0].state, PlaybackState::Paused);
    assert_eq!(list[1].state, PlaybackState::Paused);
    assert_eq!(list[2].state, PlaybackState::Stopped);
    assert_eq!(sys.get_stats(true).total_tracks, 2);
}

#[test]
fn resume_all_with_nothing_paused_changes_nothing() {
    let engine = Engine::new();
    let start = |p: String, _v: f32, _m: f32| engine.start(p);
    let mut sys = new_system();
    let mut list = tracks();
    sys.process_command(AudioCommand::Play(0), &mut list, &start, &mix).unwrap();
    let events = sys.process_command(AudioCommand::ResumeAll, &mut list, &start, &mix).unwrap();
    assert!(events.is_empty());
    assert_eq!(list[0].state, PlaybackState::Playing);
}

#[test]
fn set_volume_stores_the_volume() {
    let engine = Engine::new();
    let start = |p: String, _v: f32, _m: f32| engine.start(p);
    let mut sys = new_system();
    let mut list = tracks();
    let events = sys
        .process_command(AudioCommand::SetVolume { track_id: 1, volume: -6.0 }, &mut list, &start, &mix)
        .unwrap();
    assert!(matches!(events.as_slice(), [AudioEvent::VolumeChanged { track_id: 1, volume }] if *volume == -6.0));
    assert_eq!(list[1].volume_level, -6.0);
    assert_eq!(list[0].volume_level, -30.0);

    sys.process_command(AudioCommand::Play(1), &mut list, &start, &mix).unwrap();
    sys.process_command(AudioCommand::SetVolume { track_id: 1, volume: -3.0 }, &mut list, &start, &mix)
        .unwrap();
    assert_eq!(list[1].volume_level, -3.0);
    assert_eq!(list[1].state, PlaybackState::Playing);
}

#[test]
fn master_volume_is_stored() {
    let engine = Engine::new();
    let start = |p: String, _v: f32, _m: f32| engine.start(p);
    let mut sys = new_system();
    let mut list = tracks();
    sys.process_command(AudioCommand::Play(0), &mut list, &start, &mix).unwrap();
    let events = sys.process_command(AudioCommand::SetMasterVolume(-12.0), &mut list, &start, &mix).unwrap();
    assert!(matches!(events.as_slice(), [AudioEvent::MasterVolumeChanged(v)] if *v == -12.0));
    assert_eq!(sys.master_volume(), -12.0);
    sys.set_master_volume(-1.0);
    assert_eq!(sys.master_volume(), -1.0);
}

#[test]
fn stats_count_the_handles() {
    let engine = Engine::new();
    let start = |p: String, _v: f32, _m: f32| engine.start(p);
    let mut sys = new_system();
    let mut list = tracks();
    sys.process_command(AudioCommand::Play(0), &mut list, &start, &mix).unwrap();
    sys.process_command(AudioCommand::Play(1), &mut list, &start, &mix).unwrap();
    let stats = sys.get_stats(true);
    assert_eq!(stats.total_tracks, 2);
    assert!(stats.playing_tracks + stats.paused_tracks <= 2);
    assert!(stats.is_initialized);
}

#[test]
fn cleanup_keeps_sounds_that_have_not_stopped() {
    let engine = Engine::new();
    let start = |p: String, _v: f32, _m: f32| engine.start(p);
    let mut sys = new_system();
    let mut list = tracks();
    sys.process_command(AudioCommand::Play(0), &mut list, &start, &mix).unwrap();
    let events = sys.cleanup_finished_tracks(&mut list);
    assert!(events.is_empty());
    assert_eq!(sys.get_stats(true).total_tracks, 1);
}

#[test]
fn commands_are_checked_against_the_track_list() {
    let engine = Engine::new();
    let start = |p: String, _v: f32, _m: f32| engine.start(p);
    let mut sys = new_system();
    let mut list = tracks();
    sys.process_command(AudioCommand::Play(2 - 1), &mut list, &start, &mix).unwrap();
    assert!(sys.command_fits(&AudioCommand::StopAll, 3));
    assert!(!sys.command_fits(&AudioCommand::StopAll, 1));
    assert!(sys.command_fits(&AudioCommand::Play(9), 1));
    assert!(!sys.command_fits(&AudioCommand::SetVolume { track_id: 3, volume: 0.0 }, 3));
}

#[test]
fn a_stopped_track_plays_from_the_beginning() {
    let engine = Engine::new();
    let start = |p: String, _v: f32, _m: f32| engine.start(p);
    let mut sys = new_system();
    let mut list = tracks();
    sys.process_command(AudioCommand::Play(0), &mut list, &start, &mix).unwrap();
    sys.process_command(AudioCommand::Stop(0), &mut list, &start, &mix).unwrap();
    let events = sys.process_command(AudioCommand::Play(0), &mut list, &start, &mix).unwrap();
    assert!(matches!(events.as_slice(), [AudioEvent::TrackStarted(0)]));
    assert_eq!(list[0].state, PlaybackState::Playing);
    assert_eq!(sys.active_tracks_count(), 1);
}

#[test]
fn pausing_or_resuming_all_without_sounds_changes_nothing() {
    let engine = Engine::new();
    let start = |p: String, _v: f32, _m: f32| engine.start(p);
    let mut sys = new_system();
    let mut list = tracks();
    let events = sys.process_command(AudioCommand::PauseAll, &mut list, &start, &mix).unwrap();
    assert!(events.is_empty());
    let events = sys.process_command(AudioCommand::ResumeAll, &mut list, &start, &mix).unwrap();
    assert!(events.is_empty());
    assert!(list.iter().all(|t| t.state == PlaybackState::Stopped));
    assert_eq!(sys.global_state(), PlaybackState::Stopped);
}

#[test]
fn the_play_step_follows_the_reported_state() {
    assert_eq!(play_step(Some(PlaybackState::Playing)), PlayStep::Pause);
    assert_eq!(play_step(Some(PlaybackState::Paused)), PlayStep::Resume);
    assert_eq!(play_step(Some(PlaybackState::Stopped)), PlayStep::Restart);
    assert_eq!(play_step(Some(PlaybackState::Pausing)), PlayStep::Restart);
    assert_eq!(play_step(None), PlayStep::Restart);
}

#[test]
fn pause_and_resume_act_only_on_the_wanted_state() {
    assert!(toggle_applies(PlaybackState::Playing, true));
    assert!(!toggle_applies(PlaybackState::Paused, true));
    assert!(toggle_applies(PlaybackState::Paused, false));
    assert!(!toggle_applies(PlaybackState::Playing, false));
    assert!(has_finished(PlaybackState::Stopped));
    assert!(!has_finished(PlaybackState::Stopping));
}

#[test]
fn active_tracks_are_the_playing_sounds() {
    let engine = Engine::new();
    let start = |p: String, _v: f32, _m: f32| engine.start(p);
    let mut sys = new_system();
    let mut list = tracks();
    sys.process_command(AudioCommand::Play(0), &mut list, &start, &mix).unwrap();
    sys.process_command(AudioCommand::Play(1), &mut list, &start, &mix).unwrap();
    assert_eq!(sys.active_tracks_count(), 2);
    sys.process_command(AudioCommand::Stop(0), &mut list, &start, &mix).unwrap();
    assert_eq!(sys.active_tracks_count(), 1);
}

#[test]
fn the_tally_counts_playing_and_paused_reports() {
    let reports = vec![
        PlaybackState::Playing,
        PlaybackState::Paused,
        PlaybackState::Playing,
        PlaybackState::Stopped,
        PlaybackState::Pausing,
    ];
    assert_eq!(tally(&reports), (2, 1));
    assert_eq!(tally(&Vec::new()), (0, 0));
}

#[test]
fn a_track_without_a_sound_is_not_playing() {
    let mut sys = new_system();
    assert!(!sys.is_track_playing(3));
    let stats = sys.get_stats(false);
    assert_eq!((stats.total_tracks, stats.playing_tracks, stats.paused_tracks), (0, 0, 0));
}
