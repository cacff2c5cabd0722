//! Playback control: the audio commands, the events they produce and the
//! audio system that keeps one playback handle per sounding track.

pub mod engine;

use vstd::prelude::*;

use std::collections::HashMap;
use vstd::std_specs::iter::IteratorSpec;
use std::time::Duration;

use crate::audio::engine::{
    pause_sound, resume_sound, set_sound_volume, stop_sound, Fade, FadeEasing, Sound, SoundEvent,
    SoundHandle,
};
use crate::errors::{AppError, AudioError};
use crate::models::{NoiseTrack, PlaybackState};
use kira::Decibels;

verus! {

broadcast use vstd::std_specs::hash::group_hash_axioms;

/// A request to the audio system. `V` is the caller's volume type.
#[derive(Debug, Clone)]
pub enum AudioCommand<V> {
    /// Play the track, or pause it when it plays, or resume it when paused.
    Play(usize),
    /// Pause the track if it plays.
    Pause(usize),
    /// Resume the track if it is paused.
    Resume(usize),
    /// Stop the track.
    Stop(usize),
    /// Set the track's volume.
    SetVolume { track_id: usize, volume: V },
    /// Stop every track.
    StopAll,
    /// Pause every playing track.
    PauseAll,
    /// Resume every paused track.
    ResumeAll,
    /// Set the master volume.
    SetMasterVolume(V),
}

/// What the audio system reports back after a command.
#[derive(Debug, Clone)]
pub enum AudioEvent<V> {
    TrackStarted(usize),
    TrackPaused(usize),
    TrackResumed(usize),
    TrackStopped(usize),
    TrackFinished(usize),
    VolumeChanged { track_id: usize, volume: V },
    Error(AudioError),
    MasterVolumeChanged(V),
}

/// Counts of the playback handles of the audio system.
#[derive(Debug, Clone, Copy, PartialEq, Eq)]
pub struct AudioStats {
    /// Number of tracks that have a playback handle.
    pub total_tracks: usize,
    /// Number of those whose sound reported playing.
    pub playing_tracks: usize,
    /// Number of those whose sound reported paused.
    pub paused_tracks: usize,
    /// The global playback state.
    pub global_state: PlaybackState,
    /// Whether the audio device is open.
    pub is_initialized: bool,
}

/// A track with its playback state replaced.
pub open spec fn track_in_state<V>(t: NoiseTrack<V>, state: PlaybackState) -> NoiseTrack<V> {
    NoiseTrack { name: t.name, path: t.path, volume_level: t.volume_level, state }
}

/// The tracks with the state of track `id` replaced.
pub open spec fn with_state<V>(tracks: Seq<NoiseTrack<V>>, id: int, state: PlaybackState) -> Seq<
    NoiseTrack<V>,
> {
    tracks.update(id, track_in_state(tracks[id], state))
}

/// The tracks with the volume of track `id` replaced.
pub open spec fn with_volume<V>(tracks: Seq<NoiseTrack<V>>, id: int, volume: V) -> Seq<
    NoiseTrack<V>,
> {
    tracks.update(
        id,
        NoiseTrack {
            name: tracks[id].name,
            path: tracks[id].path,
            volume_level: volume,
            state: tracks[id].state,
        },
    )
}

/// The tracks with the state of each track in `ids` replaced.
pub open spec fn with_states<V>(tracks: Seq<NoiseTrack<V>>, ids: Set<usize>, state: PlaybackState) -> Seq<
    NoiseTrack<V>,
> {
    Seq::new(
        tracks.len(),
        |i: int|
            if ids.contains(i as usize) {
                track_in_state(tracks[i], state)
            } else {
                tracks[i]
            },
    )
}

/// The global state that the reported states of the sounds give: playing if
/// one plays, else paused if one is paused, else stopped.
pub open spec fn summarize(reports: Map<usize, PlaybackState>) -> PlaybackState {
    if state_was_playing(reports) {
        PlaybackState::Playing
    } else if state_was_paused(reports) {
        PlaybackState::Paused
    } else {
        PlaybackState::Stopped
    }
}

/// `new_sys` is `old_sys` after the sound of each track in `order` (each
/// track with a sound, once) reported the state at the same place in
/// `states`, each report recorded in its sound's history; nothing else
/// changed.
pub open spec fn recorded_reports<V>(
    old_sys: AudioSystem<V>,
    new_sys: AudioSystem<V>,
    order: Seq<usize>,
    states: Seq<PlaybackState>,
) -> bool {
    &&& order.no_duplicates()
    &&& order.to_set() == old_sys.handle_ids()
    &&& states.len() == order.len()
    &&& new_sys.sounds().dom() == old_sys.sounds().dom()
    &&& forall|k: int|
        0 <= k < order.len() ==> new_sys.sounds()[#[trigger] order[k]] == old_sys.sounds()[order[k]].push(
            SoundEvent::Reported(states[k]),
        )
    &&& new_sys.spec_retired() == old_sys.spec_retired()
    &&& new_sys.spec_global_state() == old_sys.spec_global_state()
    &&& new_sys.spec_master_volume() == old_sys.spec_master_volume()
    &&& new_sys.spec_fade_duration() == old_sys.spec_fade_duration()
}

/// `new_sys` is `old_sys` after track `id`'s sound reported `state`, the
/// report recorded in its history; nothing else changed.
pub open spec fn recorded_report<V>(old_sys: AudioSystem<V>, new_sys: AudioSystem<V>, id: usize, state: PlaybackState) -> bool {
    &&& new_sys.sounds() == old_sys.sounds().insert(id, old_sys.sounds()[id].push(SoundEvent::Reported(state)))
    &&& new_sys.spec_retired() == old_sys.spec_retired()
    &&& new_sys.spec_global_state() == old_sys.spec_global_state()
    &&& new_sys.spec_master_volume() == old_sys.spec_master_volume()
    &&& new_sys.spec_fade_duration() == old_sys.spec_fade_duration()
}

/// The numbers of playing and of paused reports among `reports`.
pub fn tally(reports: &Vec<PlaybackState>) -> (counts: (usize, usize))
    ensures
        counts.0 == count_state(reports@, PlaybackState::Playing),
        counts.1 == count_state(reports@, PlaybackState::Paused),
        counts.0 + counts.1 <= reports@.len(),
{
    let mut playing: usize = 0;
    let mut paused: usize = 0;
    let mut k: usize = 0;
    proof {
        assert(reports@.take(0).filter(says(PlaybackState::Playing)) =~= Seq::<PlaybackState>::empty());
        assert(reports@.take(0).filter(says(PlaybackState::Paused)) =~= Seq::<PlaybackState>::empty());
    }
    while k < reports.len()
        invariant
            0 <= k <= reports@.len(),
            playing == count_state(reports@.take(k as int), PlaybackState::Playing),
            paused == count_state(reports@.take(k as int), PlaybackState::Paused),
            playing + paused <= k,
        decreases reports@.len() - k,
    {
        let state = reports[k];
        proof {
            assert(reports@.take(k + 1) =~= reports@.take(k as int).push(state));
            reports@.take(k as int).lemma_filter_push(state, says(PlaybackState::Playing));
            reports@.take(k as int).lemma_filter_push(state, says(PlaybackState::Paused));
        }
        match state {
            PlaybackState::Playing => {
                playing = playing + 1;
            },
            PlaybackState::Paused => {
                paused = paused + 1;
            },
            _ => {},
        }
        k = k + 1;
    }
    assert(reports@.take(reports@.len() as int) =~= reports@);
    (playing, paused)
}

/// `new_sys` is `mid` after each of its sounds reported one state, as
/// `reports` gives them, and the global state was summed up from those
/// reports.
pub open spec fn settled_by<V>(mid: AudioSystem<V>, new_sys: AudioSystem<V>, reports: Map<usize, PlaybackState>) -> bool {
    &&& reports.dom() == mid.sounds().dom()
    &&& new_sys.sounds() == Map::new(
        |i: usize| mid.sounds().contains_key(i),
        |i: usize| mid.sounds()[i].push(SoundEvent::Reported(reports[i])),
    )
    &&& new_sys.spec_retired() == mid.spec_retired()
    &&& new_sys.spec_global_state() == summarize(reports)
}

/// `new_sys` is `mid` after the global state was set from one fresh report
/// of each sound, each report recorded in its sound's history.
pub open spec fn settles<V>(mid: AudioSystem<V>, new_sys: AudioSystem<V>) -> bool {
    exists|reports: Map<usize, PlaybackState>| #[trigger] settled_by(mid, new_sys, reports)
}

/// The events of a list of tracks, one per track, made by `event`.
pub open spec fn events_for<V>(ids: Seq<usize>, event: spec_fn(usize) -> AudioEvent<V>) -> Seq<AudioEvent<V>> {
    ids.map_values(event)
}

/// One of the reports says playing.
pub open spec fn state_was_playing(reports: Map<usize, PlaybackState>) -> bool {
    exists|id: usize| reports.contains_key(id) && reports[id] == PlaybackState::Playing
}

/// One of the reports says paused.
pub open spec fn state_was_paused(reports: Map<usize, PlaybackState>) -> bool {
    exists|id: usize| reports.contains_key(id) && reports[id] == PlaybackState::Paused
}

/// The error of a play request for a track that does not exist.
pub open spec fn is_out_of_bounds_error(e: AppError) -> bool {
    e matches AppError::Audio(AudioError::PlaybackError(m)) && m@ == "Track index out of bounds"@
}

/// What a play request does with a track, given the state its sound
/// reports (`None` where the track has no sound).
#[derive(Debug, Clone, Copy, PartialEq, Eq, Structural)]
pub enum PlayStep {
    /// The sound plays: pause it.
    Pause,
    /// The sound is paused: resume it.
    Resume,
    /// There is no sound, or it is neither playing nor paused: start the
    /// track anew.
    Restart,
}

/// The step of a play request for the reported state.
pub open spec fn spec_play_step(reported: Option<PlaybackState>) -> PlayStep {
    match reported {
        Some(PlaybackState::Playing) => PlayStep::Pause,
        Some(PlaybackState::Paused) => PlayStep::Resume,
        _ => PlayStep::Restart,
    }
}

/// The step of a play request for the reported state: pause a playing
/// sound, resume a paused one, and start the track anew otherwise.
pub fn play_step(reported: Option<PlaybackState>) -> (step: PlayStep)
    ensures
        step == spec_play_step(reported),
{
    match reported {
        Some(PlaybackState::Playing) => PlayStep::Pause,
        Some(PlaybackState::Paused) => PlayStep::Resume,
        _ => PlayStep::Restart,
    }
}

/// The state a sound must report for a pause (`pause`) or resume to act on
/// it: playing for a pause, paused for a resume.
pub open spec fn toggle_wanted(pause: bool) -> PlaybackState {
    if pause {
        PlaybackState::Playing
    } else {
        PlaybackState::Paused
    }
}

/// Whether a pause (`pause`) or resume acts on a sound that reports
/// `reported`: a pause only on a playing sound, a resume only on a paused one.
pub fn toggle_applies(reported: PlaybackState, pause: bool) -> (applies: bool)
    ensures
        applies == (reported == toggle_wanted(pause)),
{
    if pause {
        reported == PlaybackState::Playing
    } else {
        reported == PlaybackState::Paused
    }
}

/// Whether a sound that reports `reported` has finished: only a stopped one.
pub fn has_finished(reported: PlaybackState) -> (finished: bool)
    ensures
        finished == (reported == PlaybackState::Stopped),
{
    reported == PlaybackState::Stopped
}

/// The fade of the given duration that the system gives its sounds.
pub open spec fn fade_of(duration: Duration) -> Fade {
    Fade { duration, easing: FadeEasing::Linear }
}

/// The request a pause (`pause`) or resume sends.
pub open spec fn toggle_request(pause: bool, fade: Fade) -> SoundEvent {
    if pause {
        SoundEvent::Paused(fade)
    } else {
        SoundEvent::Resumed(fade)
    }
}

/// The state a track moves to on a pause (`pause`) or resume.
pub open spec fn toggle_target(pause: bool) -> PlaybackState {
    if pause {
        PlaybackState::Paused
    } else {
        PlaybackState::Playing
    }
}

/// The event a pause (`pause`) or resume reports for a track.
pub open spec fn toggle_event<V>(pause: bool) -> spec_fn(usize) -> AudioEvent<V> {
    if pause {
        |id: usize| AudioEvent::<V>::TrackPaused(id)
    } else {
        |id: usize| AudioEvent::<V>::TrackResumed(id)
    }
}

/// The history of track `id`'s sound after it reported `reported`; empty
/// where it has no sound (`None`).
pub open spec fn reported_history<V>(sys: AudioSystem<V>, id: usize, reported: Option<PlaybackState>) -> Seq<
    SoundEvent,
> {
    match reported {
        Some(s) => sys.sounds()[id].push(SoundEvent::Reported(s)),
        None => Seq::empty(),
    }
}

/// The dropped sounds after track `id`'s sound, which reported `reported`,
/// is dropped; unchanged where it had none (`None`).
pub open spec fn retired_after<V>(sys: AudioSystem<V>, id: usize, reported: Option<PlaybackState>) -> Seq<
    (usize, Seq<SoundEvent>),
> {
    match reported {
        Some(s) => sys.spec_retired().push((id, sys.sounds()[id].push(SoundEvent::Reported(s)))),
        None => sys.spec_retired(),
    }
}

/// How a successful play request for an existing track `id` ends, given
/// the state its sound reported (`None` where it had none): the step of
/// `play_step` for that state is taken.
pub open spec fn play_outcome<V>(
    old_sys: AudioSystem<V>,
    new_sys: AudioSystem<V>,
    old_t: Seq<NoiseTrack<V>>,
    new_t: Seq<NoiseTrack<V>>,
    id: usize,
    reported: Option<PlaybackState>,
    events: Seq<AudioEvent<V>>,
) -> bool {
    let h = reported_history(old_sys, id, reported);
    let fade = old_sys.spec_fade();
    match spec_play_step(reported) {
        PlayStep::Pause => {
            &&& new_sys.sounds() == old_sys.sounds().insert(id, h.push(SoundEvent::Paused(fade)))
            &&& new_sys.spec_retired() == old_sys.spec_retired()
            &&& new_t == with_state(old_t, id as int, PlaybackState::Paused)
            &&& events == seq![AudioEvent::<V>::TrackPaused(id)]
        },
        PlayStep::Resume => {
            &&& new_sys.sounds() == old_sys.sounds().insert(id, h.push(SoundEvent::Resumed(fade)))
            &&& new_sys.spec_retired() == old_sys.spec_retired()
            &&& new_t == with_state(old_t, id as int, PlaybackState::Playing)
            &&& events == seq![AudioEvent::<V>::TrackResumed(id)]
        },
        PlayStep::Restart => {
            &&& new_sys.sounds() == old_sys.sounds().insert(id, Seq::empty())
            &&& new_sys.spec_retired() == retired_after(old_sys, id, reported)
            &&& new_t == with_state(old_t, id as int, PlaybackState::Playing)
            &&& events == seq![AudioEvent::<V>::TrackStarted(id)]
        },
    }
}

/// The sound of track `id`, if it has one, reported `reported`.
pub open spec fn reports_on<V>(sys: AudioSystem<V>, id: usize, reported: Option<PlaybackState>) -> bool {
    reported is None <==> !sys.handle_ids().contains(id)
}

/// How a successful play request for an existing track `id` ends: for the
/// state its sound reported, a playing sound is paused, a paused one
/// resumed, and otherwise the track is started anew.
pub open spec fn play_done<V>(
    old_sys: AudioSystem<V>,
    new_sys: AudioSystem<V>,
    old_t: Seq<NoiseTrack<V>>,
    new_t: Seq<NoiseTrack<V>>,
    id: usize,
    events: Seq<AudioEvent<V>>,
) -> bool {
    exists|reported: Option<PlaybackState>|
        #[trigger] reports_on(old_sys, id, reported) && play_outcome(old_sys, new_sys, old_t, new_t, id, reported, events)
}

/// How a play request for an existing track `id` ends when starting the
/// track fails: the sound it had, if any, reported a state for which the
/// track is started anew, and is dropped; the tracks are unchanged.
pub open spec fn play_failed<V>(
    old_sys: AudioSystem<V>,
    new_sys: AudioSystem<V>,
    old_t: Seq<NoiseTrack<V>>,
    new_t: Seq<NoiseTrack<V>>,
    id: usize,
) -> bool {
    exists|reported: Option<PlaybackState>|
        #![trigger reports_on(old_sys, id, reported)]
        {
            &&& reports_on(old_sys, id, reported)
            &&& spec_play_step(reported) == PlayStep::Restart
            &&& new_sys.sounds() == old_sys.sounds().remove(id)
            &&& new_sys.spec_retired() == retired_after(old_sys, id, reported)
            &&& new_t == old_t
        }
}

/// How a pause (`pause`) or resume of track `id`, whose sound reported
/// `s`, ends: if `s` is the wanted state (playing for a pause, paused for a
/// resume) the sound is sent the request, the track moves on and one event
/// says so; otherwise nothing but the report is recorded.
pub open spec fn toggled_one<V>(
    old_sys: AudioSystem<V>,
    new_sys: AudioSystem<V>,
    old_t: Seq<NoiseTrack<V>>,
    new_t: Seq<NoiseTrack<V>>,
    id: usize,
    pause: bool,
    events: Seq<AudioEvent<V>>,
    s: PlaybackState,
) -> bool {
    let h = old_sys.sounds()[id].push(SoundEvent::Reported(s));
    if s == toggle_wanted(pause) {
        &&& new_sys.sounds() == old_sys.sounds().insert(id, h.push(toggle_request(pause, old_sys.spec_fade())))
        &&& new_t == with_state(old_t, id as int, toggle_target(pause))
        &&& events == seq![(toggle_event::<V>(pause))(id)]
    } else {
        &&& new_sys.sounds() == old_sys.sounds().insert(id, h)
        &&& new_t == old_t
        &&& events == Seq::<AudioEvent<V>>::empty()
    }
}

/// How a pause (`pause`) or resume of track `id` ends: a track without a
/// sound is left as it was; otherwise its sound reports a state, and the
/// request is sent only for the wanted state, as `toggled_one` says.
pub open spec fn toggle_done<V>(
    old_sys: AudioSystem<V>,
    new_sys: AudioSystem<V>,
    old_t: Seq<NoiseTrack<V>>,
    new_t: Seq<NoiseTrack<V>>,
    id: usize,
    pause: bool,
    events: Seq<AudioEvent<V>>,
) -> bool {
    &&& new_sys.spec_retired() == old_sys.spec_retired()
    &&& if !old_sys.handle_ids().contains(id) {
        &&& new_sys.sounds() == old_sys.sounds()
        &&& new_t == old_t
        &&& events == Seq::<AudioEvent<V>>::empty()
    } else {
        exists|s: PlaybackState| #[trigger] toggled_one(old_sys, new_sys, old_t, new_t, id, pause, events, s)
    }
}

/// How a stop of track `id` ends: its sound, if it has one, is asked to
/// stop and dropped, the track is stopped and one event says so.
pub open spec fn stop_done<V>(
    old_sys: AudioSystem<V>,
    new_sys: AudioSystem<V>,
    old_t: Seq<NoiseTrack<V>>,
    new_t: Seq<NoiseTrack<V>>,
    id: usize,
    events: Seq<AudioEvent<V>>,
) -> bool {
    if old_sys.handle_ids().contains(id) {
        &&& new_sys.sounds() == old_sys.sounds().remove(id)
        &&& new_sys.spec_retired() == old_sys.spec_retired().push(
            (id, old_sys.sounds()[id].push(SoundEvent::Stopped(old_sys.spec_fade()))),
        )
        &&& new_t == with_state(old_t, id as int, PlaybackState::Stopped)
        &&& events == seq![AudioEvent::<V>::TrackStopped(id)]
    } else {
        &&& new_sys.sounds() == old_sys.sounds()
        &&& new_sys.spec_retired() == old_sys.spec_retired()
        &&& new_t == old_t
        &&& events == Seq::<AudioEvent<V>>::empty()
    }
}

/// How setting track `id`'s volume ends: the track keeps the volume, and its
/// sound, if it has one, is sent the volume that `mix` gives for the new
/// volume and the master volume.
pub open spec fn set_volume_done<V, M>(
    old_sys: AudioSystem<V>,
    new_sys: AudioSystem<V>,
    old_t: Seq<NoiseTrack<V>>,
    new_t: Seq<NoiseTrack<V>>,
    id: usize,
    volume: V,
    mix: M,
    events: Seq<AudioEvent<V>>,
) -> bool where M: Fn(V, V) -> Decibels {
    &&& new_sys.spec_retired() == old_sys.spec_retired()
    &&& new_t == with_volume(old_t, id as int, volume)
    &&& events == seq![AudioEvent::VolumeChanged { track_id: id, volume }]
    &&& if old_sys.handle_ids().contains(id) {
        exists|d: Decibels|
            mix.ensures((volume, old_sys.spec_master_volume()), d) && new_sys.sounds() == old_sys.sounds().insert(
                id,
                old_sys.sounds()[id].push(SoundEvent::VolumeSet(d, old_sys.spec_fade())),
            )
    } else {
        new_sys.sounds() == old_sys.sounds()
    }
}

/// The sound of a track of volume `track_volume` was sent the volume that
/// `mix` gives for it and the master volume `master`.
pub open spec fn remixed<V, M>(
    old_h: Seq<SoundEvent>,
    new_h: Seq<SoundEvent>,
    track_volume: V,
    master: V,
    fade: Fade,
    mix: M,
) -> bool where M: Fn(V, V) -> Decibels {
    exists|d: Decibels| mix.ensures((track_volume, master), d) && new_h == old_h.push(SoundEvent::VolumeSet(d, fade))
}

/// How setting the master volume ends: every sound is sent the volume that
/// `mix` gives for its track's volume and the new master volume.
pub open spec fn master_done<V, M>(
    old_sys: AudioSystem<V>,
    new_sys: AudioSystem<V>,
    old_t: Seq<NoiseTrack<V>>,
    volume: V,
    mix: M,
) -> bool where M: Fn(V, V) -> Decibels {
    &&& new_sys.handle_ids() == old_sys.handle_ids()
    &&& new_sys.spec_retired() == old_sys.spec_retired()
    &&& forall|i: usize|
        #[trigger] old_sys.handle_ids().contains(i) ==> remixed(
            old_sys.sounds()[i],
            new_sys.sounds()[i],
            old_t[i as int].volume_level,
            volume,
            old_sys.spec_fade(),
            mix,
        )
}

/// The dropped sounds, each asked to stop, of the tracks in `ids` in order.
pub open spec fn stopped_records<V>(sys: AudioSystem<V>, ids: Seq<usize>) -> Seq<(usize, Seq<SoundEvent>)> {
    ids.map_values(|i: usize| (i, sys.sounds()[i].push(SoundEvent::Stopped(sys.spec_fade()))))
}

/// How a stop-all ends: every sound is asked to stop and dropped, in some
/// order, every track that had one is stopped, one event each.
pub open spec fn stop_all_done<V>(
    old_sys: AudioSystem<V>,
    new_sys: AudioSystem<V>,
    old_t: Seq<NoiseTrack<V>>,
    new_t: Seq<NoiseTrack<V>>,
    events: Seq<AudioEvent<V>>,
) -> bool {
    &&& new_sys.handle_ids() == Set::<usize>::empty()
    &&& new_t == with_states(old_t, old_sys.handle_ids(), PlaybackState::Stopped)
    &&& exists|stopped: Seq<usize>|
        {
            &&& stopped.no_duplicates()
            &&& stopped.to_set() == old_sys.handle_ids()
            &&& events == events_for(stopped, |id: usize| AudioEvent::<V>::TrackStopped(id))
            &&& new_sys.spec_retired() == old_sys.spec_retired() + stopped_records(old_sys, stopped)
        }
}

/// What a pause-all (`pause`) or resume-all does to one sound, given the
/// state `s1` it reported first and `s2` it reported to the single pause or
/// resume that follows when `s1` is the wanted state: the request is sent
/// only if both are the wanted state.
pub open spec fn toggled_via(
    old_h: Seq<SoundEvent>,
    new_h: Seq<SoundEvent>,
    pause: bool,
    fade: Fade,
    s1: PlaybackState,
    s2: PlaybackState,
) -> bool {
    let w = toggle_wanted(pause);
    if s1 != w {
        new_h == old_h.push(SoundEvent::Reported(s1))
    } else if s2 != w {
        new_h == old_h.push(SoundEvent::Reported(w)).push(SoundEvent::Reported(s2))
    } else {
        new_h == old_h.push(SoundEvent::Reported(w)).push(SoundEvent::Reported(w)).push(
            toggle_request(pause, fade),
        )
    }
}

/// What a pause-all (`pause`) or resume-all does to one sound: as
/// `toggled_via` says, for the states it reported.
pub open spec fn toggled_history(old_h: Seq<SoundEvent>, new_h: Seq<SoundEvent>, pause: bool, fade: Fade) -> bool {
    exists|s1: PlaybackState, s2: PlaybackState| #[trigger] toggled_via(old_h, new_h, pause, fade, s1, s2)
}

/// The sound was sent the request of a pause (`pause`) or resume last.
pub open spec fn acted(h: Seq<SoundEvent>, pause: bool, fade: Fade) -> bool {
    h.len() > 0 && h.last() == toggle_request(pause, fade)
}

/// How a pause-all (`pause`) or resume-all ends: each sound goes as
/// `toggled_history` says, and exactly the tracks whose sound was sent the
/// request move on, one event each.
pub open spec fn toggle_all_done<V>(
    old_sys: AudioSystem<V>,
    new_sys: AudioSystem<V>,
    old_t: Seq<NoiseTrack<V>>,
    new_t: Seq<NoiseTrack<V>>,
    pause: bool,
    events: Seq<AudioEvent<V>>,
) -> bool {
    &&& new_sys.handle_ids() == old_sys.handle_ids()
    &&& new_sys.spec_retired() == old_sys.spec_retired()
    &&& forall|i: usize|
        #[trigger] old_sys.handle_ids().contains(i) ==> toggled_history(
            old_sys.sounds()[i],
            new_sys.sounds()[i],
            pause,
            old_sys.spec_fade(),
        )
    &&& exists|moved: Seq<usize>|
        {
            &&& moved.no_duplicates()
            &&& forall|i: usize|
                #[trigger] moved.contains(i) <==> (old_sys.handle_ids().contains(i) && acted(
                    new_sys.sounds()[i],
                    pause,
                    old_sys.spec_fade(),
                ))
            &&& new_t == with_states(old_t, moved.to_set(), toggle_target(pause))
            &&& events == events_for(moved, toggle_event::<V>(pause))
        }
}

/// The dropped sounds, each after reporting stopped, of the tracks in `ids`.
pub open spec fn finished_records<V>(sys: AudioSystem<V>, ids: Seq<usize>) -> Seq<(usize, Seq<SoundEvent>)> {
    ids.map_values(|i: usize| (i, sys.sounds()[i].push(SoundEvent::Reported(PlaybackState::Stopped))))
}

/// How a clean-up of finished sounds ends: every sound reports a state;
/// exactly those that report stopped are dropped, and each dropped track
/// that exists is stopped, with one event each.
pub open spec fn cleanup_done<V>(
    old_sys: AudioSystem<V>,
    new_sys: AudioSystem<V>,
    old_t: Seq<NoiseTrack<V>>,
    new_t: Seq<NoiseTrack<V>>,
    events: Seq<AudioEvent<V>>,
) -> bool {
    exists|reports: Map<usize, PlaybackState>|
        {
            &&& reports.dom() == old_sys.handle_ids()
            &&& forall|i: usize|
                #[trigger] new_sys.handle_ids().contains(i) <==> (old_sys.handle_ids().contains(i)
                    && reports[i] != PlaybackState::Stopped)
            &&& forall|i: usize|
                #[trigger] new_sys.handle_ids().contains(i) ==> new_sys.sounds()[i]
                    == old_sys.sounds()[i].push(SoundEvent::Reported(reports[i]))
            &&& new_t == with_states(
                old_t,
                old_sys.handle_ids().difference(new_sys.handle_ids()),
                PlaybackState::Stopped,
            )
            &&& exists|finished: Seq<usize>|
                {
                    &&& finished.no_duplicates()
                    &&& finished.to_set() == old_sys.handle_ids().difference(new_sys.handle_ids())
                    &&& new_sys.spec_retired() == old_sys.spec_retired() + finished_records(old_sys, finished)
                }
            &&& exists|shown: Seq<usize>|
                {
                    &&& shown.no_duplicates()
                    &&& forall|id: usize|
                        #[trigger] shown.contains(id) <==> (old_sys.handle_ids().contains(id)
                            && !new_sys.handle_ids().contains(id) && id < old_t.len())
                    &&& events == events_for(shown, |id: usize| AudioEvent::<V>::TrackFinished(id))
                }
        }
}

/// The test for a report that says `state`.
pub open spec fn says(state: PlaybackState) -> spec_fn(PlaybackState) -> bool {
    |s: PlaybackState| s == state
}

/// The number of reports that say `state`.
pub open spec fn count_state(reports: Seq<PlaybackState>, state: PlaybackState) -> nat {
    reports.filter(says(state)).len()
}

/// Setting the state of a track that does not exist changes nothing.
pub proof fn lemma_with_states_insert_absent<V>(
    t: Seq<NoiseTrack<V>>,
    ids: Set<usize>,
    id: usize,
    state: PlaybackState,
)
    requires
        id >= t.len(),
        t.len() <= usize::MAX,
    ensures
        with_states(t, ids.insert(id), state) == with_states(t, ids, state),
{
    let a = with_states(t, ids.insert(id), state);
    let b = with_states(t, ids, state);
    assert forall|i: int| 0 <= i < t.len() implies a[i] == b[i] by {
        assert((i as usize) != id);
    }
    assert(a =~= b);
}

/// Setting the state of one more track is setting it on the larger set.
pub proof fn lemma_with_states_insert<V>(
    t: Seq<NoiseTrack<V>>,
    ids: Set<usize>,
    id: usize,
    state: PlaybackState,
)
    requires
        id < t.len(),
        t.len() <= usize::MAX,
    ensures
        with_states(t, ids.insert(id), state) == with_state(with_states(t, ids, state), id as int, state),
{
    let a = with_states(t, ids.insert(id), state);
    let b = with_state(with_states(t, ids, state), id as int, state);
    assert forall|i: int| 0 <= i < t.len() implies a[i] == b[i] by {
        if i == id as int {
            assert(a[i] == track_in_state(t[i], state));
        } else {
            assert((i as usize) != id);
        }
    }
    assert(a =~= b);
}

/// Setting the state of no track changes nothing.
pub proof fn lemma_with_states_empty<V>(t: Seq<NoiseTrack<V>>, state: PlaybackState)
    ensures
        with_states(t, Set::<usize>::empty(), state) == t,
{
    assert(with_states(t, Set::<usize>::empty(), state) =~= t);
}

/// The command touches only tracks that exist. Where it does not, playing
/// it would index past the end of the track list.
pub open spec fn command_in_bounds<V>(command: AudioCommand<V>, ids: Set<usize>, n: int) -> bool {
    match command {
        AudioCommand::Play(_) => true,
        AudioCommand::Pause(id) => ids.contains(id) ==> id < n,
        AudioCommand::Resume(id) => ids.contains(id) ==> id < n,
        AudioCommand::Stop(id) => ids.contains(id) ==> id < n,
        AudioCommand::SetVolume { track_id, .. } => track_id < n,
        _ => forall|id: usize| #[trigger] ids.contains(id) ==> id < n,
    }
}

/// A successful play request for track `id` went as `play_done` says,
/// and then the global state was set from a fresh report of each sound.
pub open spec fn played_and_settled<V>(
    old_sys: AudioSystem<V>,
    new_sys: AudioSystem<V>,
    old_t: Seq<NoiseTrack<V>>,
    new_t: Seq<NoiseTrack<V>>,
    id: usize,
    events: Seq<AudioEvent<V>>,
) -> bool {
    exists|mid: AudioSystem<V>| #[trigger] play_done(old_sys, mid, old_t, new_t, id, events) && settles(mid, new_sys)
}

/// A pause (`pause`) or resume of track `id` went as `toggle_done` says,
/// and then the global state was set from a fresh report of each sound.
pub open spec fn toggled_and_settled<V>(
    old_sys: AudioSystem<V>,
    new_sys: AudioSystem<V>,
    old_t: Seq<NoiseTrack<V>>,
    new_t: Seq<NoiseTrack<V>>,
    id: usize,
    pause: bool,
    events: Seq<AudioEvent<V>>,
) -> bool {
    exists|mid: AudioSystem<V>|
        #[trigger] toggle_done(old_sys, mid, old_t, new_t, id, pause, events) && settles(mid, new_sys)
}

/// A stop of track `id` went as `stop_done` says, and then the global
/// state was set from a fresh report of each sound.
pub open spec fn stopped_and_settled<V>(
    old_sys: AudioSystem<V>,
    new_sys: AudioSystem<V>,
    old_t: Seq<NoiseTrack<V>>,
    new_t: Seq<NoiseTrack<V>>,
    id: usize,
    events: Seq<AudioEvent<V>>,
) -> bool {
    exists|mid: AudioSystem<V>| #[trigger] stop_done(old_sys, mid, old_t, new_t, id, events) && settles(mid, new_sys)
}

/// A pause-all (`pause`) or resume-all went as `toggle_all_done` says, and
/// then the global state was set from a fresh report of each sound.
pub open spec fn toggled_all_and_settled<V>(
    old_sys: AudioSystem<V>,
    new_sys: AudioSystem<V>,
    old_t: Seq<NoiseTrack<V>>,
    new_t: Seq<NoiseTrack<V>>,
    pause: bool,
    events: Seq<AudioEvent<V>>,
) -> bool {
    exists|mid: AudioSystem<V>|
        #[trigger] toggle_all_done(old_sys, mid, old_t, new_t, pause, events) && settles(mid, new_sys)
}

/// How an audio command ends, for the system and the tracks before and
/// after it and its result; `mix` is the volume mixer the command used.
pub open spec fn command_done<V, M>(
    command: AudioCommand<V>,
    old_sys: AudioSystem<V>,
    new_sys: AudioSystem<V>,
    old_t: Seq<NoiseTrack<V>>,
    new_t: Seq<NoiseTrack<V>>,
    res: Result<Vec<AudioEvent<V>>, AppError>,
    mix: M,
) -> bool where M: Fn(V, V) -> Decibels {
    &&& new_sys.spec_fade_duration() == old_sys.spec_fade_duration()
    &&& new_t.len() == old_t.len()
    &&& match command {
        AudioCommand::SetMasterVolume(_) => true,
        _ => new_sys.spec_master_volume() == old_sys.spec_master_volume(),
    }
    &&& match command {
        AudioCommand::Play(id) => {
            &&& id >= old_t.len() ==> {
                &&& res matches Err(e) && is_out_of_bounds_error(e)
                &&& new_sys.sounds() == old_sys.sounds()
                &&& new_sys.spec_retired() == old_sys.spec_retired()
                &&& new_sys.spec_global_state() == old_sys.spec_global_state()
                &&& new_t == old_t
            }
            &&& id < old_t.len() ==> match res {
                Ok(events) => played_and_settled(old_sys, new_sys, old_t, new_t, id, events@),
                Err(e) => {
                    &&& play_failed(old_sys, new_sys, old_t, new_t, id)
                    &&& new_sys.spec_global_state() == old_sys.spec_global_state()
                },
            }
        },
        AudioCommand::Pause(id) => res matches Ok(events) && toggled_and_settled(
            old_sys,
            new_sys,
            old_t,
            new_t,
            id,
            true,
            events@,
        ),
        AudioCommand::Resume(id) => res matches Ok(events) && toggled_and_settled(
            old_sys,
            new_sys,
            old_t,
            new_t,
            id,
            false,
            events@,
        ),
        AudioCommand::Stop(id) => res matches Ok(events) && stopped_and_settled(
            old_sys,
            new_sys,
            old_t,
            new_t,
            id,
            events@,
        ),
        AudioCommand::SetVolume { track_id, volume } => res matches Ok(events) && set_volume_done(
            old_sys,
            new_sys,
            old_t,
            new_t,
            track_id,
            volume,
            mix,
            events@,
        ) && new_sys.spec_global_state() == old_sys.spec_global_state(),
        AudioCommand::StopAll => res matches Ok(events) && stop_all_done(old_sys, new_sys, old_t, new_t, events@)
            && new_sys.spec_global_state() == PlaybackState::Stopped,
        AudioCommand::PauseAll => res matches Ok(events) && toggled_all_and_settled(
            old_sys,
            new_sys,
            old_t,
            new_t,
            true,
            events@,
        ),
        AudioCommand::ResumeAll => res matches Ok(events) && toggled_all_and_settled(
            old_sys,
            new_sys,
            old_t,
            new_t,
            false,
            events@,
        ),
        AudioCommand::SetMasterVolume(volume) => res matches Ok(events) && {
            &&& master_done(old_sys, new_sys, old_t, volume, mix)
            &&& new_sys.spec_global_state() == old_sys.spec_global_state()
            &&& new_sys.spec_master_volume() == volume
            &&& new_t == old_t
            &&& events@ == seq![AudioEvent::MasterVolumeChanged(volume)]
        },
    }
}

/// What `start` was handed and gave back for a play request: a failed
/// request for a track of the list failed with the error that `start` gave
/// for the track's path, its volume and the master volume, and a started
/// track got a handle that `start` gave for them.
pub open spec fn start_accounts_for<V, S>(
    command: AudioCommand<V>,
    old_t: Seq<NoiseTrack<V>>,
    master_volume: V,
    start: S,
    res: Result<Vec<AudioEvent<V>>, AppError>,
) -> bool where S: Fn(String, V, V) -> Result<SoundHandle, AppError> {
    match (command, res) {
        (AudioCommand::Play(id), Err(e)) => id < old_t.len() ==> exists|p: String|
            p@ == old_t[id as int].path@ && start.ensures(
                (p, old_t[id as int].volume_level, master_volume),
                Err(e),
            ),
        (AudioCommand::Play(id), Ok(events)) => events@ == seq![AudioEvent::<V>::TrackStarted(id)]
            ==> exists|p: String, h: SoundHandle|
            p@ == old_t[id as int].path@ && start.ensures(
                (p, old_t[id as int].volume_level, master_volume),
                Ok(h),
            ),
        _ => true,
    }
}

/// The global state is always playing, paused or stopped, never a state
/// between them, and with no sound it is stopped; settling keeps the sounds.
pub proof fn lemma_global_state_is_settled<V>(mid: AudioSystem<V>, new_sys: AudioSystem<V>)
    requires
        settles(mid, new_sys),
    ensures
        new_sys.spec_global_state() == PlaybackState::Playing || new_sys.spec_global_state()
            == PlaybackState::Paused || new_sys.spec_global_state() == PlaybackState::Stopped,
        new_sys.handle_ids() == mid.handle_ids(),
        new_sys.handle_ids().is_empty() ==> new_sys.spec_global_state() == PlaybackState::Stopped,
{
    let reports = choose|reports: Map<usize, PlaybackState>| settled_by(mid, new_sys, reports);
    AudioSystem::lemma_ids_are_sound_keys(mid);
    AudioSystem::lemma_ids_are_sound_keys(new_sys);
    assert(new_sys.sounds().dom() =~= mid.sounds().dom());
    if new_sys.handle_ids().is_empty() {
        assert(!state_was_playing(reports));
        assert(!state_was_paused(reports));
    }
}

/// Every command keeps every playback handle on a track of the list: a
/// track is started only when it exists, and the list keeps its length.
pub proof fn lemma_command_keeps_handles_within<V, M>(
    command: AudioCommand<V>,
    old_sys: AudioSystem<V>,
    new_sys: AudioSystem<V>,
    old_t: Seq<NoiseTrack<V>>,
    new_t: Seq<NoiseTrack<V>>,
    res: Result<Vec<AudioEvent<V>>, AppError>,
    mix: M,
) where M: Fn(V, V) -> Decibels
    requires
        command_done(command, old_sys, new_sys, old_t, new_t, res, mix),
        old_sys.handles_within(old_t.len() as int),
    ensures
        new_sys.handles_within(new_t.len() as int),
{
    AudioSystem::lemma_ids_are_sound_keys(old_sys);
    AudioSystem::lemma_ids_are_sound_keys(new_sys);
    let events = res->Ok_0@;
    match command {
        AudioCommand::Play(t) => {
            if t < old_t.len() && res is Ok {
                let mid = choose|mid: AudioSystem<V>|
                    #[trigger] play_done(old_sys, mid, old_t, new_t, t, events) && settles(mid, new_sys);
                lemma_global_state_is_settled(mid, new_sys);
                AudioSystem::lemma_ids_are_sound_keys(mid);
                assert forall|id: usize| #[trigger] new_sys.handle_ids().contains(id) implies id < new_t.len() by {
                    if id != t {
                        assert(old_sys.handle_ids().contains(id));
                    }
                }
            } else {
                assert forall|id: usize| #[trigger] new_sys.handle_ids().contains(id) implies id < new_t.len() by {
                    if id != t {
                        assert(old_sys.handle_ids().contains(id));
                    }
                }
            }
        },
        AudioCommand::Pause(t) => {
            let mid = choose|mid: AudioSystem<V>|
                #[trigger] toggle_done(old_sys, mid, old_t, new_t, t, true, events) && settles(mid, new_sys);
            lemma_global_state_is_settled(mid, new_sys);
            AudioSystem::lemma_ids_are_sound_keys(mid);
            assert forall|id: usize| #[trigger] new_sys.handle_ids().contains(id) implies id < new_t.len() by {
                assert(old_sys.handle_ids().contains(id));
            }
        },
        AudioCommand::Resume(t) => {
            let mid = choose|mid: AudioSystem<V>|
                #[trigger] toggle_done(old_sys, mid, old_t, new_t, t, false, events) && settles(mid, new_sys);
            lemma_global_state_is_settled(mid, new_sys);
            AudioSystem::lemma_ids_are_sound_keys(mid);
            assert forall|id: usize| #[trigger] new_sys.handle_ids().contains(id) implies id < new_t.len() by {
                assert(old_sys.handle_ids().contains(id));
            }
        },
        AudioCommand::Stop(t) => {
            let mid = choose|mid: AudioSystem<V>|
                #[trigger] stop_done(old_sys, mid, old_t, new_t, t, events) && settles(mid, new_sys);
            lemma_global_state_is_settled(mid, new_sys);
            AudioSystem::lemma_ids_are_sound_keys(mid);
            assert forall|id: usize| #[trigger] new_sys.handle_ids().contains(id) implies id < new_t.len() by {
                assert(old_sys.handle_ids().contains(id));
            }
        },
        AudioCommand::PauseAll => {
            let mid = choose|mid: AudioSystem<V>|
                #[trigger] toggle_all_done(old_sys, mid, old_t, new_t, true, events) && settles(mid, new_sys);
            lemma_global_state_is_settled(mid, new_sys);
        },
        AudioCommand::ResumeAll => {
            let mid = choose|mid: AudioSystem<V>|
                #[trigger] toggle_all_done(old_sys, mid, old_t, new_t, false, events) && settles(mid, new_sys);
            lemma_global_state_is_settled(mid, new_sys);
        },
        _ => {
            assert forall|id: usize| #[trigger] new_sys.handle_ids().contains(id) implies id < new_t.len() by {
                assert(old_sys.handle_ids().contains(id));
            }
        },
    }
}

/// Stopping all tracks leaves no sound, a stopped global state, every
/// sound asked to stop, every track that sounded stopped and every other
/// track as it was.
pub proof fn lemma_stop_all_silences<V, M>(
    old_sys: AudioSystem<V>,
    new_sys: AudioSystem<V>,
    old_t: Seq<NoiseTrack<V>>,
    new_t: Seq<NoiseTrack<V>>,
    res: Result<Vec<AudioEvent<V>>, AppError>,
    mix: M,
) where M: Fn(V, V) -> Decibels
    requires
        command_done(AudioCommand::StopAll, old_sys, new_sys, old_t, new_t, res, mix),
    ensures
        res is Ok,
        new_sys.handle_ids().is_empty(),
        new_sys.spec_global_state() == PlaybackState::Stopped,
        forall|i: usize|
            #[trigger] old_sys.handle_ids().contains(i) ==> new_sys.spec_retired().contains(
                (i, old_sys.sounds()[i].push(SoundEvent::Stopped(old_sys.spec_fade()))),
            ),
        forall|i: int|
            0 <= i < old_t.len() ==> if old_sys.handle_ids().contains(i as usize) {
                (#[trigger] new_t[i]).state == PlaybackState::Stopped
            } else {
                new_t[i] == old_t[i]
            },
{
    let stopped = choose|stopped: Seq<usize>|
        {
            &&& stopped.no_duplicates()
            &&& stopped.to_set() == old_sys.handle_ids()
            &&& res->Ok_0@ == events_for(stopped, |id: usize| AudioEvent::<V>::TrackStopped(id))
            &&& new_sys.spec_retired() == old_sys.spec_retired() + stopped_records(old_sys, stopped)
        };
    assert forall|i: usize| #[trigger] old_sys.handle_ids().contains(i) implies new_sys.spec_retired().contains(
        (i, old_sys.sounds()[i].push(SoundEvent::Stopped(old_sys.spec_fade()))),
    ) by {
        assert(stopped.to_set().contains(i));
        let k = choose|k: int| 0 <= k < stopped.len() && stopped[k] == i;
        let j = old_sys.spec_retired().len() + k;
        assert(new_sys.spec_retired()[j] == stopped_records(old_sys, stopped)[k]);
    }
}

/// A successful play request for a track of the list leaves the track with
/// a playback handle, playing or paused.
pub proof fn lemma_play_leaves_track_sounding<V, M>(
    id: usize,
    old_sys: AudioSystem<V>,
    new_sys: AudioSystem<V>,
    old_t: Seq<NoiseTrack<V>>,
    new_t: Seq<NoiseTrack<V>>,
    res: Result<Vec<AudioEvent<V>>, AppError>,
    mix: M,
) where M: Fn(V, V) -> Decibels
    requires
        command_done(AudioCommand::Play(id), old_sys, new_sys, old_t, new_t, res, mix),
        id < old_t.len(),
        res is Ok,
    ensures
        new_sys.handle_ids().contains(id),
        new_t[id as int].state == PlaybackState::Playing || new_t[id as int].state
            == PlaybackState::Paused,
{
    let mid = choose|mid: AudioSystem<V>|
        #[trigger] play_done(old_sys, mid, old_t, new_t, id, res->Ok_0@) && settles(mid, new_sys);
    lemma_global_state_is_settled(mid, new_sys);
    AudioSystem::lemma_ids_are_sound_keys(mid);
    let r = choose|r: Option<PlaybackState>|
        reports_on(old_sys, id, r) && play_outcome(old_sys, mid, old_t, new_t, id, r, res->Ok_0@);
    assert(mid.sounds().contains_key(id));
}

/// A play request for a track that is not in the list fails with an
/// out-of-bounds error and changes nothing.
pub proof fn lemma_play_out_of_bounds<V, M>(
    id: usize,
    old_sys: AudioSystem<V>,
    new_sys: AudioSystem<V>,
    old_t: Seq<NoiseTrack<V>>,
    new_t: Seq<NoiseTrack<V>>,
    res: Result<Vec<AudioEvent<V>>, AppError>,
    mix: M,
) where M: Fn(V, V) -> Decibels
    requires
        command_done(AudioCommand::Play(id), old_sys, new_sys, old_t, new_t, res, mix),
        id >= old_t.len(),
    ensures
        res matches Err(e) && is_out_of_bounds_error(e),
        new_sys.sounds() == old_sys.sounds(),
        new_t == old_t,
{
}

/// Stopping a track asks its sound to stop and drops it: afterwards the
/// track has none.
pub proof fn lemma_stop_drops_handle<V, M>(
    id: usize,
    old_sys: AudioSystem<V>,
    new_sys: AudioSystem<V>,
    old_t: Seq<NoiseTrack<V>>,
    new_t: Seq<NoiseTrack<V>>,
    res: Result<Vec<AudioEvent<V>>, AppError>,
    mix: M,
) where M: Fn(V, V) -> Decibels
    requires
        command_done(AudioCommand::Stop(id), old_sys, new_sys, old_t, new_t, res, mix),
    ensures
        !new_sys.handle_ids().contains(id),
        old_sys.handle_ids().contains(id) ==> new_sys.spec_retired().last() == (
            id,
            old_sys.sounds()[id].push(SoundEvent::Stopped(old_sys.spec_fade())),
        ),
{
    AudioSystem::lemma_ids_are_sound_keys(old_sys);
    let mid = choose|mid: AudioSystem<V>|
        #[trigger] stop_done(old_sys, mid, old_t, new_t, id, res->Ok_0@) && settles(mid, new_sys);
    lemma_global_state_is_settled(mid, new_sys);
    AudioSystem::lemma_ids_are_sound_keys(mid);
    let reports = choose|reports: Map<usize, PlaybackState>| settled_by(mid, new_sys, reports);
}

/// Setting a track's volume stores it in that track, changes no other
/// track and no playback state, and sends the track's sound, where it has
/// one, the volume that `mix` gives for the new volume and the master
/// volume: each track has its own volume under the master volume.
pub proof fn lemma_set_volume_touches_only_volume<V, M>(
    id: usize,
    volume: V,
    old_sys: AudioSystem<V>,
    new_sys: AudioSystem<V>,
    old_t: Seq<NoiseTrack<V>>,
    new_t: Seq<NoiseTrack<V>>,
    res: Result<Vec<AudioEvent<V>>, AppError>,
    mix: M,
) where M: Fn(V, V) -> Decibels
    requires
        command_done(AudioCommand::SetVolume { track_id: id, volume }, old_sys, new_sys, old_t, new_t, res, mix),
        id < old_t.len(),
    ensures
        new_t[id as int].volume_level == volume,
        forall|i: int| 0 <= i < old_t.len() ==> (#[trigger] new_t[i]).state == old_t[i].state,
        forall|i: int| 0 <= i < old_t.len() && i != id ==> #[trigger] new_t[i] == old_t[i],
        new_sys.handle_ids() == old_sys.handle_ids(),
        old_sys.handle_ids().contains(id) ==> remixed(
            old_sys.sounds()[id],
            new_sys.sounds()[id],
            volume,
            old_sys.spec_master_volume(),
            old_sys.spec_fade(),
            mix,
        ),
{
    AudioSystem::lemma_ids_are_sound_keys(old_sys);
    AudioSystem::lemma_ids_are_sound_keys(new_sys);
    if old_sys.handle_ids().contains(id) {
        assert(new_sys.sounds().dom() =~= old_sys.sounds().dom());
    } else {
        assert(new_sys.sounds().dom() =~= old_sys.sounds().dom());
    }
}

/// Setting the master volume stores it, changes no track, and sends every
/// sound the volume that `mix` gives for its track's volume and the new
/// master volume.
pub proof fn lemma_master_volume_stored<V, M>(
    volume: V,
    old_sys: AudioSystem<V>,
    new_sys: AudioSystem<V>,
    old_t: Seq<NoiseTrack<V>>,
    new_t: Seq<NoiseTrack<V>>,
    res: Result<Vec<AudioEvent<V>>, AppError>,
    mix: M,
) where M: Fn(V, V) -> Decibels
    requires
        command_done(AudioCommand::SetMasterVolume(volume), old_sys, new_sys, old_t, new_t, res, mix),
    ensures
        new_sys.spec_master_volume() == volume,
        new_t == old_t,
        res is Ok,
        forall|i: usize|
            #[trigger] old_sys.handle_ids().contains(i) ==> remixed(
                old_sys.sounds()[i],
                new_sys.sounds()[i],
                old_t[i as int].volume_level,
                volume,
                old_sys.spec_fade(),
                mix,
            ),
{
}

/// A track that was stopped plays from the beginning: a successful play
/// request right after a stop starts it anew with a fresh sound, whose
/// history holds only the report it gave for the global state, with one
/// started event.
pub proof fn lemma_play_after_stop_starts_anew<V, M>(
    id: usize,
    sys0: AudioSystem<V>,
    sys1: AudioSystem<V>,
    sys2: AudioSystem<V>,
    t0: Seq<NoiseTrack<V>>,
    t1: Seq<NoiseTrack<V>>,
    t2: Seq<NoiseTrack<V>>,
    stopped: Result<Vec<AudioEvent<V>>, AppError>,
    played: Result<Vec<AudioEvent<V>>, AppError>,
    mix: M,
) where M: Fn(V, V) -> Decibels
    requires
        command_done(AudioCommand::Stop(id), sys0, sys1, t0, t1, stopped, mix),
        command_done(AudioCommand::Play(id), sys1, sys2, t1, t2, played, mix),
        id < t0.len(),
        played is Ok,
    ensures
        played matches Ok(events) && events@ == seq![AudioEvent::<V>::TrackStarted(id)],
        sys2.handle_ids() == sys1.handle_ids().insert(id),
        sys2.sounds()[id].len() == 1,
        sys2.sounds()[id][0] is Reported,
        t2 == with_state(t1, id as int, PlaybackState::Playing),
{
    AudioSystem::lemma_ids_are_sound_keys(sys0);
    AudioSystem::lemma_ids_are_sound_keys(sys1);
    AudioSystem::lemma_ids_are_sound_keys(sys2);
    let mid1 = choose|mid: AudioSystem<V>|
        #[trigger] stop_done(sys0, mid, t0, t1, id, stopped->Ok_0@) && settles(mid, sys1);
    lemma_global_state_is_settled(mid1, sys1);
    AudioSystem::lemma_ids_are_sound_keys(mid1);
    assert(!sys1.handle_ids().contains(id));
    let mid2 = choose|mid: AudioSystem<V>|
        #[trigger] play_done(sys1, mid, t1, t2, id, played->Ok_0@) && settles(mid, sys2);
    lemma_global_state_is_settled(mid2, sys2);
    AudioSystem::lemma_ids_are_sound_keys(mid2);
    let r = choose|r: Option<PlaybackState>|
        reports_on(sys1, id, r) && play_outcome(sys1, mid2, t1, t2, id, r, played->Ok_0@);
    assert(r is None);
    assert(mid2.sounds().dom() =~= sys1.sounds().dom().insert(id));
    let reports = choose|reports: Map<usize, PlaybackState>| settled_by(mid2, sys2, reports);
    assert(sys2.sounds()[id] == Seq::<SoundEvent>::empty().push(SoundEvent::Reported(reports[id])));
}

/// With no sound started, pausing or resuming all tracks changes no track
/// and reports nothing.
pub proof fn lemma_toggle_all_without_sounds<V, M>(
    pause: bool,
    old_sys: AudioSystem<V>,
    new_sys: AudioSystem<V>,
    old_t: Seq<NoiseTrack<V>>,
    new_t: Seq<NoiseTrack<V>>,
    res: Result<Vec<AudioEvent<V>>, AppError>,
    mix: M,
) where M: Fn(V, V) -> Decibels
    requires
        command_done(
            if pause { AudioCommand::PauseAll } else { AudioCommand::ResumeAll },
            old_sys,
            new_sys,
            old_t,
            new_t,
            res,
            mix,
        ),
        old_sys.handle_ids().is_empty(),
    ensures
        new_t == old_t,
        res matches Ok(events) && events@.len() == 0,
        new_sys.spec_global_state() == PlaybackState::Stopped,
{
    let events = res->Ok_0;
    let mid = choose|mid: AudioSystem<V>|
        #[trigger] toggle_all_done(old_sys, mid, old_t, new_t, pause, events@) && settles(mid, new_sys);
    lemma_global_state_is_settled(mid, new_sys);
    let moved = choose|moved: Seq<usize>|
        {
            &&& moved.no_duplicates()
            &&& forall|i: usize|
                #[trigger] moved.contains(i) <==> (old_sys.handle_ids().contains(i) && acted(
                    mid.sounds()[i],
                    pause,
                    old_sys.spec_fade(),
                ))
            &&& new_t == with_states(old_t, moved.to_set(), toggle_target(pause))
            &&& events@ == events_for(moved, toggle_event::<V>(pause))
        };
    if moved.len() > 0 {
        assert(moved.contains(moved[0]));
    }
    assert(moved.to_set() =~= Set::<usize>::empty());
    lemma_with_states_empty(old_t, toggle_target(pause));
}

/// Pausing all tracks never starts or drops a sound, pauses exactly the
/// sounds that reported playing twice, and each track it changes is now
/// paused.
pub proof fn lemma_pause_all_only_pauses<V, M>(
    old_sys: AudioSystem<V>,
    new_sys: AudioSystem<V>,
    old_t: Seq<NoiseTrack<V>>,
    new_t: Seq<NoiseTrack<V>>,
    res: Result<Vec<AudioEvent<V>>, AppError>,
    mix: M,
) where M: Fn(V, V) -> Decibels
    requires
        command_done(AudioCommand::PauseAll, old_sys, new_sys, old_t, new_t, res, mix),
    ensures
        new_sys.handle_ids() == old_sys.handle_ids(),
        forall|i: int|
            0 <= i < old_t.len() ==> #[trigger] new_t[i] == old_t[i] || new_t[i].state
                == PlaybackState::Paused,
{
    let mid = choose|mid: AudioSystem<V>|
        #[trigger] toggle_all_done(old_sys, mid, old_t, new_t, true, res->Ok_0@) && settles(mid, new_sys);
    lemma_global_state_is_settled(mid, new_sys);
}

/// Track `id`'s sound last reported `state`: the last entry of its history
/// is that report.
pub open spec fn last_reported<V>(sys: AudioSystem<V>, id: usize, state: PlaybackState) -> bool {
    &&& sys.sounds().contains_key(id)
    &&& sys.sounds()[id].len() > 0
    &&& sys.sounds()[id].last() == SoundEvent::Reported(state)
}

/// Once the global state is set from a fresh report of each sound, it is
/// playing whenever some sound last reported playing, whatever the others
/// reported; paused only when none last reported playing and one last
/// reported paused; stopped when none last reported either.
pub proof fn lemma_settled_state_follows_reports<V>(mid: AudioSystem<V>, new_sys: AudioSystem<V>)
    requires
        settles(mid, new_sys),
    ensures
        (exists|id: usize| #[trigger] last_reported(new_sys, id, PlaybackState::Playing))
            ==> new_sys.spec_global_state() == PlaybackState::Playing,
        new_sys.spec_global_state() == PlaybackState::Playing ==> exists|id: usize|
            #[trigger] last_reported(new_sys, id, PlaybackState::Playing),
        new_sys.spec_global_state() == PlaybackState::Paused <==> (!(exists|id: usize|
            #[trigger] last_reported(new_sys, id, PlaybackState::Playing)) && exists|id: usize|
            #[trigger] last_reported(new_sys, id, PlaybackState::Paused)),
        new_sys.spec_global_state() == PlaybackState::Stopped <==> (!(exists|id: usize|
            #[trigger] last_reported(new_sys, id, PlaybackState::Playing)) && !(exists|id: usize|
            #[trigger] last_reported(new_sys, id, PlaybackState::Paused))),
{
    let reports = choose|reports: Map<usize, PlaybackState>| #[trigger] settled_by(mid, new_sys, reports);
    assert forall|id: usize, st: PlaybackState| #[trigger] last_reported(new_sys, id, st) <==> (
        reports.contains_key(id) && reports[id] == st) by {
        if reports.contains_key(id) {
            assert(new_sys.sounds()[id] == mid.sounds()[id].push(SoundEvent::Reported(reports[id])));
        }
    }
    if state_was_playing(reports) {
        let w = choose|x: usize| reports.contains_key(x) && reports[x] == PlaybackState::Playing;
        assert(last_reported(new_sys, w, PlaybackState::Playing));
    }
    if state_was_paused(reports) {
        let w = choose|x: usize| reports.contains_key(x) && reports[x] == PlaybackState::Paused;
        assert(last_reported(new_sys, w, PlaybackState::Paused));
    }
}

/// The command ends by setting the global state from a fresh report of
/// each sound: a successful play, a pause, resume or stop of a track, and a
/// pause-all or resume-all.
pub open spec fn settles_state<V>(command: AudioCommand<V>, res: Result<Vec<AudioEvent<V>>, AppError>) -> bool {
    match command {
        AudioCommand::Play(_) => res is Ok,
        AudioCommand::Pause(_) => true,
        AudioCommand::Resume(_) => true,
        AudioCommand::Stop(_) => true,
        AudioCommand::PauseAll => true,
        AudioCommand::ResumeAll => true,
        _ => false,
    }
}

/// After a command that sets the global state from fresh reports, the
/// player is playing whenever one track's sound last reported playing,
/// however many others are paused; it is paused only when no sound last
/// reported playing and one last reported paused, and stopped when none
/// last reported either.
pub proof fn lemma_command_state_follows_reports<V, M>(
    command: AudioCommand<V>,
    old_sys: AudioSystem<V>,
    new_sys: AudioSystem<V>,
    old_t: Seq<NoiseTrack<V>>,
    new_t: Seq<NoiseTrack<V>>,
    res: Result<Vec<AudioEvent<V>>, AppError>,
    mix: M,
) where M: Fn(V, V) -> Decibels
    requires
        command_done(command, old_sys, new_sys, old_t, new_t, res, mix),
        settles_state(command, res),
    ensures
        (exists|id: usize| #[trigger] last_reported(new_sys, id, PlaybackState::Playing))
            ==> new_sys.spec_global_state() == PlaybackState::Playing,
        new_sys.spec_global_state() == PlaybackState::Paused <==> (!(exists|id: usize|
            #[trigger] last_reported(new_sys, id, PlaybackState::Playing)) && exists|id: usize|
            #[trigger] last_reported(new_sys, id, PlaybackState::Paused)),
        new_sys.spec_global_state() == PlaybackState::Stopped <==> (!(exists|id: usize|
            #[trigger] last_reported(new_sys, id, PlaybackState::Playing)) && !(exists|id: usize|
            #[trigger] last_reported(new_sys, id, PlaybackState::Paused))),
{
    let events = res->Ok_0@;
    match command {
        AudioCommand::Play(id) => {
            if id >= old_t.len() {
                assert(res is Err);
            }
            let mid = choose|mid: AudioSystem<V>|
                #[trigger] play_done(old_sys, mid, old_t, new_t, id, events) && settles(mid, new_sys);
            lemma_settled_state_follows_reports(mid, new_sys);
        },
        AudioCommand::Pause(id) => {
            let mid = choose|mid: AudioSystem<V>|
                #[trigger] toggle_done(old_sys, mid, old_t, new_t, id, true, events) && settles(mid, new_sys);
            lemma_settled_state_follows_reports(mid, new_sys);
        },
        AudioCommand::Resume(id) => {
            let mid = choose|mid: AudioSystem<V>|
                #[trigger] toggle_done(old_sys, mid, old_t, new_t, id, false, events) && settles(mid, new_sys);
            lemma_settled_state_follows_reports(mid, new_sys);
        },
        AudioCommand::Stop(id) => {
            let mid = choose|mid: AudioSystem<V>|
                #[trigger] stop_done(old_sys, mid, old_t, new_t, id, events) && settles(mid, new_sys);
            lemma_settled_state_follows_reports(mid, new_sys);
        },
        AudioCommand::PauseAll => {
            let mid = choose|mid: AudioSystem<V>|
                #[trigger] toggle_all_done(old_sys, mid, old_t, new_t, true, events) && settles(mid, new_sys);
            lemma_settled_state_follows_reports(mid, new_sys);
        },
        AudioCommand::ResumeAll => {
            let mid = choose|mid: AudioSystem<V>|
                #[trigger] toggle_all_done(old_sys, mid, old_t, new_t, false, events) && settles(mid, new_sys);
            lemma_settled_state_follows_reports(mid, new_sys);
        },
        _ => {},
    }
}

/// A state reported for track `id` is recorded last in its sound's history,
/// and asking for it starts, drops and changes no other sound.
pub proof fn lemma_recorded_report_is_last<V>(
    old_sys: AudioSystem<V>,
    new_sys: AudioSystem<V>,
    id: usize,
    state: PlaybackState,
)
    requires
        recorded_report(old_sys, new_sys, id, state),
        old_sys.handle_ids().contains(id),
    ensures
        last_reported(new_sys, id, state),
        new_sys.handle_ids() == old_sys.handle_ids(),
        forall|other: usize| other != id ==> #[trigger] new_sys.sounds().contains_key(other) == old_sys.sounds().contains_key(other)
            && new_sys.sounds()[other] == old_sys.sounds()[other],
{
    AudioSystem::lemma_ids_are_sound_keys(old_sys);
    AudioSystem::lemma_ids_are_sound_keys(new_sys);
    assert(new_sys.sounds().dom() =~= old_sys.sounds().dom());
}

/// `new_h` is `old_h` followed by one report of a state other than
/// `excluded`.
pub open spec fn gained_one_report_but(old_h: Seq<SoundEvent>, new_h: Seq<SoundEvent>, excluded: PlaybackState) -> bool {
    &&& new_h.len() == old_h.len() + 1
    &&& new_h.subrange(0, old_h.len() as int) == old_h
    &&& new_h.last() is Reported
    &&& new_h.last() != SoundEvent::Reported(excluded)
}

/// A resume of one track sends its sound a resume request and never a
/// pause request: where an event says the track resumed, its sound had
/// reported paused, its history gains that report and then a resume request
/// with the system's fade, and the track is playing; otherwise the track is
/// left as it was and its sound, if it has one, only reported a state other
/// than paused.
pub proof fn lemma_resume_sends_resume<V>(
    old_sys: AudioSystem<V>,
    new_sys: AudioSystem<V>,
    old_t: Seq<NoiseTrack<V>>,
    new_t: Seq<NoiseTrack<V>>,
    id: usize,
    events: Seq<AudioEvent<V>>,
)
    requires
        toggle_done(old_sys, new_sys, old_t, new_t, id, false, events),
    ensures
        new_sys.sounds().dom() == old_sys.sounds().dom(),
        events.len() > 0 ==> {
            &&& old_sys.handle_ids().contains(id)
            &&& new_sys.sounds()[id] == old_sys.sounds()[id].push(SoundEvent::Reported(PlaybackState::Paused)).push(
                SoundEvent::Resumed(old_sys.spec_fade()),
            )
            &&& events == seq![AudioEvent::<V>::TrackResumed(id)]
            &&& new_t == with_state(old_t, id as int, PlaybackState::Playing)
        },
        events.len() == 0 ==> new_t == old_t,
        events.len() == 0 && old_sys.handle_ids().contains(id) ==> gained_one_report_but(
            old_sys.sounds()[id],
            new_sys.sounds()[id],
            PlaybackState::Paused,
        ),
{
    AudioSystem::lemma_ids_are_sound_keys(old_sys);
    if old_sys.handle_ids().contains(id) {
        let s = choose|s: PlaybackState| #[trigger] toggled_one(old_sys, new_sys, old_t, new_t, id, false, events, s);
        let h = old_sys.sounds()[id].push(SoundEvent::Reported(s));
        if s != PlaybackState::Paused {
            assert(new_sys.sounds()[id] == h);
            assert(h.subrange(0, old_sys.sounds()[id].len() as int) =~= old_sys.sounds()[id]);
        }
    }
    assert(new_sys.sounds().dom() =~= old_sys.sounds().dom());
}

/// A pause of one track sends its sound a pause request and never a resume
/// request: where an event says the track paused, its sound had reported
/// playing, its history gains that report and then a pause request with the
/// system's fade, and the track is paused; otherwise the track is left as
/// it was and its sound, if it has one, only reported a state other than
/// playing.
pub proof fn lemma_pause_sends_pause<V>(
    old_sys: AudioSystem<V>,
    new_sys: AudioSystem<V>,
    old_t: Seq<NoiseTrack<V>>,
    new_t: Seq<NoiseTrack<V>>,
    id: usize,
    events: Seq<AudioEvent<V>>,
)
    requires
        toggle_done(old_sys, new_sys, old_t, new_t, id, true, events),
    ensures
        new_sys.sounds().dom() == old_sys.sounds().dom(),
        events.len() > 0 ==> {
            &&& old_sys.handle_ids().contains(id)
            &&& new_sys.sounds()[id] == old_sys.sounds()[id].push(SoundEvent::Reported(PlaybackState::Playing)).push(
                SoundEvent::Paused(old_sys.spec_fade()),
            )
            &&& events == seq![AudioEvent::<V>::TrackPaused(id)]
            &&& new_t == with_state(old_t, id as int, PlaybackState::Paused)
        },
        events.len() == 0 ==> new_t == old_t,
        events.len() == 0 && old_sys.handle_ids().contains(id) ==> gained_one_report_but(
            old_sys.sounds()[id],
            new_sys.sounds()[id],
            PlaybackState::Playing,
        ),
{
    AudioSystem::lemma_ids_are_sound_keys(old_sys);
    if old_sys.handle_ids().contains(id) {
        let s = choose|s: PlaybackState| #[trigger] toggled_one(old_sys, new_sys, old_t, new_t, id, true, events, s);
        let h = old_sys.sounds()[id].push(SoundEvent::Reported(s));
        if s != PlaybackState::Playing {
            assert(new_sys.sounds()[id] == h);
            assert(h.subrange(0, old_sys.sounds()[id].len() as int) =~= old_sys.sounds()[id]);
        }
    }
    assert(new_sys.sounds().dom() =~= old_sys.sounds().dom());
}

/// Resuming a track through a command sends its sound a resume request,
/// never a pause request: where the command reports that the track resumed,
/// the track is playing and its sound's history is its old one followed by
/// the paused report, the resume request with the system's fade, and one
/// fresh report; otherwise the track is left as it was.
pub proof fn lemma_resume_command_resumes<V, M>(
    id: usize,
    old_sys: AudioSystem<V>,
    new_sys: AudioSystem<V>,
    old_t: Seq<NoiseTrack<V>>,
    new_t: Seq<NoiseTrack<V>>,
    res: Result<Vec<AudioEvent<V>>, AppError>,
    mix: M,
) where M: Fn(V, V) -> Decibels
    requires
        command_done(AudioCommand::Resume(id), old_sys, new_sys, old_t, new_t, res, mix),
    ensures
        res is Ok,
        res->Ok_0@.len() == 0 ==> new_t == old_t,
        res->Ok_0@.len() > 0 ==> {
            &&& res->Ok_0@ == seq![AudioEvent::<V>::TrackResumed(id)]
            &&& new_t == with_state(old_t, id as int, PlaybackState::Playing)
            &&& new_sys.sounds().contains_key(id)
            &&& new_sys.sounds()[id].len() == old_sys.sounds()[id].len() + 3
            &&& new_sys.sounds()[id].subrange(0, old_sys.sounds()[id].len() + 2int) == old_sys.sounds()[id].push(
                SoundEvent::Reported(PlaybackState::Paused),
            ).push(SoundEvent::Resumed(old_sys.spec_fade()))
            &&& new_sys.sounds()[id].last() is Reported
        },
{
    let events = res->Ok_0@;
    let mid = choose|mid: AudioSystem<V>|
        #[trigger] toggle_done(old_sys, mid, old_t, new_t, id, false, events) && settles(mid, new_sys);
    lemma_resume_sends_resume(old_sys, mid, old_t, new_t, id, events);
    if events.len() > 0 {
        let reports = choose|reports: Map<usize, PlaybackState>| #[trigger] settled_by(mid, new_sys, reports);
        AudioSystem::lemma_ids_are_sound_keys(old_sys);
        assert(mid.sounds().contains_key(id));
        let h = mid.sounds()[id];
        assert(new_sys.sounds()[id] == h.push(SoundEvent::Reported(reports[id])));
        assert(new_sys.sounds()[id].subrange(0, old_sys.sounds()[id].len() + 2int) =~= h);
    }
}

/// Pausing a track through a command sends its sound a pause request, never
/// a resume request: where the command reports that the track paused, the
/// track is paused and its sound's history is its old one followed by the
/// playing report, the pause request with the system's fade, and one fresh
/// report; otherwise the track is left as it was.
pub proof fn lemma_pause_command_pauses<V, M>(
    id: usize,
    old_sys: AudioSystem<V>,
    new_sys: AudioSystem<V>,
    old_t: Seq<NoiseTrack<V>>,
    new_t: Seq<NoiseTrack<V>>,
    res: Result<Vec<AudioEvent<V>>, AppError>,
    mix: M,
) where M: Fn(V, V) -> Decibels
    requires
        command_done(AudioCommand::Pause(id), old_sys, new_sys, old_t, new_t, res, mix),
    ensures
        res is Ok,
        res->Ok_0@.len() == 0 ==> new_t == old_t,
        res->Ok_0@.len() > 0 ==> {
            &&& res->Ok_0@ == seq![AudioEvent::<V>::TrackPaused(id)]
            &&& new_t == with_state(old_t, id as int, PlaybackState::Paused)
            &&& new_sys.sounds().contains_key(id)
            &&& new_sys.sounds()[id].len() == old_sys.sounds()[id].len() + 3
            &&& new_sys.sounds()[id].subrange(0, old_sys.sounds()[id].len() + 2int) == old_sys.sounds()[id].push(
                SoundEvent::Reported(PlaybackState::Playing),
            ).push(SoundEvent::Paused(old_sys.spec_fade()))
            &&& new_sys.sounds()[id].last() is Reported
        },
{
    let events = res->Ok_0@;
    let mid = choose|mid: AudioSystem<V>|
        #[trigger] toggle_done(old_sys, mid, old_t, new_t, id, true, events) && settles(mid, new_sys);
    lemma_pause_sends_pause(old_sys, mid, old_t, new_t, id, events);
    if events.len() > 0 {
        let reports = choose|reports: Map<usize, PlaybackState>| #[trigger] settled_by(mid, new_sys, reports);
        AudioSystem::lemma_ids_are_sound_keys(old_sys);
        assert(mid.sounds().contains_key(id));
        let h = mid.sounds()[id];
        assert(new_sys.sounds()[id] == h.push(SoundEvent::Reported(reports[id])));
        assert(new_sys.sounds()[id].subrange(0, old_sys.sounds()[id].len() + 2int) =~= h);
    }
}

/// `new_h` is `old_h` followed only by reports and by requests equal to
/// `request`.
pub open spec fn extended_only_by(old_h: Seq<SoundEvent>, new_h: Seq<SoundEvent>, request: SoundEvent) -> bool {
    &&& old_h.len() <= new_h.len()
    &&& new_h.subrange(0, old_h.len() as int) == old_h
    &&& forall|k: int| old_h.len() <= k < new_h.len() ==> (#[trigger] new_h[k] is Reported || new_h[k] == request)
}

/// The last entry of track `id`'s sound's history is `request`.
pub open spec fn sent_last<V>(sys: AudioSystem<V>, id: usize, request: SoundEvent) -> bool {
    &&& sys.sounds().contains_key(id)
    &&& sys.sounds()[id].len() > 0
    &&& sys.sounds()[id].last() == request
}

/// Track `id`'s sound was sent `request` and then reported a state, last.
pub open spec fn sent_then_reported<V>(sys: AudioSystem<V>, id: usize, request: SoundEvent) -> bool {
    &&& sys.sounds().contains_key(id)
    &&& sys.sounds()[id].len() >= 2
    &&& sys.sounds()[id][sys.sounds()[id].len() - 2] == request
    &&& sys.sounds()[id].last() is Reported
}

/// Resuming all tracks sends each sound nothing but reports and resume
/// requests with the system's fade, never a pause request, and every track
/// reported as resumed has a sound that was sent a resume request last.
pub proof fn lemma_resume_all_sends_only_resumes<V>(
    old_sys: AudioSystem<V>,
    new_sys: AudioSystem<V>,
    old_t: Seq<NoiseTrack<V>>,
    new_t: Seq<NoiseTrack<V>>,
    events: Seq<AudioEvent<V>>,
)
    requires
        toggle_all_done(old_sys, new_sys, old_t, new_t, false, events),
    ensures
        forall|i: usize|
            #[trigger] old_sys.handle_ids().contains(i) ==> extended_only_by(
                old_sys.sounds()[i],
                new_sys.sounds()[i],
                SoundEvent::Resumed(old_sys.spec_fade()),
            ),
        forall|k: int|
            0 <= k < events.len() ==> #[trigger] events[k] is TrackResumed && old_sys.handle_ids().contains(
                events[k]->TrackResumed_0,
            ) && sent_last(new_sys, events[k]->TrackResumed_0, SoundEvent::Resumed(old_sys.spec_fade())),
{
    let fade = old_sys.spec_fade();
    AudioSystem::lemma_ids_are_sound_keys(old_sys);
    AudioSystem::lemma_ids_are_sound_keys(new_sys);
    assert forall|i: usize| #[trigger] old_sys.handle_ids().contains(i) implies extended_only_by(
        old_sys.sounds()[i],
        new_sys.sounds()[i],
        SoundEvent::Resumed(fade),
    ) by {
        let old_h = old_sys.sounds()[i];
        let new_h = new_sys.sounds()[i];
        assert(toggled_history(old_h, new_h, false, fade));
        let (s1, s2) = choose|s1: PlaybackState, s2: PlaybackState| #[trigger] toggled_via(old_h, new_h, false, fade, s1, s2);
        assert(new_h.subrange(0, old_h.len() as int) =~= old_h);
    }
    let moved = choose|moved: Seq<usize>|
        {
            &&& moved.no_duplicates()
            &&& forall|i: usize|
                #[trigger] moved.contains(i) <==> (old_sys.handle_ids().contains(i) && acted(
                    new_sys.sounds()[i],
                    false,
                    fade,
                ))
            &&& new_t == with_states(old_t, moved.to_set(), toggle_target(false))
            &&& events == events_for(moved, toggle_event::<V>(false))
        };
    assert forall|k: int| 0 <= k < events.len() implies #[trigger] events[k] is TrackResumed && old_sys.handle_ids().contains(
        events[k]->TrackResumed_0,
    ) && sent_last(new_sys, events[k]->TrackResumed_0, SoundEvent::Resumed(fade)) by {
        assert(moved.contains(moved[k]));
        assert(events[k] == AudioEvent::<V>::TrackResumed(moved[k]));
    }
}

/// Resuming all tracks through a command sends each sound nothing but
/// reports and resume requests with the system's fade, never a pause
/// request, and keeps every sound; every track the command reports as
/// resumed has a sound that was sent a resume request and then reported
/// once more.
pub proof fn lemma_resume_all_command_resumes<V, M>(
    old_sys: AudioSystem<V>,
    new_sys: AudioSystem<V>,
    old_t: Seq<NoiseTrack<V>>,
    new_t: Seq<NoiseTrack<V>>,
    res: Result<Vec<AudioEvent<V>>, AppError>,
    mix: M,
) where M: Fn(V, V) -> Decibels
    requires
        command_done(AudioCommand::ResumeAll, old_sys, new_sys, old_t, new_t, res, mix),
    ensures
        res is Ok,
        new_sys.handle_ids() == old_sys.handle_ids(),
        forall|i: usize|
            #[trigger] old_sys.handle_ids().contains(i) ==> extended_only_by(
                old_sys.sounds()[i],
                new_sys.sounds()[i],
                SoundEvent::Resumed(old_sys.spec_fade()),
            ),
        forall|k: int|
            0 <= k < res->Ok_0@.len() ==> #[trigger] res->Ok_0@[k] is TrackResumed && sent_then_reported(
                new_sys,
                res->Ok_0@[k]->TrackResumed_0,
                SoundEvent::Resumed(old_sys.spec_fade()),
            ),
{
    let events = res->Ok_0@;
    let fade = old_sys.spec_fade();
    let mid = choose|mid: AudioSystem<V>|
        #[trigger] toggle_all_done(old_sys, mid, old_t, new_t, false, events) && settles(mid, new_sys);
    lemma_resume_all_sends_only_resumes(old_sys, mid, old_t, new_t, events);
    lemma_global_state_is_settled(mid, new_sys);
    let reports = choose|reports: Map<usize, PlaybackState>| #[trigger] settled_by(mid, new_sys, reports);
    AudioSystem::lemma_ids_are_sound_keys(old_sys);
    AudioSystem::lemma_ids_are_sound_keys(mid);
    assert forall|i: usize| #[trigger] old_sys.handle_ids().contains(i) implies extended_only_by(
        old_sys.sounds()[i],
        new_sys.sounds()[i],
        SoundEvent::Resumed(fade),
    ) by {
        let old_h = old_sys.sounds()[i];
        let mid_h = mid.sounds()[i];
        let new_h = new_sys.sounds()[i];
        assert(extended_only_by(old_h, mid_h, SoundEvent::Resumed(fade)));
        assert(new_h == mid_h.push(SoundEvent::Reported(reports[i])));
        assert(new_h.subrange(0, old_h.len() as int) =~= mid_h.subrange(0, old_h.len() as int));
        assert forall|k: int| old_h.len() <= k < new_h.len() implies (#[trigger] new_h[k] is Reported || new_h[k]
            == SoundEvent::Resumed(fade)) by {
            if k < mid_h.len() {
                assert(new_h[k] == mid_h[k]);
            }
        }
    }
    assert forall|k: int| 0 <= k < events.len() implies #[trigger] events[k] is TrackResumed && sent_then_reported(
        new_sys,
        events[k]->TrackResumed_0,
        SoundEvent::Resumed(fade),
    ) by {
        let i = events[k]->TrackResumed_0;
        assert(sent_last(mid, i, SoundEvent::Resumed(fade)));
        assert(new_sys.sounds()[i] == mid.sounds()[i].push(SoundEvent::Reported(reports[i])));
    }
}

/// Pausing all tracks sends each sound nothing but reports and pause
/// requests with the system's fade, never a resume request, and every track
/// reported as paused has a sound that was sent a pause request last.
pub proof fn lemma_pause_all_sends_only_pauses<V>(
    old_sys: AudioSystem<V>,
    new_sys: AudioSystem<V>,
    old_t: Seq<NoiseTrack<V>>,
    new_t: Seq<NoiseTrack<V>>,
    events: Seq<AudioEvent<V>>,
)
    requires
        toggle_all_done(old_sys, new_sys, old_t, new_t, true, events),
    ensures
        forall|i: usize|
            #[trigger] old_sys.handle_ids().contains(i) ==> extended_only_by(
                old_sys.sounds()[i],
                new_sys.sounds()[i],
                SoundEvent::Paused(old_sys.spec_fade()),
            ),
        forall|k: int|
            0 <= k < events.len() ==> #[trigger] events[k] is TrackPaused && old_sys.handle_ids().contains(
                events[k]->TrackPaused_0,
            ) && sent_last(new_sys, events[k]->TrackPaused_0, SoundEvent::Paused(old_sys.spec_fade())),
{
    let fade = old_sys.spec_fade();
    AudioSystem::lemma_ids_are_sound_keys(old_sys);
    AudioSystem::lemma_ids_are_sound_keys(new_sys);
    assert forall|i: usize| #[trigger] old_sys.handle_ids().contains(i) implies extended_only_by(
        old_sys.sounds()[i],
        new_sys.sounds()[i],
        SoundEvent::Paused(fade),
    ) by {
        let old_h = old_sys.sounds()[i];
        let new_h = new_sys.sounds()[i];
        assert(toggled_history(old_h, new_h, true, fade));
        let (s1, s2) = choose|s1: PlaybackState, s2: PlaybackState| #[trigger] toggled_via(old_h, new_h, true, fade, s1, s2);
        assert(new_h.subrange(0, old_h.len() as int) =~= old_h);
    }
    let moved = choose|moved: Seq<usize>|
        {
            &&& moved.no_duplicates()
            &&& forall|i: usize|
                #[trigger] moved.contains(i) <==> (old_sys.handle_ids().contains(i) && acted(
                    new_sys.sounds()[i],
                    true,
                    fade,
                ))
            &&& new_t == with_states(old_t, moved.to_set(), toggle_target(true))
            &&& events == events_for(moved, toggle_event::<V>(true))
        };
    assert forall|k: int| 0 <= k < events.len() implies #[trigger] events[k] is TrackPaused && old_sys.handle_ids().contains(
        events[k]->TrackPaused_0,
    ) && sent_last(new_sys, events[k]->TrackPaused_0, SoundEvent::Paused(fade)) by {
        assert(moved.contains(moved[k]));
        assert(events[k] == AudioEvent::<V>::TrackPaused(moved[k]));
    }
}

/// Pausing all tracks through a command sends each sound nothing but reports
/// and pause requests with the system's fade, never a resume request, and
/// keeps every sound; every track the command reports as paused has a sound
/// that was sent a pause request and then reported once more.
pub proof fn lemma_pause_all_command_pauses<V, M>(
    old_sys: AudioSystem<V>,
    new_sys: AudioSystem<V>,
    old_t: Seq<NoiseTrack<V>>,
    new_t: Seq<NoiseTrack<V>>,
    res: Result<Vec<AudioEvent<V>>, AppError>,
    mix: M,
) where M: Fn(V, V) -> Decibels
    requires
        command_done(AudioCommand::PauseAll, old_sys, new_sys, old_t, new_t, res, mix),
    ensures
        res is Ok,
        new_sys.handle_ids() == old_sys.handle_ids(),
        forall|i: usize|
            #[trigger] old_sys.handle_ids().contains(i) ==> extended_only_by(
                old_sys.sounds()[i],
                new_sys.sounds()[i],
                SoundEvent::Paused(old_sys.spec_fade()),
            ),
        forall|k: int|
            0 <= k < res->Ok_0@.len() ==> #[trigger] res->Ok_0@[k] is TrackPaused && sent_then_reported(
                new_sys,
                res->Ok_0@[k]->TrackPaused_0,
                SoundEvent::Paused(old_sys.spec_fade()),
            ),
{
    let events = res->Ok_0@;
    let fade = old_sys.spec_fade();
    let mid = choose|mid: AudioSystem<V>|
        #[trigger] toggle_all_done(old_sys, mid, old_t, new_t, true, events) && settles(mid, new_sys);
    lemma_pause_all_sends_only_pauses(old_sys, mid, old_t, new_t, events);
    lemma_global_state_is_settled(mid, new_sys);
    let reports = choose|reports: Map<usize, PlaybackState>| #[trigger] settled_by(mid, new_sys, reports);
    AudioSystem::lemma_ids_are_sound_keys(old_sys);
    AudioSystem::lemma_ids_are_sound_keys(mid);
    assert forall|i: usize| #[trigger] old_sys.handle_ids().contains(i) implies extended_only_by(
        old_sys.sounds()[i],
        new_sys.sounds()[i],
        SoundEvent::Paused(fade),
    ) by {
        let old_h = old_sys.sounds()[i];
        let mid_h = mid.sounds()[i];
        let new_h = new_sys.sounds()[i];
        assert(extended_only_by(old_h, mid_h, SoundEvent::Paused(fade)));
        assert(new_h == mid_h.push(SoundEvent::Reported(reports[i])));
        assert(new_h.subrange(0, old_h.len() as int) =~= mid_h.subrange(0, old_h.len() as int));
        assert forall|k: int| old_h.len() <= k < new_h.len() implies (#[trigger] new_h[k] is Reported || new_h[k]
            == SoundEvent::Paused(fade)) by {
            if k < mid_h.len() {
                assert(new_h[k] == mid_h[k]);
            }
        }
    }
    assert forall|k: int| 0 <= k < events.len() implies #[trigger] events[k] is TrackPaused && sent_then_reported(
        new_sys,
        events[k]->TrackPaused_0,
        SoundEvent::Paused(fade),
    ) by {
        let i = events[k]->TrackPaused_0;
        assert(sent_last(mid, i, SoundEvent::Paused(fade)));
        assert(new_sys.sounds()[i] == mid.sounds()[i].push(SoundEvent::Reported(reports[i])));
    }
}

/// The audio system: one sound per track that has been started, the global
/// playback state, the master volume, the fade duration, and the record of
/// the sounds it has dropped.
pub struct AudioSystem<V> {
    playing_handles: HashMap<usize, Sound>,
    global_state: PlaybackState,
    master_volume: V,
    fade_duration: Duration,
    retired: Ghost<Seq<(usize, Seq<SoundEvent>)>>,
}

impl<V> AudioSystem<V> {
    /// The tracks that have a sound.
    pub closed spec fn handle_ids(&self) -> Set<usize> {
        self.playing_handles@.dom()
    }

    /// The history of each track's sound.
    pub closed spec fn sounds(&self) -> Map<usize, Seq<SoundEvent>> {
        Map::new(
            |i: usize| self.playing_handles@.contains_key(i),
            |i: usize| self.playing_handles@[i].history(),
        )
    }

    /// The sounds dropped so far, in order: each track with its sound's
    /// history.
    pub closed spec fn spec_retired(&self) -> Seq<(usize, Seq<SoundEvent>)> {
        self.retired@
    }

    /// The global playback state.
    pub closed spec fn spec_global_state(&self) -> PlaybackState {
        self.global_state
    }

    /// The master volume.
    pub closed spec fn spec_master_volume(&self) -> V {
        self.master_volume
    }

    /// The duration of the fades of pauses, resumes, stops and volume changes.
    pub closed spec fn spec_fade_duration(&self) -> Duration {
        self.fade_duration
    }

    /// The fade of pauses, resumes, stops and volume changes: linear over
    /// the fade duration.
    pub open spec fn spec_fade(&self) -> Fade {
        fade_of(self.spec_fade_duration())
    }

    /// Every track with a handle is one of the `n` tracks.
    pub open spec fn handles_within(&self, n: int) -> bool {
        forall|id: usize| #[trigger] self.handle_ids().contains(id) ==> id < n
    }

    /// The tracks with a sound are those with a sound history.
    pub proof fn lemma_ids_are_sound_keys(sys: Self)
        ensures
            sys.sounds().dom() == sys.handle_ids(),
    {
        assert(sys.sounds().dom() =~= sys.handle_ids());
    }
}

impl<V: Copy> AudioSystem<V> {
    /// An audio system with no track started.
    pub fn new(master_volume: V, fade_duration: Duration) -> (sys: Self)
        ensures
            sys.handle_ids() == Set::<usize>::empty(),
            sys.spec_retired() == Seq::<(usize, Seq<SoundEvent>)>::empty(),
            sys.spec_global_state() == PlaybackState::Stopped,
            sys.spec_master_volume() == master_volume,
            sys.spec_fade_duration() == fade_duration,
    {
        AudioSystem {
            playing_handles: HashMap::new(),
            global_state: PlaybackState::Stopped,
            master_volume,
            fade_duration,
            retired: Ghost(Seq::empty()),
        }
    }

    /// The fade the system gives its sounds.
    fn fade(&self) -> (fade: Fade)
        ensures
            fade == self.spec_fade(),
    {
        Fade { duration: self.fade_duration, easing: FadeEasing::Linear }
    }

    /// The ids of the tracks with a playback handle, each once, in no
    /// particular order.
    fn handle_id_list(&self) -> (ids: Vec<usize>)
        ensures
            ids@.to_set() == self.handle_ids(),
            ids@.no_duplicates(),
    {
        let mut ids: Vec<usize> = Vec::new();
        for id in it: self.playing_handles.keys()
            invariant
                ids@.len() == it.index(),
                forall|k: int| 0 <= k < ids@.len() ==> ids@[k] == *it.seq()[k],
        {
            ids.push(*id);
        }
        proof {
            let s = vstd::std_specs::hash::spec_keys_iter(&self.playing_handles).remaining();
            assert(ids@ =~= s.unref());
        }
        ids
    }

    /// The global playback state.
    pub fn global_state(&self) -> (state: PlaybackState)
        ensures
            state == self.spec_global_state(),
    {
        self.global_state
    }

    /// The number of tracks whose sound reports that it plays: each sound
    /// reports once, the reports are recorded, and the playing ones counted.
    pub fn active_tracks_count(&mut self) -> (n: usize)
        ensures
            exists|order: Seq<usize>, states: Seq<PlaybackState>|
                #[trigger] recorded_reports(*old(self), *final(self), order, states) && n == count_state(
                    states,
                    PlaybackState::Playing,
                ),
    {
        let (_ids, states) = self.check_all();
        let counts = tally(&states);
        counts.0
    }

    /// Has each sound report its state once, recorded in its history;
    /// returns the tracks and their reports, in the same order.
    fn check_all(&mut self) -> (reports: (Vec<usize>, Vec<PlaybackState>))
        ensures
            recorded_reports(*old(self), *final(self), reports.0@, reports.1@),
    {
        let ghost old_sys = *self;
        let ids = self.handle_id_list();
        let mut states: Vec<PlaybackState> = Vec::new();
        let mut k: usize = 0;
        proof {
            AudioSystem::lemma_ids_are_sound_keys(old_sys);
        }
        while k < ids.len()
            invariant
                0 <= k <= ids@.len(),
                ids@.to_set() == old_sys.handle_ids(),
                ids@.no_duplicates(),
                states@.len() == k,
                self.handle_ids() == old_sys.handle_ids(),
                old_sys.sounds().dom() == old_sys.handle_ids(),
                self.spec_retired() == old_sys.spec_retired(),
                self.global_state == old_sys.global_state,
                self.master_volume == old_sys.master_volume,
                self.fade_duration == old_sys.fade_duration,
                forall|j: int|
                    0 <= j < k ==> self.sounds()[#[trigger] ids@[j]] == old_sys.sounds()[ids@[j]].push(
                        SoundEvent::Reported(states@[j]),
                    ),
                forall|x: usize|
                    #[trigger] old_sys.handle_ids().contains(x) && !ids@.take(k as int).contains(x) ==> self.sounds()[x]
                        == old_sys.sounds()[x],
            decreases ids@.len() - k,
        {
            let id = ids[k];
            let ghost sys0 = *self;
            proof {
                assert(ids@.to_set().contains(id));
                if ids@.take(k as int).contains(id) {
                    let j = choose|j: int| 0 <= j < k && #[trigger] ids@.take(k as int)[j] == id;
                    assert(ids@[j] == ids@[k as int]);
                }
                assert(self.sounds()[id] == old_sys.sounds()[id]);
            }
            let state = match self.playing_handles.remove(&id) {
                Some(mut sound) => {
                    let s = sound.check();
                    self.playing_handles.insert(id, sound);
                    s
                },
                None => {
                    assert(false);
                    PlaybackState::Stopped
                },
            };
            states.push(state);
            proof {
                assert(self.sounds() =~= sys0.sounds().insert(
                    id,
                    old_sys.sounds()[id].push(SoundEvent::Reported(state)),
                ));
                assert(self.handle_ids() =~= old_sys.handle_ids());
                assert(ids@.take(k + 1) =~= ids@.take(k as int).push(id));
                assert forall|j: int| 0 <= j < k + 1 implies self.sounds()[#[trigger] ids@[j]]
                    == old_sys.sounds()[ids@[j]].push(SoundEvent::Reported(states@[j])) by {
                    if j < k {
                        assert(ids@[j] != id) by {
                            assert(ids@[j] == ids@.take(k as int)[j]);
                        }
                        assert(self.sounds()[ids@[j]] == sys0.sounds()[ids@[j]]);
                    }
                }
                assert forall|x: usize|
                    #[trigger] old_sys.handle_ids().contains(x) && !ids@.take(k + 1).contains(x) implies self.sounds()[x]
                    == old_sys.sounds()[x] by {
                    vstd::seq_lib::lemma_seq_contains_after_push(ids@.take(k as int), id, x);
                    assert(self.sounds()[x] == sys0.sounds()[x]);
                }
            }
            k = k + 1;
        }
        proof {
            AudioSystem::lemma_ids_are_sound_keys(*self);
            assert(self.sounds().dom() =~= old_sys.sounds().dom());
        }
        (ids, states)
    }

    /// The master volume.
    pub fn master_volume(&self) -> (v: V)
        ensures
            v == self.spec_master_volume(),
    {
        self.master_volume
    }

    /// Sets the master volume; nothing else changes.
    pub fn set_master_volume(&mut self, volume: V)
        ensures
            final(self).spec_master_volume() == volume,
            final(self).handle_ids() == old(self).handle_ids(),
            final(self).sounds() == old(self).sounds(),
            final(self).spec_retired() == old(self).spec_retired(),
            final(self).spec_global_state() == old(self).spec_global_state(),
            final(self).spec_fade_duration() == old(self).spec_fade_duration(),
    {
        self.master_volume = volume;
        assert(self.sounds() =~= old(self).sounds());
    }

    /// The state that the track's sound reports, the report recorded in its
    /// history; stopped, with nothing recorded, where the track has no sound.
    pub fn track_state(&mut self, track_id: usize) -> (state: PlaybackState)
        ensures
            !old(self).handle_ids().contains(track_id) ==> state == PlaybackState::Stopped && *final(self)
                == *old(self),
            old(self).handle_ids().contains(track_id) ==> recorded_report(*old(self), *final(self), track_id, state),
            old(self).handle_ids().contains(track_id) ==> last_reported(*final(self), track_id, state),
            final(self).handle_ids() == old(self).handle_ids(),
    {
        if !self.playing_handles.contains_key(&track_id) {
            return PlaybackState::Stopped;
        }
        match self.playing_handles.remove(&track_id) {
            Some(mut sound) => {
                let state = sound.check();
                self.playing_handles.insert(track_id, sound);
                assert(self.sounds() =~= old(self).sounds().insert(
                    track_id,
                    old(self).sounds()[track_id].push(SoundEvent::Reported(state)),
                ));
                assert(self.handle_ids() =~= old(self).handle_ids());
                assert(recorded_report(*old(self), *self, track_id, state));
                state
            },
            None => {
                assert(false);
                PlaybackState::Stopped
            },
        }
    }

    /// Whether the track's sound reports that it plays, the report recorded
    /// in its history; false, with nothing recorded, where the track has no
    /// sound.
    pub fn is_track_playing(&mut self, track_id: usize) -> (playing: bool)
        ensures
            !old(self).handle_ids().contains(track_id) ==> !playing && *final(self) == *old(self),
            old(self).handle_ids().contains(track_id) ==> exists|state: PlaybackState|
                #[trigger] recorded_report(*old(self), *final(self), track_id, state) && playing == (state
                    == PlaybackState::Playing),
    {
        if !self.playing_handles.contains_key(&track_id) {
            return false;
        }
        match self.playing_handles.remove(&track_id) {
            Some(mut sound) => {
                let state = sound.check();
                self.playing_handles.insert(track_id, sound);
                assert(self.sounds() =~= old(self).sounds().insert(
                    track_id,
                    old(self).sounds()[track_id].push(SoundEvent::Reported(state)),
                ));
                assert(recorded_report(*old(self), *self, track_id, state));
                state == PlaybackState::Playing
            },
            None => {
                assert(false);
                false
            },
        }
    }

    /// Pauses (`pause`) the track if its sound reports that it plays, or
    /// resumes it if its sound reports that it is paused.
    fn toggle_track(&mut self, track_id: usize, tracks: &mut Vec<NoiseTrack<V>>, pause: bool) -> (events: Vec<
        AudioEvent<V>,
    >)
        requires
            old(self).handle_ids().contains(track_id) ==> track_id < old(tracks)@.len(),
        ensures
            toggle_done(*old(self), *final(self), old(tracks)@, final(tracks)@, track_id, pause, events@),
            final(self).global_state == old(self).global_state,
            final(self).master_volume == old(self).master_volume,
            final(self).fade_duration == old(self).fade_duration,
    {
        let mut events: Vec<AudioEvent<V>> = Vec::new();
        let fade = self.fade();
        let ghost mut witness = PlaybackState::Stopped;
        match self.playing_handles.remove(&track_id) {
            Some(mut sound) => {
                let ghost h0 = sound.history();
                let state = sound.check();
                proof {
                    witness = state;
                }
                let ghost h1 = sound.history();
                if toggle_applies(state, pause) {
                    if pause {
                        pause_sound(&mut sound, fade);
                        tracks[track_id].state = PlaybackState::Paused;
                        events.push(AudioEvent::TrackPaused(track_id));
                    } else {
                        resume_sound(&mut sound, fade);
                        tracks[track_id].state = PlaybackState::Playing;
                        events.push(AudioEvent::TrackResumed(track_id));
                    }
                    assert(events@ =~= seq![(toggle_event::<V>(pause))(track_id)]);
                    assert(sound.history() == h1.push(toggle_request(pause, fade)));
                } else {
                    assert(events@ =~= Seq::<AudioEvent<V>>::empty());
                }
                self.playing_handles.insert(track_id, sound);
                proof {
                    assert(h0 == old(self).sounds()[track_id]);
                    assert(h1 == old(self).sounds()[track_id].push(SoundEvent::Reported(state)));
                    assert(self.sounds() =~= old(self).sounds().insert(track_id, sound.history()));
                    assert(self.handle_ids() =~= old(self).handle_ids());
                    if state == toggle_wanted(pause) {
                        assert(tracks@ =~= with_state(old(tracks)@, track_id as int, toggle_target(pause)));
                    }
                }
            },
            None => {
                assert(self.sounds() =~= old(self).sounds());
                assert(events@ =~= Seq::<AudioEvent<V>>::empty());
            },
        }
        proof {
            if old(self).handle_ids().contains(track_id) {
                assert(toggled_one(*old(self), *self, old(tracks)@, tracks@, track_id, pause, events@, witness));
            }
        }
        events
    }

    /// Asks the track's sound, if it has one, to stop, and drops it.
    fn stop_track(&mut self, track_id: usize, tracks: &mut Vec<NoiseTrack<V>>) -> (events: Vec<AudioEvent<V>>)
        requires
            old(self).handle_ids().contains(track_id) ==> track_id < old(tracks)@.len(),
        ensures
            stop_done(*old(self), *final(self), old(tracks)@, final(tracks)@, track_id, events@),
            final(self).global_state == old(self).global_state,
            final(self).master_volume == old(self).master_volume,
            final(self).fade_duration == old(self).fade_duration,
    {
        let mut events: Vec<AudioEvent<V>> = Vec::new();
        let fade = self.fade();
        match self.playing_handles.remove(&track_id) {
            Some(mut sound) => {
                stop_sound(&mut sound, fade);
                self.retired = Ghost(self.retired@.push((track_id, sound.history())));
                tracks[track_id].state = PlaybackState::Stopped;
                events.push(AudioEvent::TrackStopped(track_id));
                assert(events@ =~= seq![AudioEvent::<V>::TrackStopped(track_id)]);
                assert(self.sounds() =~= old(self).sounds().remove(track_id));
            },
            None => {
                assert(self.sounds() =~= old(self).sounds());
                assert(events@ =~= Seq::<AudioEvent<V>>::empty());
            },
        }
        events
    }

    /// Starts the track from the beginning with a handle from `start`, which
    /// is handed the track's path, its volume and the master volume.
    fn start_new_track<S>(
        &mut self,
        track_id: usize,
        tracks: &mut Vec<NoiseTrack<V>>,
        start: &S,
    ) -> (res: Result<Vec<AudioEvent<V>>, AppError>) where
        S: Fn(String, V, V) -> Result<SoundHandle, AppError>,

        requires
            track_id < old(tracks)@.len(),
            !old(self).handle_ids().contains(track_id),
            forall|p: String, a: V, b: V| #[trigger] start.requires((p, a, b)),
        ensures
            final(self).master_volume == old(self).master_volume,
            final(self).fade_duration == old(self).fade_duration,
            final(self).global_state == old(self).global_state,
            final(self).spec_retired() == old(self).spec_retired(),
            match res {
                Ok(events) => {
                    &&& final(self).sounds() == old(self).sounds().insert(track_id, Seq::<SoundEvent>::empty())
                    &&& final(tracks)@ == with_state(old(tracks)@, track_id as int, PlaybackState::Playing)
                    &&& events@ == seq![AudioEvent::<V>::TrackStarted(track_id)]
                    &&& exists|p: String, h: SoundHandle|
                        p@ == old(tracks)@[track_id as int].path@ && start.ensures(
                            (p, old(tracks)@[track_id as int].volume_level, old(self).master_volume),
                            Ok(h),
                        )
                },
                Err(e) => {
                    &&& final(self).sounds() == old(self).sounds()
                    &&& final(tracks)@ == old(tracks)@
                    &&& exists|p: String|
                        p@ == old(tracks)@[track_id as int].path@ && start.ensures(
                            (p, old(tracks)@[track_id as int].volume_level, old(self).master_volume),
                            Err(e),
                        )
                },
            },
    {
        let path = tracks[track_id].path.clone();
        let volume = tracks[track_id].volume_level;
        let ghost p = path;
        match start(path, volume, self.master_volume) {
            Ok(handle) => {
                let ghost h = handle;
                assert(p@ == old(tracks)@[track_id as int].path@);
                self.playing_handles.insert(track_id, Sound::new(handle));
                tracks[track_id].state = PlaybackState::Playing;
                let mut events: Vec<AudioEvent<V>> = Vec::new();
                events.push(AudioEvent::TrackStarted(track_id));
                assert(events@ =~= seq![AudioEvent::<V>::TrackStarted(track_id)]);
                assert(self.sounds() =~= old(self).sounds().insert(track_id, Seq::<SoundEvent>::empty()));
                Ok(events)
            },
            Err(e) => {
                assert(p@ == old(tracks)@[track_id as int].path@);
                assert(self.sounds() =~= old(self).sounds());
                Err(e)
            },
        }
    }

    /// Plays the track: its sound, if it has one, reports its state, and
    /// `play_step` decides: pause it, resume it, or drop it and start the
    /// track anew with a handle from `start`.
    fn play_track<S>(
        &mut self,
        track_id: usize,
        tracks: &mut Vec<NoiseTrack<V>>,
        start: &S,
    ) -> (res: Result<Vec<AudioEvent<V>>, AppError>) where
        S: Fn(String, V, V) -> Result<SoundHandle, AppError>,

        requires
            forall|p: String, a: V, b: V| #[trigger] start.requires((p, a, b)),
        ensures
            final(self).master_volume == old(self).master_volume,
            final(self).fade_duration == old(self).fade_duration,
            track_id >= old(tracks)@.len() ==> {
                &&& res matches Err(e) && is_out_of_bounds_error(e)
                &&& final(self).sounds() == old(self).sounds()
                &&& final(self).spec_retired() == old(self).spec_retired()
                &&& final(self).global_state == old(self).global_state
                &&& final(tracks)@ == old(tracks)@
            },
            track_id < old(tracks)@.len() ==> match res {
                Ok(events) => {
                    &&& play_done(*old(self), *final(self), old(tracks)@, final(tracks)@, track_id, events@)
                    &&& final(self).global_state == old(self).global_state
                    &&& events@ == seq![AudioEvent::<V>::TrackStarted(track_id)] ==> exists|
                        p: String,
                        h: SoundHandle,
                    |
                        p@ == old(tracks)@[track_id as int].path@ && start.ensures(
                            (p, old(tracks)@[track_id as int].volume_level, old(self).master_volume),
                            Ok(h),
                        )
                },
                Err(e) => {
                    &&& play_failed(*old(self), *final(self), old(tracks)@, final(tracks)@, track_id)
                    &&& final(self).global_state == old(self).global_state
                    &&& exists|p: String|
                        p@ == old(tracks)@[track_id as int].path@ && start.ensures(
                            (p, old(tracks)@[track_id as int].volume_level, old(self).master_volume),
                            Err(e),
                        )
                },
            },
    {
        if track_id >= tracks.len() {
            return Err(AppError::Audio(AudioError::PlaybackError(String::from_str("Track index out of bounds"))));
        }
        let fade = self.fade();
        let ghost old_sys = *self;
        let (reported, held) = match self.playing_handles.remove(&track_id) {
            Some(mut sound) => {
                let state = sound.check();
                (Some(state), Some(sound))
            },
            None => (None, None),
        };
        let ghost mid_sounds = self.sounds();
        assert(mid_sounds =~= old_sys.sounds().remove(track_id));
        assert(reports_on(old_sys, track_id, reported));
        assert(held matches Some(s) ==> s.history() == reported_history(old_sys, track_id, reported));
        let events: Vec<AudioEvent<V>>;
        match play_step(reported) {
            PlayStep::Pause => {
                let mut sound = match held {
                    Some(sound) => sound,
                    None => {
                        assert(false);
                        return Err(AppError::Audio(AudioError::HandleCreationFailed));
                    },
                };
                pause_sound(&mut sound, fade);
                tracks[track_id].state = PlaybackState::Paused;
                self.playing_handles.insert(track_id, sound);
                let mut ev: Vec<AudioEvent<V>> = Vec::new();
                ev.push(AudioEvent::TrackPaused(track_id));
                assert(ev@ =~= seq![AudioEvent::<V>::TrackPaused(track_id)]);
                assert(ev@ != seq![AudioEvent::<V>::TrackStarted(track_id)]) by {
                    assert(seq![AudioEvent::<V>::TrackStarted(track_id)][0] != ev@[0]);
                }
                assert(self.sounds() =~= old_sys.sounds().insert(
                    track_id,
                    reported_history(old_sys, track_id, reported).push(SoundEvent::Paused(fade)),
                ));
                events = ev;
            },
            PlayStep::Resume => {
                let mut sound = match held {
                    Some(sound) => sound,
                    None => {
                        assert(false);
                        return Err(AppError::Audio(AudioError::HandleCreationFailed));
                    },
                };
                resume_sound(&mut sound, fade);
                tracks[track_id].state = PlaybackState::Playing;
                self.playing_handles.insert(track_id, sound);
                let mut ev: Vec<AudioEvent<V>> = Vec::new();
                ev.push(AudioEvent::TrackResumed(track_id));
                assert(ev@ =~= seq![AudioEvent::<V>::TrackResumed(track_id)]);
                assert(ev@ != seq![AudioEvent::<V>::TrackStarted(track_id)]) by {
                    assert(seq![AudioEvent::<V>::TrackStarted(track_id)][0] != ev@[0]);
                }
                assert(self.sounds() =~= old_sys.sounds().insert(
                    track_id,
                    reported_history(old_sys, track_id, reported).push(SoundEvent::Resumed(fade)),
                ));
                events = ev;
            },
            PlayStep::Restart => {
                match held {
                    Some(sound) => {
                        self.retired = Ghost(self.retired@.push((track_id, sound.history())));
                    },
                    None => {},
                }
                assert(self.spec_retired() == retired_after(old_sys, track_id, reported));
                assert(!self.handle_ids().contains(track_id));
                let started = self.start_new_track(track_id, tracks, start);
                match started {
                    Ok(ev) => {
                        assert(self.sounds() =~= old_sys.sounds().insert(track_id, Seq::<SoundEvent>::empty()));
                        events = ev;
                    },
                    Err(e) => {
                        assert(self.sounds() =~= old_sys.sounds().remove(track_id));
                        return Err(e);
                    },
                }
            },
        }
        Ok(events)
    }

    /// Sets the track's volume, and sends its sound, where it has one, the
    /// volume that `mix` gives from the track's new volume and the master
    /// volume.
    fn set_track_volume<M>(
        &mut self,
        track_id: usize,
        volume: V,
        tracks: &mut Vec<NoiseTrack<V>>,
        mix: &M,
    ) -> (events: Vec<AudioEvent<V>>) where M: Fn(V, V) -> Decibels,

        requires
            track_id < old(tracks)@.len(),
            forall|a: V, b: V| #[trigger] mix.requires((a, b)),
        ensures
            set_volume_done(*old(self), *final(self), old(tracks)@, final(tracks)@, track_id, volume, *mix, events@),
            final(self).handle_ids() == old(self).handle_ids(),
            final(self).global_state == old(self).global_state,
            final(self).master_volume == old(self).master_volume,
            final(self).fade_duration == old(self).fade_duration,
    {
        let fade = self.fade();
        match self.playing_handles.remove(&track_id) {
            Some(mut sound) => {
                let effective = mix(volume, self.master_volume);
                set_sound_volume(&mut sound, effective, fade);
                self.playing_handles.insert(track_id, sound);
                assert(self.handle_ids() =~= old(self).handle_ids());
                assert(self.sounds() =~= old(self).sounds().insert(
                    track_id,
                    old(self).sounds()[track_id].push(SoundEvent::VolumeSet(effective, fade)),
                ));
            },
            None => {
                assert(self.sounds() =~= old(self).sounds());
            },
        }
        tracks[track_id].volume_level = volume;
        let mut events: Vec<AudioEvent<V>> = Vec::new();
        events.push(AudioEvent::VolumeChanged { track_id, volume });
        assert(events@ =~= seq![AudioEvent::VolumeChanged { track_id, volume }]);
        events
    }

    /// Asks every sound to stop and drops it.
    fn stop_all_tracks(&mut self, tracks: &mut Vec<NoiseTrack<V>>) -> (events: Vec<AudioEvent<V>>)
        requires
            old(self).handles_within(old(tracks)@.len() as int),
        ensures
            stop_all_done(*old(self), *final(self), old(tracks)@, final(tracks)@, events@),
            final(self).global_state == PlaybackState::Stopped,
            final(self).master_volume == old(self).master_volume,
            final(self).fade_duration == old(self).fade_duration,
    {
        let ids = self.handle_id_list();
        let ghost old_sys = *self;
        let ghost old_ids = self.handle_ids();
        let ghost old_t = tracks@;
        let n_tracks = tracks.len();
        assert(old_t.len() == n_tracks);
        let mut events: Vec<AudioEvent<V>> = Vec::new();
        let mut k: usize = 0;
        proof {
            lemma_with_states_empty(old_t, PlaybackState::Stopped);
            assert(ids@.take(0).to_set() =~= Set::<usize>::empty());
            assert(events_for(ids@.take(0), |id: usize| AudioEvent::<V>::TrackStopped(id)) =~= events@);
            assert(stopped_records(old_sys, ids@.take(0)) =~= Seq::<(usize, Seq<SoundEvent>)>::empty());
            assert(self.spec_retired() =~= old_sys.spec_retired() + stopped_records(old_sys, ids@.take(0)));
        }
        while k < ids.len()
            invariant
                0 <= k <= ids@.len(),
                ids@.to_set() == old_ids,
                ids@.no_duplicates(),
                old_ids == old_sys.handle_ids(),
                forall|id: usize| #[trigger] old_ids.contains(id) ==> id < old_t.len(),
                old_t.len() <= usize::MAX,
                tracks@.len() == old_t.len(),
                forall|x: usize|
                    #[trigger] self.handle_ids().contains(x) <==> (old_ids.contains(x)
                        && !ids@.take(k as int).contains(x)),
                forall|x: usize| #[trigger] self.handle_ids().contains(x) ==> self.sounds()[x] == old_sys.sounds()[x],
                tracks@ == with_states(old_t, ids@.take(k as int).to_set(), PlaybackState::Stopped),
                events@ == events_for(ids@.take(k as int), |id: usize| AudioEvent::<V>::TrackStopped(id)),
                self.spec_retired() == old_sys.spec_retired() + stopped_records(old_sys, ids@.take(k as int)),
                self.master_volume == old_sys.master_volume,
                self.fade_duration == old_sys.fade_duration,
            decreases ids@.len() - k,
        {
            let id = ids[k];
            proof {
                assert(ids@.to_set().contains(id));
                if ids@.take(k as int).contains(id) {
                    let j = choose|j: int| 0 <= j < k && #[trigger] ids@.take(k as int)[j] == id;
                    assert(ids@[j] == ids@[k as int]);
                }
                assert(self.handle_ids().contains(id));
                AudioSystem::lemma_ids_are_sound_keys(*self);
            }
            let ghost before = *self;
            let mut ev = self.stop_track(id, tracks);
            events.append(&mut ev);
            proof {
                let taken = ids@.take(k as int);
                assert(ids@.take(k + 1) =~= taken.push(id));
                taken.lemma_push_to_set_commute(id);
                lemma_with_states_insert(old_t, taken.to_set(), id, PlaybackState::Stopped);
                assert(events_for(taken.push(id), |id: usize| AudioEvent::<V>::TrackStopped(id))
                    =~= events_for(taken, |id: usize| AudioEvent::<V>::TrackStopped(id)).push(
                    AudioEvent::<V>::TrackStopped(id),
                ));
                assert(stopped_records(old_sys, taken.push(id)) =~= stopped_records(old_sys, taken).push(
                    (id, old_sys.sounds()[id].push(SoundEvent::Stopped(old_sys.spec_fade()))),
                ));
                assert(before.sounds()[id] == old_sys.sounds()[id]);
                assert(self.spec_retired() =~= old_sys.spec_retired() + stopped_records(old_sys, taken.push(id)));
                AudioSystem::lemma_ids_are_sound_keys(before);
                AudioSystem::lemma_ids_are_sound_keys(*self);
                assert forall|x: usize| #[trigger] self.handle_ids().contains(x) <==> (old_ids.contains(x)
                    && !ids@.take(k + 1).contains(x)) by {
                    vstd::seq_lib::lemma_seq_contains_after_push(taken, id, x);
                }
                assert forall|x: usize| #[trigger] self.handle_ids().contains(x) implies self.sounds()[x]
                    == old_sys.sounds()[x] by {
                    assert(before.handle_ids().contains(x));
                }
            }
            k = k + 1;
        }
        proof {
            assert(ids@.take(ids@.len() as int) == ids@);
            assert(self.handle_ids() =~= Set::<usize>::empty());
        }
        self.global_state = PlaybackState::Stopped;
        events
    }

    /// Pauses (`pause` true) or resumes every track whose sound reports that
    /// it plays (resp. is paused), each through the single pause or resume.
    fn toggle_all_tracks(&mut self, tracks: &mut Vec<NoiseTrack<V>>, pause: bool) -> (events: Vec<AudioEvent<V>>)
        requires
            old(self).handles_within(old(tracks)@.len() as int),
        ensures
            toggle_all_done(*old(self), *final(self), old(tracks)@, final(tracks)@, pause, events@),
            final(self).global_state == old(self).global_state,
            final(self).master_volume == old(self).master_volume,
            final(self).fade_duration == old(self).fade_duration,
    {
        let ids = self.handle_id_list();
        let ghost old_sys = *self;
        let ghost old_ids = self.handle_ids();
        let ghost old_t = tracks@;
        let ghost fade = old_sys.spec_fade();
        let n_tracks = tracks.len();
        assert(old_t.len() == n_tracks);
        let ghost to = toggle_target(pause);
        let ghost event = toggle_event::<V>(pause);
        let ghost mut moved: Seq<usize> = Seq::empty();
        let mut events: Vec<AudioEvent<V>> = Vec::new();
        let mut k: usize = 0;
        proof {
            lemma_with_states_empty(old_t, to);
            assert(moved.to_set() =~= Set::<usize>::empty());
            assert(events_for(moved, event) =~= events@);
        }
        while k < ids.len()
            invariant
                0 <= k <= ids@.len(),
                ids@.to_set() == old_ids,
                ids@.no_duplicates(),
                old_ids == old_sys.handle_ids(),
                fade == old_sys.spec_fade(),
                forall|id: usize| #[trigger] old_ids.contains(id) ==> id < old_t.len(),
                old_t.len() <= usize::MAX,
                tracks@.len() == old_t.len(),
                self.handle_ids() == old_ids,
                self.spec_retired() == old_sys.spec_retired(),
                to == toggle_target(pause),
                event == toggle_event::<V>(pause),
                forall|x: usize|
                    #[trigger] old_ids.contains(x) ==> if ids@.take(k as int).contains(x) {
                        toggled_history(old_sys.sounds()[x], self.sounds()[x], pause, fade)
                    } else {
                        self.sounds()[x] == old_sys.sounds()[x]
                    },
                moved.no_duplicates(),
                forall|x: usize|
                    #[trigger] moved.contains(x) <==> (ids@.take(k as int).contains(x) && acted(
                        self.sounds()[x],
                        pause,
                        fade,
                    )),
                tracks@ == with_states(old_t, moved.to_set(), to),
                events@ == events_for(moved, event),
                self.master_volume == old_sys.master_volume,
                self.fade_duration == old_sys.fade_duration,
                self.global_state == old_sys.global_state,
            decreases ids@.len() - k,
        {
            let id = ids[k];
            let ghost taken = ids@.take(k as int);
            let ghost moved_before = moved;
            let ghost sys0 = *self;
            proof {
                assert(ids@.take(k + 1) =~= taken.push(id));
                assert(ids@.to_set().contains(id));
                if taken.contains(id) {
                    let j = choose|j: int| 0 <= j < k && #[trigger] taken[j] == id;
                    assert(ids@[j] == ids@[k as int]);
                }
                assert(!moved.contains(id));
                assert(self.sounds()[id] == old_sys.sounds()[id]);
            }
            let pre = match self.playing_handles.remove(&id) {
                Some(mut sound) => {
                    let s = sound.check();
                    self.playing_handles.insert(id, sound);
                    s
                },
                None => {
                    assert(false);
                    PlaybackState::Stopped
                },
            };
            proof {
                assert(self.sounds() =~= sys0.sounds().insert(id, old_sys.sounds()[id].push(SoundEvent::Reported(pre))));
                assert(self.handle_ids() =~= old_ids);
            }
            let ghost sys1 = *self;
            let ghost t1 = tracks@;
            if toggle_applies(pre, pause) {
                let mut ev = self.toggle_track(id, tracks, pause);
                let ghost ev_seq = ev@;
                events.append(&mut ev);
                proof {
                    let h1 = sys1.sounds()[id];
                    let s2 = choose|s: PlaybackState| toggled_one(sys1, *self, t1, tracks@, id, pause, ev_seq, s);
                    AudioSystem::lemma_ids_are_sound_keys(sys1);
                    AudioSystem::lemma_ids_are_sound_keys(*self);
                    assert(self.sounds().dom() =~= sys1.sounds().dom());
                    if s2 == toggle_wanted(pause) {
                        lemma_with_states_insert(old_t, moved.to_set(), id, to);
                        moved.lemma_push_to_set_commute(id);
                        assert(events_for(moved.push(id), event) =~= events_for(moved, event).push(event(id)));
                        moved = moved.push(id);
                        assert(toggled_via(old_sys.sounds()[id], self.sounds()[id], pause, fade, pre, s2));
                        assert(toggled_history(old_sys.sounds()[id], self.sounds()[id], pause, fade));
                        assert(acted(self.sounds()[id], pause, fade));
                    } else {
                        assert(events@ =~= events_for(moved, event));
                        assert(toggled_via(old_sys.sounds()[id], self.sounds()[id], pause, fade, pre, s2));
                        assert(toggled_history(old_sys.sounds()[id], self.sounds()[id], pause, fade));
                        assert(!acted(self.sounds()[id], pause, fade));
                    }
                }
            } else {
                proof {
                    assert(toggled_via(old_sys.sounds()[id], self.sounds()[id], pause, fade, pre, pre));
                    assert(toggled_history(old_sys.sounds()[id], self.sounds()[id], pause, fade));
                    assert(!acted(self.sounds()[id], pause, fade));
                }
            }
            proof {
                assert forall|x: usize| #[trigger] old_ids.contains(x) implies (if ids@.take(k + 1).contains(x) {
                    toggled_history(old_sys.sounds()[x], self.sounds()[x], pause, fade)
                } else {
                    self.sounds()[x] == old_sys.sounds()[x]
                }) by {
                    vstd::seq_lib::lemma_seq_contains_after_push(taken, id, x);
                    if x != id {
                        assert(self.sounds()[x] == sys0.sounds()[x]);
                    }
                }
                assert forall|x: usize| #[trigger] moved.contains(x) <==> (ids@.take(k + 1).contains(x) && acted(
                    self.sounds()[x],
                    pause,
                    fade,
                )) by {
                    vstd::seq_lib::lemma_seq_contains_after_push(taken, id, x);
                    if moved != moved_before {
                        vstd::seq_lib::lemma_seq_contains_after_push(moved_before, id, x);
                    }
                    if x != id && old_ids.contains(x) {
                        assert(self.sounds()[x] == sys0.sounds()[x]);
                    }
                    if x != id && !old_ids.contains(x) {
                        assert(!taken.contains(x)) by {
                            if taken.contains(x) {
                                let j = choose|j: int| 0 <= j < taken.len() && taken[j] == x;
                                assert(ids@[j] == x);
                                assert(ids@.to_set().contains(x));
                            }
                        }
                    }
                }
            }
            k = k + 1;
        }
        proof {
            assert(ids@.take(ids@.len() as int) == ids@);
            assert forall|x: usize| #[trigger] moved.contains(x) <==> (old_ids.contains(x) && acted(
                self.sounds()[x],
                pause,
                fade,
            )) by {
                if old_ids.contains(x) {
                    assert(ids@.to_set().contains(x));
                }
                if ids@.contains(x) {
                    assert(ids@.to_set().contains(x));
                }
            }
            assert forall|x: usize| #[trigger] old_ids.contains(x) implies toggled_history(
                old_sys.sounds()[x],
                self.sounds()[x],
                pause,
                fade,
            ) by {
                assert(ids@.to_set().contains(x));
            }
        }
        events
    }

    /// Drops the sounds that report that they have stopped, marks those
    /// tracks, where they exist, stopped, and sets the global state from a
    /// fresh report of each remaining sound.
    pub fn cleanup_finished_tracks(&mut self, tracks: &mut Vec<NoiseTrack<V>>) -> (events: Vec<AudioEvent<V>>)
        ensures
            exists|mid: AudioSystem<V>|
                #[trigger] cleanup_done(*old(self), mid, old(tracks)@, final(tracks)@, events@) && settles(
                    mid,
                    *final(self),
                ),
            final(self).spec_master_volume() == old(self).spec_master_volume(),
            final(self).spec_fade_duration() == old(self).spec_fade_duration(),
            (exists|id: usize| #[trigger] last_reported(*final(self), id, PlaybackState::Playing))
                ==> final(self).spec_global_state() == PlaybackState::Playing,
            final(self).spec_global_state() == PlaybackState::Paused <==> (!(exists|id: usize|
                #[trigger] last_reported(*final(self), id, PlaybackState::Playing)) && exists|id: usize|
                #[trigger] last_reported(*final(self), id, PlaybackState::Paused)),
            final(self).spec_global_state() == PlaybackState::Stopped <==> (!(exists|id: usize|
                #[trigger] last_reported(*final(self), id, PlaybackState::Playing)) && !(exists|id: usize|
                #[trigger] last_reported(*final(self), id, PlaybackState::Paused))),
    {
        let events = self.drop_finished_tracks(tracks);
        let ghost mid = *self;
        let reports = self.update_global_state();
        assert(settled_by(mid, *self, reports@));
        proof {
            lemma_settled_state_follows_reports(mid, *self);
        }
        assert(cleanup_done(*old(self), mid, old(tracks)@, tracks@, events@));
        events
    }

    /// Drops the sounds that report that they have stopped, and marks those
    /// tracks, where they exist, stopped.
    fn drop_finished_tracks(&mut self, tracks: &mut Vec<NoiseTrack<V>>) -> (events: Vec<AudioEvent<V>>)
        ensures
            cleanup_done(*old(self), *final(self), old(tracks)@, final(tracks)@, events@),
            final(self).master_volume == old(self).master_volume,
            final(self).fade_duration == old(self).fade_duration,
    {
        let ids = self.handle_id_list();
        let ghost old_sys = *self;
        let ghost old_ids = self.handle_ids();
        let ghost old_t = tracks@;
        let n_tracks = tracks.len();
        assert(old_t.len() == n_tracks);
        let mut finished: Vec<usize> = Vec::new();
        let ghost mut reports: Map<usize, PlaybackState> = Map::empty();
        let mut k: usize = 0;
        while k < ids.len()
            invariant
                0 <= k <= ids@.len(),
                ids@.to_set() == old_ids,
                ids@.no_duplicates(),
                old_ids == old_sys.handle_ids(),
                self.handle_ids() == old_ids,
                self.spec_retired() == old_sys.spec_retired(),
                self.master_volume == old_sys.master_volume,
                self.fade_duration == old_sys.fade_duration,
                self.global_state == old_sys.global_state,
                forall|x: usize| #[trigger] reports.contains_key(x) <==> ids@.take(k as int).contains(x),
                forall|x: usize|
                    #[trigger] old_ids.contains(x) ==> if ids@.take(k as int).contains(x) {
                        self.sounds()[x] == old_sys.sounds()[x].push(SoundEvent::Reported(reports[x]))
                    } else {
                        self.sounds()[x] == old_sys.sounds()[x]
                    },
                finished@.no_duplicates(),
                forall|x: usize|
                    #[trigger] finished@.contains(x) <==> (ids@.take(k as int).contains(x) && reports[x]
                        == PlaybackState::Stopped),
            decreases ids@.len() - k,
        {
            let id = ids[k];
            let ghost taken = ids@.take(k as int);
            let ghost before = finished@;
            let ghost reports_before = reports;
            let ghost sys0 = *self;
            proof {
                assert(ids@.take(k + 1) =~= taken.push(id));
                assert(ids@.to_set().contains(id));
                if taken.contains(id) {
                    let j = choose|j: int| 0 <= j < k && #[trigger] taken[j] == id;
                    assert(ids@[j] == ids@[k as int]);
                }
                assert(!finished@.contains(id));
                assert(self.sounds()[id] == old_sys.sounds()[id]);
            }
            let state = match self.playing_handles.remove(&id) {
                Some(mut sound) => {
                    let s = sound.check();
                    self.playing_handles.insert(id, sound);
                    s
                },
                None => {
                    assert(false);
                    PlaybackState::Stopped
                },
            };
            proof {
                reports = reports.insert(id, state);
                assert(self.sounds() =~= sys0.sounds().insert(id, old_sys.sounds()[id].push(SoundEvent::Reported(state))));
                assert(self.handle_ids() =~= old_ids);
            }
            if has_finished(state) {
                finished.push(id);
            }
            proof {
                assert forall|x: usize| #[trigger] reports.contains_key(x) <==> ids@.take(k + 1).contains(x) by {
                    vstd::seq_lib::lemma_seq_contains_after_push(taken, id, x);
                }
                assert forall|x: usize| #[trigger] old_ids.contains(x) implies (if ids@.take(k + 1).contains(x) {
                    self.sounds()[x] == old_sys.sounds()[x].push(SoundEvent::Reported(reports[x]))
                } else {
                    self.sounds()[x] == old_sys.sounds()[x]
                }) by {
                    vstd::seq_lib::lemma_seq_contains_after_push(taken, id, x);
                    if x != id {
                        assert(self.sounds()[x] == sys0.sounds()[x]);
                        assert(reports[x] == reports_before[x]);
                    }
                }
                assert forall|x: usize| #[trigger] finished@.contains(x) <==> (ids@.take(k + 1).contains(x)
                    && reports[x] == PlaybackState::Stopped) by {
                    vstd::seq_lib::lemma_seq_contains_after_push(taken, id, x);
                    if finished@ != before {
                        vstd::seq_lib::lemma_seq_contains_after_push(before, id, x);
                    }
                    if x != id {
                        assert(reports[x] == reports_before[x]);
                    }
                }
            }
            k = k + 1;
        }
        let ghost mid = *self;
        proof {
            assert(ids@.take(ids@.len() as int) == ids@);
            assert forall|x: usize| #[trigger] finished@.contains(x) implies old_ids.contains(x) by {
                assert(ids@.contains(x));
                assert(ids@.to_set().contains(x));
            }
            assert(reports.dom() =~= old_ids) by {
                assert forall|x: usize| reports.contains_key(x) <==> old_ids.contains(x) by {
                    if old_ids.contains(x) {
                        assert(ids@.to_set().contains(x));
                    }
                    if ids@.contains(x) {
                        assert(ids@.to_set().contains(x));
                    }
                }
            }
        }
        let mut events: Vec<AudioEvent<V>> = Vec::new();
        let ghost mut shown: Seq<usize> = Seq::empty();
        let mut j: usize = 0;
        proof {
            lemma_with_states_empty(old_t, PlaybackState::Stopped);
            assert(finished@.take(0).to_set() =~= Set::<usize>::empty());
            assert(events_for(shown, |id: usize| AudioEvent::<V>::TrackFinished(id)) =~= events@);
            assert(finished_records(old_sys, finished@.take(0)) =~= Seq::<(usize, Seq<SoundEvent>)>::empty());
            assert(self.spec_retired() =~= old_sys.spec_retired() + finished_records(
                old_sys,
                finished@.take(0),
            ));
        }
        while j < finished.len()
            invariant
                0 <= j <= finished@.len(),
                finished@.no_duplicates(),
                forall|x: usize| #[trigger] finished@.contains(x) ==> old_ids.contains(x),
                forall|x: usize|
                    #[trigger] finished@.contains(x) ==> reports.contains_key(x) && reports[x]
                        == PlaybackState::Stopped,
                forall|x: usize|
                    #[trigger] mid.handle_ids().contains(x) ==> mid.sounds()[x] == old_sys.sounds()[x].push(
                        SoundEvent::Reported(reports[x]),
                    ),
                mid.handle_ids() == old_ids,
                old_ids == old_sys.handle_ids(),
                old_t.len() <= usize::MAX,
                tracks@.len() == old_t.len(),
                forall|x: usize|
                    #[trigger] self.handle_ids().contains(x) <==> (old_ids.contains(x)
                        && !finished@.take(j as int).contains(x)),
                forall|x: usize| #[trigger] self.handle_ids().contains(x) ==> self.sounds()[x] == mid.sounds()[x],
                tracks@ == with_states(old_t, finished@.take(j as int).to_set(), PlaybackState::Stopped),
                self.spec_retired() == old_sys.spec_retired() + finished_records(old_sys, finished@.take(j as int)),
                shown.no_duplicates(),
                forall|x: usize|
                    #[trigger] shown.contains(x) <==> (finished@.take(j as int).contains(x) && x < old_t.len()),
                events@ == events_for(shown, |id: usize| AudioEvent::<V>::TrackFinished(id)),
                self.master_volume == old_sys.master_volume,
                self.fade_duration == old_sys.fade_duration,
            decreases finished@.len() - j,
        {
            let id = finished[j];
            let ghost taken = finished@.take(j as int);
            let ghost shown_before = shown;
            let ghost sys0 = *self;
            proof {
                assert(finished@.take(j + 1) =~= taken.push(id));
                taken.lemma_push_to_set_commute(id);
                if taken.contains(id) {
                    let i = choose|i: int| 0 <= i < j && #[trigger] taken[i] == id;
                    assert(finished@[i] == finished@[j as int]);
                }
                assert(finished@.contains(id));
                assert(self.handle_ids().contains(id));
                AudioSystem::lemma_ids_are_sound_keys(mid);
            }
            match self.playing_handles.remove(&id) {
                Some(sound) => {
                    assert(sound.history() == old_sys.sounds()[id].push(
                        SoundEvent::Reported(PlaybackState::Stopped),
                    ));
                    self.retired = Ghost(self.retired@.push((id, sound.history())));
                },
                None => {
                    assert(false);
                },
            }
            proof {
                assert(finished_records(old_sys, taken.push(id)) =~= finished_records(old_sys, taken).push(
                    (id, old_sys.sounds()[id].push(SoundEvent::Reported(PlaybackState::Stopped))),
                ));
                assert(self.spec_retired() =~= old_sys.spec_retired() + finished_records(old_sys, taken.push(id)));
                assert(!shown_before.contains(id));
            }
            if id < tracks.len() {
                tracks[id].state = PlaybackState::Stopped;
                events.push(AudioEvent::TrackFinished(id));
                proof {
                    lemma_with_states_insert(old_t, taken.to_set(), id, PlaybackState::Stopped);
                    assert(events_for(shown.push(id), |id: usize| AudioEvent::<V>::TrackFinished(id))
                        =~= events_for(shown, |id: usize| AudioEvent::<V>::TrackFinished(id)).push(
                        AudioEvent::<V>::TrackFinished(id),
                    ));
                    shown = shown.push(id);
                }
            } else {
                proof {
                    lemma_with_states_insert_absent(old_t, taken.to_set(), id, PlaybackState::Stopped);
                }
            }
            proof {
                assert forall|x: usize| #[trigger] self.handle_ids().contains(x) <==> (old_ids.contains(x)
                    && !finished@.take(j + 1).contains(x)) by {
                    vstd::seq_lib::lemma_seq_contains_after_push(taken, id, x);
                }
                assert forall|x: usize| #[trigger] self.handle_ids().contains(x) implies self.sounds()[x]
                    == mid.sounds()[x] by {
                    assert(sys0.handle_ids().contains(x));
                }
                assert forall|x: usize|
                    #[trigger] shown.contains(x) <==> (finished@.take(j + 1).contains(x) && x < old_t.len()) by {
                    vstd::seq_lib::lemma_seq_contains_after_push(taken, id, x);
                    if shown != shown_before {
                        vstd::seq_lib::lemma_seq_contains_after_push(shown_before, id, x);
                    }
                }
            }
            j = j + 1;
        }
        proof {
            assert(finished@.take(finished@.len() as int) == finished@);
            assert forall|i: usize| #[trigger] self.handle_ids().contains(i) <==> (old_ids.contains(i)
                && reports[i] != PlaybackState::Stopped) by {
                if old_ids.contains(i) {
                    assert(ids@.to_set().contains(i));
                    assert(ids@.take(ids@.len() as int).contains(i));
                }
            }
            assert forall|i: usize| #[trigger] self.handle_ids().contains(i) implies self.sounds()[i]
                == old_sys.sounds()[i].push(SoundEvent::Reported(reports[i])) by {
                assert(mid.handle_ids().contains(i));
            }
            assert(old_ids.difference(self.handle_ids()) =~= finished@.to_set());
            assert forall|x: usize| #[trigger] shown.contains(x) <==> (old_ids.contains(x)
                && !self.handle_ids().contains(x) && x < old_t.len()) by {}
        }
        events
    }

    /// Counts of the sounds and of what they report: each sound reports
    /// once, the reports are recorded, and the playing and the paused ones
    /// counted.
    pub fn get_stats(&mut self, is_initialized: bool) -> (stats: AudioStats)
        ensures
            stats.total_tracks == old(self).handle_ids().len(),
            stats.global_state == old(self).spec_global_state(),
            stats.is_initialized == is_initialized,
            stats.playing_tracks + stats.paused_tracks <= stats.total_tracks,
            exists|order: Seq<usize>, states: Seq<PlaybackState>|
                {
                    &&& #[trigger] recorded_reports(*old(self), *final(self), order, states)
                    &&& stats.playing_tracks == count_state(states, PlaybackState::Playing)
                    &&& stats.paused_tracks == count_state(states, PlaybackState::Paused)
                },
    {
        let total = self.playing_handles.len();
        let (ids, states) = self.check_all();
        proof {
            ids@.unique_seq_to_set();
        }
        let counts = tally(&states);
        AudioStats {
            total_tracks: total,
            playing_tracks: counts.0,
            paused_tracks: counts.1,
            global_state: self.global_state,
            is_initialized,
        }
    }

    /// Sets the master volume, and sends every sound the volume that `mix`
    /// gives from its track's volume and the new master volume.
    fn apply_master_volume<M>(&mut self, volume: V, tracks: &Vec<NoiseTrack<V>>, mix: &M) -> (events: Vec<AudioEvent<V>>)
        where M: Fn(V, V) -> Decibels,
        requires
            old(self).handles_within(tracks@.len() as int),
            forall|a: V, b: V| #[trigger] mix.requires((a, b)),
        ensures
            master_done(*old(self), *final(self), tracks@, volume, *mix),
            final(self).global_state == old(self).global_state,
            final(self).master_volume == volume,
            final(self).fade_duration == old(self).fade_duration,
            events@ == seq![AudioEvent::MasterVolumeChanged(volume)],
    {
        let ghost old_sys = *self;
        self.master_volume = volume;
        let fade = self.fade();
        let ids = self.handle_id_list();
        let ghost old_ids = self.handle_ids();
        assert(old_ids == old_sys.handle_ids());
        assert forall|id: usize| #[trigger] old_ids.contains(id) implies id < tracks@.len() by {
            assert(old(self).handle_ids().contains(id));
        }
        assert(self.sounds() =~= old_sys.sounds());
        let mut k: usize = 0;
        while k < ids.len()
            invariant
                0 <= k <= ids@.len(),
                ids@.to_set() == old_ids,
                ids@.no_duplicates(),
                old_ids == old_sys.handle_ids(),
                self.handle_ids() == old_ids,
                forall|id: usize| #[trigger] old_ids.contains(id) ==> id < tracks@.len(),
                self.master_volume == volume,
                self.global_state == old_sys.global_state,
                self.fade_duration == old_sys.fade_duration,
                self.spec_retired() == old_sys.spec_retired(),
                fade == old_sys.spec_fade(),
                forall|a: V, b: V| #[trigger] mix.requires((a, b)),
                forall|x: usize|
                    #[trigger] old_ids.contains(x) ==> if ids@.take(k as int).contains(x) {
                        remixed(old_sys.sounds()[x], self.sounds()[x], tracks@[x as int].volume_level, volume, fade, *mix)
                    } else {
                        self.sounds()[x] == old_sys.sounds()[x]
                    },
            decreases ids@.len() - k,
        {
            let id = ids[k];
            let ghost taken = ids@.take(k as int);
            let ghost sys0 = *self;
            proof {
                assert(ids@.take(k + 1) =~= taken.push(id));
                assert(ids@.to_set().contains(id));
                if taken.contains(id) {
                    let j = choose|j: int| 0 <= j < k && #[trigger] taken[j] == id;
                    assert(ids@[j] == ids@[k as int]);
                }
                assert(self.sounds()[id] == old_sys.sounds()[id]);
            }
            match self.playing_handles.remove(&id) {
                Some(mut sound) => {
                    let effective = mix(tracks[id].volume_level, volume);
                    set_sound_volume(&mut sound, effective, fade);
                    self.playing_handles.insert(id, sound);
                    proof {
                        assert(self.sounds() =~= sys0.sounds().insert(
                            id,
                            old_sys.sounds()[id].push(SoundEvent::VolumeSet(effective, fade)),
                        ));
                        assert(self.handle_ids() =~= old_ids);
                        assert(remixed(old_sys.sounds()[id], self.sounds()[id], tracks@[id as int].volume_level, volume, fade, *mix));
                    }
                },
                None => {
                    assert(false);
                },
            }
            proof {
                assert forall|x: usize| #[trigger] old_ids.contains(x) implies (if ids@.take(k + 1).contains(x) {
                    remixed(old_sys.sounds()[x], self.sounds()[x], tracks@[x as int].volume_level, volume, fade, *mix)
                } else {
                    self.sounds()[x] == old_sys.sounds()[x]
                }) by {
                    vstd::seq_lib::lemma_seq_contains_after_push(taken, id, x);
                    if x != id {
                        assert(self.sounds()[x] == sys0.sounds()[x]);
                    }
                }
            }
            k = k + 1;
        }
        proof {
            assert(ids@.take(ids@.len() as int) == ids@);
            assert forall|i: usize| #[trigger] old_sys.handle_ids().contains(i) implies remixed(
                old_sys.sounds()[i],
                self.sounds()[i],
                tracks@[i as int].volume_level,
                volume,
                old_sys.spec_fade(),
                *mix,
            ) by {
                assert(ids@.to_set().contains(i));
            }
        }
        let mut events: Vec<AudioEvent<V>> = Vec::new();
        events.push(AudioEvent::MasterVolumeChanged(volume));
        assert(events@ =~= seq![AudioEvent::MasterVolumeChanged(volume)]);
        events
    }

    /// Whether the command touches only tracks that exist, with `n` tracks.
    pub fn command_fits(&self, command: &AudioCommand<V>, n: usize) -> (fits: bool)
        ensures
            fits == command_in_bounds(*command, self.handle_ids(), n as int),
    {
        match command {
            AudioCommand::Play(_) => true,
            AudioCommand::Pause(id) => !self.playing_handles.contains_key(id) || *id < n,
            AudioCommand::Resume(id) => !self.playing_handles.contains_key(id) || *id < n,
            AudioCommand::Stop(id) => !self.playing_handles.contains_key(id) || *id < n,
            AudioCommand::SetVolume { track_id, .. } => *track_id < n,
            AudioCommand::StopAll => self.handles_below(n),
            AudioCommand::PauseAll => self.handles_below(n),
            AudioCommand::ResumeAll => self.handles_below(n),
            AudioCommand::SetMasterVolume(_) => self.handles_below(n),
        }
    }

    /// Whether every track with a handle is one of the first `n`.
    fn handles_below(&self, n: usize) -> (below: bool)
        ensures
            below == self.handles_within(n as int),
    {
        let ids = self.handle_id_list();
        let mut k: usize = 0;
        while k < ids.len()
            invariant
                0 <= k <= ids@.len(),
                ids@.to_set() == self.handle_ids(),
                forall|j: int| 0 <= j < k ==> #[trigger] ids@[j] < n,
            decreases ids@.len() - k,
        {
            if ids[k] >= n {
                let bad = ids[k];
                assert(ids@.to_set().contains(bad));
                assert(self.handle_ids().contains(bad));
                return false;
            }
            k = k + 1;
        }
        assert forall|id: usize| #[trigger] self.handle_ids().contains(id) implies id < n by {
            assert(ids@.to_set().contains(id));
            let j = choose|j: int| 0 <= j < ids@.len() && ids@[j] == id;
            assert(ids@[j] < n);
        }
        true
    }

    /// Carries out an audio command on the tracks. `start` starts a track's
    /// sound, handed its path, its volume and the master volume; `mix` gives
    /// a sound's volume from its track's volume and the master volume.
    pub fn process_command<S, M>(
        &mut self,
        command: AudioCommand<V>,
        tracks: &mut Vec<NoiseTrack<V>>,
        start: &S,
        mix: &M,
    ) -> (res: Result<Vec<AudioEvent<V>>, AppError>) where
        S: Fn(String, V, V) -> Result<SoundHandle, AppError>,
        M: Fn(V, V) -> Decibels,

        requires
            forall|p: String, a: V, b: V| #[trigger] start.requires((p, a, b)),
            forall|a: V, b: V| #[trigger] mix.requires((a, b)),
            command_in_bounds(command, old(self).handle_ids(), old(tracks)@.len() as int),
        ensures
            command_done(command, *old(self), *final(self), old(tracks)@, final(tracks)@, res, *mix),
            start_accounts_for(command, old(tracks)@, old(self).spec_master_volume(), *start, res),
    {
        match command {
            AudioCommand::Play(track_id) => {
                let res = self.play_track(track_id, tracks, start);
                match res {
                    Ok(events) => {
                        let ghost mid = *self;
                        let reports = self.update_global_state();
                        assert(settled_by(mid, *self, reports@));
                        assert(play_done(*old(self), mid, old(tracks)@, tracks@, track_id, events@));
                        assert(played_and_settled(*old(self), *self, old(tracks)@, tracks@, track_id, events@));
                        Ok(events)
                    },
                    Err(e) => Err(e),
                }
            },
            AudioCommand::Pause(track_id) => {
                let events = self.toggle_track(track_id, tracks, true);
                let ghost mid = *self;
                let reports = self.update_global_state();
                assert(settled_by(mid, *self, reports@));
                assert(toggle_done(*old(self), mid, old(tracks)@, tracks@, track_id, true, events@));
                assert(toggled_and_settled(*old(self), *self, old(tracks)@, tracks@, track_id, true, events@));
                Ok(events)
            },
            AudioCommand::Resume(track_id) => {
                let events = self.toggle_track(track_id, tracks, false);
                let ghost mid = *self;
                let reports = self.update_global_state();
                assert(settled_by(mid, *self, reports@));
                assert(toggle_done(*old(self), mid, old(tracks)@, tracks@, track_id, false, events@));
                assert(toggled_and_settled(*old(self), *self, old(tracks)@, tracks@, track_id, false, events@));
                Ok(events)
            },
            AudioCommand::Stop(track_id) => {
                let events = self.stop_track(track_id, tracks);
                let ghost mid = *self;
                let reports = self.update_global_state();
                assert(settled_by(mid, *self, reports@));
                assert(stop_done(*old(self), mid, old(tracks)@, tracks@, track_id, events@));
                assert(stopped_and_settled(*old(self), *self, old(tracks)@, tracks@, track_id, events@));
                Ok(events)
            },
            AudioCommand::SetVolume { track_id, volume } => Ok(
                self.set_track_volume(track_id, volume, tracks, mix),
            ),
            AudioCommand::StopAll => Ok(self.stop_all_tracks(tracks)),
            AudioCommand::PauseAll => {
                let events = self.toggle_all_tracks(tracks, true);
                let ghost mid = *self;
                let reports = self.update_global_state();
                assert(settled_by(mid, *self, reports@));
                assert(toggle_all_done(*old(self), mid, old(tracks)@, tracks@, true, events@));
                assert(toggled_all_and_settled(*old(self), *self, old(tracks)@, tracks@, true, events@));
                Ok(events)
            },
            AudioCommand::ResumeAll => {
                let events = self.toggle_all_tracks(tracks, false);
                let ghost mid = *self;
                let reports = self.update_global_state();
                assert(settled_by(mid, *self, reports@));
                assert(toggle_all_done(*old(self), mid, old(tracks)@, tracks@, false, events@));
                assert(toggled_all_and_settled(*old(self), *self, old(tracks)@, tracks@, false, events@));
                Ok(events)
            },
            AudioCommand::SetMasterVolume(volume) => Ok(self.apply_master_volume(volume, tracks, mix)),
        }
    }

    /// Sets the global state from one fresh report of each sound, recorded
    /// in its history, and returns those reports.
    fn update_global_state(&mut self) -> (reports: Ghost<Map<usize, PlaybackState>>)
        ensures
            settled_by(*old(self), *final(self), reports@),
            final(self).handle_ids() == old(self).handle_ids(),
            final(self).master_volume == old(self).master_volume,
            final(self).fade_duration == old(self).fade_duration,
    {
        let ghost old_sys = *self;
        let ids = self.handle_id_list();
        let mut has_playing = false;
        let mut has_paused = false;
        let ghost mut reports = Map::<usize, PlaybackState>::empty();
        let mut k: usize = 0;
        while k < ids.len()
            invariant
                0 <= k <= ids@.len(),
                ids@.to_set() == old_sys.handle_ids(),
                ids@.no_duplicates(),
                self.handle_ids() == old_sys.handle_ids(),
                self.spec_retired() == old_sys.spec_retired(),
                self.master_volume == old_sys.master_volume,
                self.fade_duration == old_sys.fade_duration,
                forall|id: usize| reports.contains_key(id) <==> ids@.take(k as int).contains(id),
                forall|x: usize|
                    #[trigger] old_sys.handle_ids().contains(x) ==> if ids@.take(k as int).contains(x) {
                        self.sounds()[x] == old_sys.sounds()[x].push(SoundEvent::Reported(reports[x]))
                    } else {
                        self.sounds()[x] == old_sys.sounds()[x]
                    },
                has_playing == state_was_playing(reports),
                has_paused == state_was_paused(reports),
            decreases ids@.len() - k,
        {
            let id = ids[k];
            let ghost taken = ids@.take(k as int);
            let ghost sys0 = *self;
            proof {
                assert(ids@.take(k + 1) =~= taken.push(id));
                assert(ids@.to_set().contains(id));
                if taken.contains(id) {
                    let j = choose|j: int| 0 <= j < k && #[trigger] taken[j] == id;
                    assert(ids@[j] == ids@[k as int]);
                }
                assert(self.sounds()[id] == old_sys.sounds()[id]);
            }
            let ghost before = reports;
            let state = match self.playing_handles.remove(&id) {
                Some(mut sound) => {
                    let s = sound.check();
                    self.playing_handles.insert(id, sound);
                    s
                },
                None => {
                    assert(false);
                    PlaybackState::Stopped
                },
            };
            proof {
                reports = reports.insert(id, state);
                assert(self.sounds() =~= sys0.sounds().insert(
                    id,
                    old_sys.sounds()[id].push(SoundEvent::Reported(state)),
                ));
                assert(self.handle_ids() =~= old_sys.handle_ids());
            }
            match state {
                PlaybackState::Playing => {
                    has_playing = true;
                },
                PlaybackState::Paused => {
                    has_paused = true;
                },
                _ => {},
            }
            assert forall|x: usize| reports.contains_key(x) <==> ids@.take(k + 1).contains(x) by {
                vstd::seq_lib::lemma_seq_contains_after_push(taken, id, x);
            }
            proof {
                assert forall|x: usize| #[trigger] old_sys.handle_ids().contains(x) implies (if ids@.take(k + 1).contains(x) {
                    self.sounds()[x] == old_sys.sounds()[x].push(SoundEvent::Reported(reports[x]))
                } else {
                    self.sounds()[x] == old_sys.sounds()[x]
                }) by {
                    vstd::seq_lib::lemma_seq_contains_after_push(taken, id, x);
                    if x != id {
                        assert(self.sounds()[x] == sys0.sounds()[x]);
                        assert(reports[x] == before[x]);
                    }
                }
                if has_playing {
                    if state_was_playing(before) {
                        let w = choose|x: usize| before.contains_key(x) && before[x] == PlaybackState::Playing;
                        assert(reports.contains_key(w) && reports[w] == PlaybackState::Playing);
                    } else {
                        assert(reports.contains_key(id) && reports[id] == PlaybackState::Playing);
                    }
                }
                if has_paused {
                    if state_was_paused(before) {
                        let w = choose|x: usize| before.contains_key(x) && before[x] == PlaybackState::Paused;
                        assert(reports.contains_key(w) && reports[w] == PlaybackState::Paused);
                    } else {
                        assert(reports.contains_key(id) && reports[id] == PlaybackState::Paused);
                    }
                }
                assert forall|x: usize| reports.contains_key(x) && reports[x] == PlaybackState::Playing
                    implies has_playing by {
                    if x != id {
                        assert(before.contains_key(x));
                    }
                }
                assert forall|x: usize| reports.contains_key(x) && reports[x] == PlaybackState::Paused
                    implies has_paused by {
                    if x != id {
                        assert(before.contains_key(x));
                    }
                }
            }
            k = k + 1;
        }
        proof {
            assert(ids@.take(ids@.len() as int) == ids@);
            AudioSystem::lemma_ids_are_sound_keys(old_sys);
            assert(reports.dom() =~= old_sys.sounds().dom()) by {
                assert forall|x: usize| reports.contains_key(x) <==> old_sys.sounds().contains_key(x) by {
                    if old_sys.handle_ids().contains(x) {
                        assert(ids@.to_set().contains(x));
                    }
                    if ids@.contains(x) {
                        assert(ids@.to_set().contains(x));
                    }
                }
            }
            assert(self.sounds() =~= Map::new(
                |i: usize| old_sys.sounds().contains_key(i),
                |i: usize| old_sys.sounds()[i].push(SoundEvent::Reported(reports[i])),
            )) by {
                assert forall|i: usize| old_sys.sounds().contains_key(i) implies ids@.take(ids@.len() as int).contains(i) by {
                    assert(ids@.to_set().contains(i));
                }
            }
        }
        self.global_state = if has_playing {
            PlaybackState::Playing
        } else if has_paused {
            PlaybackState::Paused
        } else {
            PlaybackState::Stopped
        };
        assert(self.sounds() == Map::new(
            |i: usize| old_sys.sounds().contains_key(i),
            |i: usize| old_sys.sounds()[i].push(SoundEvent::Reported(reports[i])),
        ));
        Ghost(reports)
    }
}

} // verus!
