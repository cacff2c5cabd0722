//! The calls into the kira audio engine that the playback logic makes.
//!
//! Each sound keeps a record of the states it reported that the library
//! acted on and of the requests it was sent; the functions that send a
//! request make one call into kira, and their contracts are trusted, not
//! proved.

use vstd::prelude::*;

use kira::sound::streaming::StreamingSoundHandle;
use kira::sound::FromFileError;
use kira::{Decibels, Tween};
use std::time::Duration;

use crate::models::PlaybackState;

verus! {

#[verifier::external_type_specification]
#[verifier::external_body]
#[verifier::reject_recursive_types(Error)]
pub struct ExStreamingSoundHandle<Error>(StreamingSoundHandle<Error>);

#[verifier::external_type_specification]
#[verifier::external_body]
pub struct ExFromFileError(FromFileError);

#[verifier::external_type_specification]
#[verifier::external_body]
pub struct ExDecibels(Decibels);

/// A playback handle of a streaming sound read from a file.
pub type SoundHandle = StreamingSoundHandle<FromFileError>;

/// The curve of a fade.
#[derive(Debug, Clone, Copy, PartialEq, Eq, Structural)]
pub enum FadeEasing {
    /// Constant speed over the whole fade.
    Linear,
}

/// A fade of a pause, resume, stop or volume change: it starts at once and
/// lasts `duration`, following `easing`.
#[derive(Debug, Clone, Copy)]
pub struct Fade {
    pub duration: Duration,
    pub easing: FadeEasing,
}

/// What happened to a sound: a state it reported that the library acted on,
/// or a request the library sent to it.
pub enum SoundEvent {
    /// The sound reported this state, and the library acted on it.
    Reported(PlaybackState),
    /// The sound was asked to pause with this fade.
    Paused(Fade),
    /// The sound was asked to resume with this fade.
    Resumed(Fade),
    /// The sound was asked to stop with this fade.
    Stopped(Fade),
    /// The sound was asked to move to this volume with this fade.
    VolumeSet(Decibels, Fade),
}

/// A playing sound: kira's handle, with the record of what the library was
/// told by it and asked of it.
pub struct Sound {
    handle: SoundHandle,
    history: Ghost<Seq<SoundEvent>>,
}

impl Sound {
    /// What the library was told by the sound and asked of it, in order.
    pub closed spec fn history(&self) -> Seq<SoundEvent> {
        self.history@
    }

    /// A sound just started, with nothing told or asked yet.
    pub fn new(handle: SoundHandle) -> (sound: Sound)
        ensures
            sound.history() == Seq::<SoundEvent>::empty(),
    {
        Sound { handle, history: Ghost(Seq::empty()) }
    }

    /// The state the sound reports now, recorded as the state the library
    /// acts on.
    pub fn check(&mut self) -> (state: PlaybackState)
        ensures
            final(self).history() == old(self).history().push(SoundEvent::Reported(state)),
    {
        let state = reported_state(&self.handle);
        self.history = Ghost(self.history@.push(SoundEvent::Reported(state)));
        state
    }

    /// The state the sound reports now, for counting only.
    pub fn peek(&self) -> (state: PlaybackState) {
        reported_state(&self.handle)
    }
}

/// Calls kira's `StreamingSoundHandle::state` and names the state by the
/// library's own enum, variant for variant. Nothing is claimed of which state
/// comes back: the audio thread moves it on by itself.
#[verifier::external_body]
fn reported_state(handle: &SoundHandle) -> (state: PlaybackState) {
    match handle.state() {
        kira::sound::PlaybackState::Playing => PlaybackState::Playing,
        kira::sound::PlaybackState::Pausing => PlaybackState::Pausing,
        kira::sound::PlaybackState::Paused => PlaybackState::Paused,
        kira::sound::PlaybackState::WaitingToResume => PlaybackState::WaitingToResume,
        kira::sound::PlaybackState::Resuming => PlaybackState::Resuming,
        kira::sound::PlaybackState::Stopping => PlaybackState::Stopping,
        kira::sound::PlaybackState::Stopped => PlaybackState::Stopped,
    }
}

/// Calls kira's `StreamingSoundHandle::pause` with the tween of `fade`
/// (kira's default start, at once). Claimed: the request is recorded.
#[verifier::external_body]
pub(crate) fn pause_sound(sound: &mut Sound, fade: Fade)
    ensures
        final(sound).history() == old(sound).history().push(SoundEvent::Paused(fade)),
{
    let easing = match fade.easing {
        FadeEasing::Linear => kira::Easing::Linear,
    };
    sound.handle.pause(Tween { duration: fade.duration, easing, ..Default::default() })
}

/// Calls kira's `StreamingSoundHandle::resume` with the tween of `fade`
/// (kira's default start, at once). Claimed: the request is recorded.
#[verifier::external_body]
pub(crate) fn resume_sound(sound: &mut Sound, fade: Fade)
    ensures
        final(sound).history() == old(sound).history().push(SoundEvent::Resumed(fade)),
{
    let easing = match fade.easing {
        FadeEasing::Linear => kira::Easing::Linear,
    };
    sound.handle.resume(Tween { duration: fade.duration, easing, ..Default::default() })
}

/// Calls kira's `StreamingSoundHandle::stop` with the tween of `fade`
/// (kira's default start, at once). Claimed: the request is recorded.
#[verifier::external_body]
pub(crate) fn stop_sound(sound: &mut Sound, fade: Fade)
    ensures
        final(sound).history() == old(sound).history().push(SoundEvent::Stopped(fade)),
{
    let easing = match fade.easing {
        FadeEasing::Linear => kira::Easing::Linear,
    };
    sound.handle.stop(Tween { duration: fade.duration, easing, ..Default::default() })
}

/// Calls kira's `StreamingSoundHandle::set_volume` with the tween of `fade`
/// (kira's default start, at once). Claimed: the request is recorded.
#[verifier::external_body]
pub(crate) fn set_sound_volume(sound: &mut Sound, volume: Decibels, fade: Fade)
    ensures
        final(sound).history() == old(sound).history().push(SoundEvent::VolumeSet(volume, fade)),
{
    let easing = match fade.easing {
        FadeEasing::Linear => kira::Easing::Linear,
    };
    sound.handle.set_volume(volume, Tween { duration: fade.duration, easing, ..Default::default() })
}

} // verus!
