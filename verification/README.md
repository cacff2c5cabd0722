# Cosmic Noise

An ambient noise player: it finds the audio files in
`~/.local/share/cosmic-noise/sounds/` and `~/.config/cosmic-noise/sounds/`
(MP3, OGG, FLAC, WAV), plays each as a looping track with its own volume under
a master volume, and offers several colour themes.

## Layout

- `src/` is the player's core, verified with Verus: the track discovery rules
  (`utils/files.rs`), the playback control of the audio system (`audio.rs`,
  with the calls into kira in `audio/engine.rs`), the player state and how it
  answers its messages (`app.rs`, `utils/dragwin.rs`), the message types
  (`messages.rs`), the errors and their descriptions (`errors.rs`), the
  themes and models (`models.rs`, `config.rs`) and what the interface shows
  (`ui/`).
- `app/` is the program around it: the iced window and widgets, the kira
  audio manager, the configuration file (confy), the directory walks, and the
  volume arithmetic in decibels.
- `tests/` exercises the library.
