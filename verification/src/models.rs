//! Domain model of the player: themes, views and playback states.

use vstd::prelude::*;

verus! {

/// The colour themes the player offers.
#[derive(Debug, Clone, Copy, PartialEq, Eq, Structural)]
pub enum AppTheme {
    Light,
    GruvboxLight,
    GruvboxDark,
    Tokyo,
    Catppuccin,
    Moonfly,
}

/// Every theme, in the order the settings list shows them.
pub open spec fn spec_all_themes() -> Seq<AppTheme> {
    seq![
        AppTheme::Light,
        AppTheme::GruvboxLight,
        AppTheme::GruvboxDark,
        AppTheme::Tokyo,
        AppTheme::Catppuccin,
        AppTheme::Moonfly,
    ]
}

/// The name a theme is shown by.
pub open spec fn spec_display_name(theme: AppTheme) -> Seq<char> {
    match theme {
        AppTheme::Light => "Light"@,
        AppTheme::GruvboxLight => "Gruvbox Light"@,
        AppTheme::GruvboxDark => "Gruvbox Dark"@,
        AppTheme::Tokyo => "Tokyo Night"@,
        AppTheme::Catppuccin => "Catppuccin"@,
        AppTheme::Moonfly => "Moonfly"@,
    }
}

impl AppTheme {
    /// The name the theme is shown by.
    pub fn display_name(&self) -> (name: &'static str)
        ensures
            name@ == spec_display_name(*self),
    {
        match self {
            AppTheme::Light => "Light",
            AppTheme::GruvboxLight => "Gruvbox Light",
            AppTheme::GruvboxDark => "Gruvbox Dark",
            AppTheme::Tokyo => "Tokyo Night",
            AppTheme::Catppuccin => "Catppuccin",
            AppTheme::Moonfly => "Moonfly",
        }
    }

    /// The theme's name as a `String`, as the theme is displayed.
    pub fn to_string(&self) -> (name: String)
        ensures
            name@ == spec_display_name(*self),
    {
        String::from_str(self.display_name())
    }

    /// All available themes.
    pub fn all() -> (themes: Vec<AppTheme>)
        ensures
            themes@ == spec_all_themes(),
    {
        vec![
            AppTheme::Light,
            AppTheme::GruvboxLight,
            AppTheme::GruvboxDark,
            AppTheme::Tokyo,
            AppTheme::Catppuccin,
            AppTheme::Moonfly,
        ]
    }
}

/// Every theme is offered, exactly once, and no two themes are shown by the
/// same name.
pub proof fn lemma_themes_listed_once_with_distinct_names()
    ensures
        forall|t: AppTheme| #[trigger] spec_all_themes().contains(t),
        spec_all_themes().no_duplicates(),
        spec_all_themes().len() == 6,
        forall|a: AppTheme, b: AppTheme|
            a != b ==> #[trigger] spec_display_name(a) != #[trigger] spec_display_name(b),
{
    reveal_strlit("Light");
    reveal_strlit("Gruvbox Light");
    reveal_strlit("Gruvbox Dark");
    reveal_strlit("Tokyo Night");
    reveal_strlit("Catppuccin");
    reveal_strlit("Moonfly");
    let all = spec_all_themes();
    assert forall|t: AppTheme| #[trigger] all.contains(t) by {
        match t {
            AppTheme::Light => assert(all[0] == t),
            AppTheme::GruvboxLight => assert(all[1] == t),
            AppTheme::GruvboxDark => assert(all[2] == t),
            AppTheme::Tokyo => assert(all[3] == t),
            AppTheme::Catppuccin => assert(all[4] == t),
            AppTheme::Moonfly => assert(all[5] == t),
        }
    }
    assert forall|a: AppTheme, b: AppTheme|
        a != b implies #[trigger] spec_display_name(a) != #[trigger] spec_display_name(b) by {
        let na = spec_display_name(a);
        let nb = spec_display_name(b);
        if na.len() == nb.len() {
            assert(na[0] != nb[0] || na[1] != nb[1] || na[8] != nb[8]);
        }
    }
}

impl Default for AppTheme {
    /// Tokyo Night.
    fn default() -> (theme: AppTheme)
        ensures
            theme == AppTheme::Tokyo,
    {
        AppTheme::Tokyo
    }
}

/// The screens of the application.
#[derive(Debug, Clone, Copy, PartialEq, Eq, Structural)]
pub enum AppView {
    /// Main player view with the track grid.
    Player,
    /// Settings view.
    Settings,
}

impl Default for AppView {
    /// The player view.
    fn default() -> (view: AppView)
        ensures
            view == AppView::Player,
    {
        AppView::Player
    }
}

/// Where a sound stands in its life, as the audio engine reports it.
#[derive(Debug, Clone, Copy, PartialEq, Eq, Structural)]
pub enum PlaybackState {
    /// The sound is playing normally.
    Playing,
    /// The sound is fading out, and will pause when the fade ends.
    Pausing,
    /// Playback is paused.
    Paused,
    /// The sound is paused, but scheduled to resume.
    WaitingToResume,
    /// The sound is fading back in after a pause.
    Resuming,
    /// The sound is fading out, and will stop when the fade ends.
    Stopping,
    /// The sound has stopped and cannot be resumed.
    Stopped,
}

/// An audio track of the player.
///
/// The volume is kept as a value of the caller's volume type `V` (decibels in
/// the application); the library stores and hands it on but never computes
/// with it.
#[derive(Debug, Clone)]
pub struct NoiseTrack<V> {
    /// Display name of the track (the file name without its extension).
    pub name: String,
    /// Path of the audio file.
    pub path: String,
    /// Current volume level.
    pub volume_level: V,
    /// Current playback state.
    pub state: PlaybackState,
}

impl<V> NoiseTrack<V> {
    /// A new stopped track with the given volume level.
    pub fn new(name: String, path: String, volume_level: V) -> (track: NoiseTrack<V>)
        ensures
            track.name@ == name@,
            track.path@ == path@,
            track.volume_level == volume_level,
            track.state == PlaybackState::Stopped,
    {
        NoiseTrack { name, path, volume_level, state: PlaybackState::Stopped }
    }
}

/// Supported audio file extensions.
pub const SUPPORTED_EXTENSIONS: [&'static str; 4] = ["mp3", "ogg", "flac", "wav"];

/// Name of the sound directory under the user's data and config directories.
pub const SOUND_DIRECTORY: &'static str = "cosmic-noise/sounds";

/// File system related settings.
#[derive(Debug, Clone, PartialEq)]
pub struct FileSettings {
    /// Further directories to scan for audio files (as path texts).
    pub custom_directories: Vec<String>,
    /// Watch the directories for changes.
    pub watch_directories: bool,
    /// The supported file extensions.
    pub supported_extensions: Vec<String>,
    /// Scan subdirectories too.
    pub recursive_scan: bool,
    /// The deepest directory level to scan.
    pub max_scan_depth: usize,
}

/// The texts of a list of strings.
pub open spec fn string_texts(strings: Seq<String>) -> Seq<Seq<char>> {
    strings.map_values(|s: String| s@)
}

/// The texts of a list of string slices.
pub open spec fn str_texts(strs: Seq<&str>) -> Seq<Seq<char>> {
    strs.map_values(|s: &str| s@)
}

impl Default for FileSettings {
    /// No further directories, no watching, the supported extensions, a
    /// recursive scan at most three levels deep.
    fn default() -> (settings: FileSettings)
        ensures
            settings.custom_directories@.len() == 0,
            !settings.watch_directories,
            string_texts(settings.supported_extensions@) == str_texts(SUPPORTED_EXTENSIONS@),
            settings.recursive_scan,
            settings.max_scan_depth == 3,
    {
        let mut supported_extensions: Vec<String> = Vec::new();
        let mut i: usize = 0;
        while i < SUPPORTED_EXTENSIONS.len()
            invariant
                0 <= i <= SUPPORTED_EXTENSIONS@.len(),
                string_texts(supported_extensions@) == str_texts(SUPPORTED_EXTENSIONS@.take(i as int)),
            decreases SUPPORTED_EXTENSIONS@.len() - i,
        {
            let ghost before = supported_extensions@;
            let ext: &str = SUPPORTED_EXTENSIONS[i];
            assert(ext == SUPPORTED_EXTENSIONS@[i as int]);
            supported_extensions.push(String::from_str(ext));
            assert(SUPPORTED_EXTENSIONS@.take(i + 1) =~= SUPPORTED_EXTENSIONS@.take(i as int).push(
                SUPPORTED_EXTENSIONS@[i as int],
            ));
            assert(string_texts(supported_extensions@) =~= string_texts(before).push(ext@));
            assert(str_texts(SUPPORTED_EXTENSIONS@.take(i + 1)) =~= str_texts(SUPPORTED_EXTENSIONS@.take(i as int)).push(ext@));
            i = i + 1;
        }
        assert(SUPPORTED_EXTENSIONS@.take(SUPPORTED_EXTENSIONS@.len() as int) == SUPPORTED_EXTENSIONS@);
        FileSettings {
            custom_directories: Vec::new(),
            watch_directories: false,
            supported_extensions,
            recursive_scan: true,
            max_scan_depth: 3,
        }
    }
}

} // verus!
