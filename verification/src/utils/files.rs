//! Discovery of the sound files: file names, extensions and the rules by
//! which the entries of the sound directories become tracks.

use vstd::prelude::*;

use crate::errors::{AppError, FileSystemError};
use crate::models::{str_texts, NoiseTrack, PlaybackState, SUPPORTED_EXTENSIONS};

verus! {

/// The stem (file name without its final extension) that `std::path::Path::file_stem`
/// gives for the path with this text, if any.
pub uninterp spec fn path_file_stem(path: Seq<char>) -> Option<Seq<char>>;

/// The extension that `std::path::Path::extension` gives for the path with this
/// text, if any.
pub uninterp spec fn path_extension(path: Seq<char>) -> Option<Seq<char>>;

/// Calls `std::path::Path::file_stem` on the path with the given text.
/// Claimed: the result is the named `path_file_stem` of the text (a path made
/// from a `str` is valid UTF-8, so its stem converts back to a `String`).
#[verifier::external_body]
fn file_stem_of(path: &str) -> (stem: Option<String>)
    ensures
        match stem {
            Some(s) => path_file_stem(path@) == Some(s@),
            None => path_file_stem(path@) is None,
        },
{
    std::path::Path::new(path).file_stem().and_then(|s| s.to_str()).map(|s| s.to_string())
}

/// Calls `std::path::Path::extension` on the path with the given text.
/// Claimed: the result is the named `path_extension` of the text.
#[verifier::external_body]
fn extension_of(path: &str) -> (ext: Option<String>)
    ensures
        match ext {
            Some(e) => path_extension(path@) == Some(e@),
            None => path_extension(path@) is None,
        },
{
    std::path::Path::new(path).extension().and_then(|s| s.to_str()).map(|s| s.to_string())
}

/// Calls `char::to_ascii_lowercase`. Claimed, as its documentation says: ASCII
/// letters 'A' to 'Z' map to 'a' to 'z', every other character is unchanged.
#[verifier::external_body]
fn char_to_ascii_lowercase(c: char) -> (r: char)
    ensures
        r == ascii_lower(c),
{
    c.to_ascii_lowercase()
}

/// The ASCII lower-case form of a character.
pub open spec fn ascii_lower(c: char) -> char {
    if 'A' <= c && c <= 'Z' {
        ((c as u32) + 32) as char
    } else {
        c
    }
}

/// Two texts are equal up to ASCII case.
pub open spec fn spec_eq_ignore_ascii_case(a: Seq<char>, b: Seq<char>) -> bool {
    &&& a.len() == b.len()
    &&& forall|i: int| 0 <= i < a.len() ==> ascii_lower(#[trigger] a[i]) == ascii_lower(b[i])
}

/// The file name of a path without its extension, or the empty text where the
/// path has none.
pub open spec fn spec_stem(path: Seq<char>) -> Seq<char> {
    match path_file_stem(path) {
        Some(s) => s,
        None => Seq::empty(),
    }
}

/// The extension is one of `extensions`, compared without regard to ASCII
/// case.
pub open spec fn spec_extension_in(ext: Seq<char>, extensions: Seq<Seq<char>>) -> bool {
    exists|i: int| 0 <= i < extensions.len() && spec_eq_ignore_ascii_case(#[trigger] extensions[i], ext)
}

/// The path's extension is one of `extensions`, compared without regard to
/// ASCII case.
pub open spec fn spec_has_extension(path: Seq<char>, extensions: Seq<Seq<char>>) -> bool {
    match path_extension(path) {
        Some(e) => spec_extension_in(e, extensions),
        None => false,
    }
}

/// Whether two texts are equal up to ASCII case.
pub fn eq_ignore_ascii_case(a: &str, b: &str) -> (res: bool)
    ensures
        res == spec_eq_ignore_ascii_case(a@, b@),
{
    let n = a.unicode_len();
    if n != b.unicode_len() {
        return false;
    }
    let mut i: usize = 0;
    while i < n
        invariant
            n == a@.len(),
            n == b@.len(),
            0 <= i <= n,
            forall|j: int| 0 <= j < i ==> ascii_lower(#[trigger] a@[j]) == ascii_lower(b@[j]),
        decreases n - i,
    {
        let ca = char_to_ascii_lowercase(a.get_char(i));
        let cb = char_to_ascii_lowercase(b.get_char(i));
        if ca != cb {
            assert(ascii_lower(a@[i as int]) != ascii_lower(b@[i as int]));
            return false;
        }
        i = i + 1;
    }
    true
}

/// The file name of a path without its extension; the empty text where the
/// path has no file name.
pub fn get_stem(name: &str) -> (stem: String)
    ensures
        stem@ == spec_stem(name@),
{
    match file_stem_of(name) {
        Some(s) => s,
        None => String::new(),
    }
}

/// Checking a path's extension against an allow-list.
pub trait FileExtension {
    /// Whether the path's extension is one of `extensions`, compared without
    /// regard to ASCII case; false where the path has no extension.
    fn has_extension(&self, extensions: &[&str]) -> (res: bool)
        ensures
            res == spec_has_extension(self.path_text(), str_texts(extensions@)),
    ;

    /// The text of the path.
    spec fn path_text(&self) -> Seq<char>;
}

impl FileExtension for str {
    open spec fn path_text(&self) -> Seq<char> {
        self@
    }

    fn has_extension(&self, extensions: &[&str]) -> (res: bool) {
        match extension_of(self) {
            None => false,
            Some(ext) => extension_in(ext.as_str(), extensions),
        }
    }
}

/// Whether the extension is one of `extensions`, compared without regard to
/// ASCII case.
pub fn extension_in(ext: &str, extensions: &[&str]) -> (res: bool)
    ensures
        res == spec_extension_in(ext@, str_texts(extensions@)),
{
    let mut i: usize = 0;
    while i < extensions.len()
        invariant
            0 <= i <= extensions@.len(),
            forall|j: int|
                0 <= j < i ==> !spec_eq_ignore_ascii_case(#[trigger] str_texts(extensions@)[j], ext@),
        decreases extensions@.len() - i,
    {
        if eq_ignore_ascii_case(extensions[i], ext) {
            assert(str_texts(extensions@)[i as int] == extensions@[i as int]@);
            return true;
        }
        assert(str_texts(extensions@)[i as int] == extensions@[i as int]@);
        i = i + 1;
    }
    false
}

/// One entry met while walking a sound directory: the directory itself,
/// then each entry directly inside it.
#[derive(Debug, Clone)]
pub enum WalkEntry {
    /// The walk could not read this entry.
    Unreadable,
    /// An entry, with the text of its path and whether it is a regular file.
    Found { path: String, is_file: bool },
}

/// A discovered sound file: its track name and the text of its path.
pub type FoundTrack = (Seq<char>, Seq<char>);

/// The track names among the discovered files.
pub open spec fn found_names(found: Seq<FoundTrack>) -> Seq<Seq<char>> {
    found.map_values(|t: FoundTrack| t.0)
}

/// The texts of the supported extensions.
pub open spec fn supported_extension_texts() -> Seq<Seq<char>> {
    str_texts(SUPPORTED_EXTENSIONS@)
}

/// Scanning walk entries in order, with `found` discovered so far: an
/// unreadable entry fails the scan, entries that are not regular files are
/// skipped, a file with an unsupported extension fails the scan, and a file
/// whose stem names no track found so far becomes a new track.
pub open spec fn spec_scan(entries: Seq<WalkEntry>, found: Seq<FoundTrack>) -> Result<
    Seq<FoundTrack>,
    FileSystemError,
>
    decreases entries.len(),
{
    if entries.len() == 0 {
        Ok(found)
    } else {
        let rest = entries.drop_first();
        match entries[0] {
            WalkEntry::Unreadable => Err(FileSystemError::DirectoryReadError),
            WalkEntry::Found { path, is_file } => {
                if !is_file {
                    spec_scan(rest, found)
                } else if !spec_has_extension(path@, supported_extension_texts()) {
                    Err(FileSystemError::InvalidFileFormat)
                } else if found_names(found).contains(spec_stem(path@)) {
                    spec_scan(rest, found)
                } else {
                    spec_scan(rest, found.push((spec_stem(path@), path@)))
                }
            },
        }
    }
}

/// The entries of a directory walk; none where the directory is missing.
pub open spec fn listing_entries(listing: Option<Vec<WalkEntry>>) -> Seq<WalkEntry> {
    match listing {
        Some(v) => v@,
        None => Seq::empty(),
    }
}

/// The tracks that the walks of the data and config sound directories give:
/// the data directory's entries first, then the config directory's. Where
/// neither directory exists there is nothing to play, and that is an error.
pub open spec fn spec_load_data(
    data_dir: Option<Vec<WalkEntry>>,
    config_dir: Option<Vec<WalkEntry>>,
) -> Result<Seq<FoundTrack>, AppError> {
    match spec_scan(listing_entries(data_dir) + listing_entries(config_dir), Seq::empty()) {
        Err(e) => Err(AppError::FileSystem(e)),
        Ok(found) => if found.len() == 0 && data_dir is None && config_dir is None {
            Err(AppError::FileSystem(FileSystemError::DirectoryNotFound))
        } else {
            Ok(found)
        },
    }
}

/// The name and path of each track.
pub open spec fn track_sources<V>(tracks: Seq<NoiseTrack<V>>) -> Seq<FoundTrack> {
    tracks.map_values(|t: NoiseTrack<V>| (t.name@, t.path@))
}

/// Whether one of the tracks has the given name.
fn has_track_named<V>(tracks: &Vec<NoiseTrack<V>>, name: &String) -> (res: bool)
    ensures
        res == found_names(track_sources(tracks@)).contains(name@),
{
    let mut i: usize = 0;
    while i < tracks.len()
        invariant
            0 <= i <= tracks@.len(),
            forall|j: int| 0 <= j < i ==> #[trigger] tracks@[j].name@ != name@,
        decreases tracks@.len() - i,
    {
        if tracks[i].name == *name {
            assert(found_names(track_sources(tracks@))[i as int] == name@);
            return true;
        }
        i = i + 1;
    }
    assert forall|j: int| 0 <= j < found_names(track_sources(tracks@)).len() implies
        #[trigger] found_names(track_sources(tracks@))[j] != name@ by {
        assert(found_names(track_sources(tracks@))[j] == tracks@[j].name@);
    }
    false
}

/// Turns the walks of the data and config sound directories into tracks,
/// each stopped and at `volume_level`. `None` stands for a directory that
/// does not exist.
pub fn load_data<V: Copy>(
    data_dir: Option<Vec<WalkEntry>>,
    config_dir: Option<Vec<WalkEntry>>,
    volume_level: V,
) -> (res: Result<Vec<NoiseTrack<V>>, AppError>)
    ensures
        match spec_load_data(data_dir, config_dir) {
            Ok(found) => res matches Ok(tracks) && track_sources(tracks@) == found && forall|i: int|
                0 <= i < tracks@.len() ==> (#[trigger] tracks@[i]).volume_level == volume_level
                    && tracks@[i].state == PlaybackState::Stopped,
            Err(e) => res == Err::<Vec<NoiseTrack<V>>, AppError>(e),
        },
        forall|k: int|
            #[trigger] first_failure_at(listing_entries(data_dir) + listing_entries(config_dir), k) ==> res
                == Err::<Vec<NoiseTrack<V>>, AppError>(
                AppError::FileSystem(failure_error((listing_entries(data_dir) + listing_entries(config_dir))[k])),
            ),
{
    let any_dir_exists = data_dir.is_some() || config_dir.is_some();
    let ghost all = listing_entries(data_dir) + listing_entries(config_dir);
    let ghost target = spec_load_data(data_dir, config_dir);
    assert forall|k: int| #[trigger] first_failure_at(all, k) implies target == Err::<Seq<FoundTrack>, AppError>(
        AppError::FileSystem(failure_error(all[k])),
    ) by {
        lemma_scan_fails_at_first_failure(all, Seq::empty(), k);
    }
    let mut entries: Vec<WalkEntry> = Vec::new();
    match data_dir {
        Some(mut v) => entries.append(&mut v),
        None => {},
    }
    match config_dir {
        Some(mut v) => entries.append(&mut v),
        None => {},
    }
    assert(entries@ == all);
    let mut tracks: Vec<NoiseTrack<V>> = Vec::new();
    let mut i: usize = 0;
    assert(entries@.skip(0) == entries@);
    assert(track_sources(tracks@) =~= Seq::<FoundTrack>::empty());
    while i < entries.len()
        invariant
            0 <= i <= entries@.len(),
            entries@ == all,
            all == listing_entries(data_dir) + listing_entries(config_dir),
            target == spec_load_data(data_dir, config_dir),
            forall|k: int| #[trigger] first_failure_at(all, k) ==> target == Err::<Seq<FoundTrack>, AppError>(
                AppError::FileSystem(failure_error(all[k])),
            ),
            target == match spec_scan(all, Seq::empty()) {
                Err(e) => Err(AppError::FileSystem(e)),
                Ok(found) => if found.len() == 0 && !any_dir_exists {
                    Err(AppError::FileSystem(FileSystemError::DirectoryNotFound))
                } else {
                    Ok(found)
                },
            },
            spec_scan(all, Seq::empty()) == spec_scan(entries@.skip(i as int), track_sources(tracks@)),
            forall|j: int|
                0 <= j < tracks@.len() ==> (#[trigger] tracks@[j]).volume_level == volume_level
                    && tracks@[j].state == PlaybackState::Stopped,
        decreases entries@.len() - i,
    {
        let ghost rest = entries@.skip(i as int);
        assert(rest[0] == entries@[i as int]);
        assert(rest.drop_first() == entries@.skip(i + 1));
        match &entries[i] {
            WalkEntry::Unreadable => {
                assert(spec_scan(rest, track_sources(tracks@)) == Err::<Seq<FoundTrack>, FileSystemError>(
                    FileSystemError::DirectoryReadError,
                ));
                return Err(AppError::FileSystem(FileSystemError::DirectoryReadError));
            },
            WalkEntry::Found { path, is_file } => {
                if *is_file {
                    if !path.as_str().has_extension(SUPPORTED_EXTENSIONS.as_slice()) {
                        assert(spec_scan(rest, track_sources(tracks@)) == Err::<Seq<FoundTrack>, FileSystemError>(
                            FileSystemError::InvalidFileFormat,
                        ));
                        return Err(AppError::FileSystem(FileSystemError::InvalidFileFormat));
                    }
                    let name = get_stem(path.as_str());
                    if !has_track_named(&tracks, &name) {
                        let ghost before = track_sources(tracks@);
                        tracks.push(NoiseTrack::new(name, path.clone(), volume_level));
                        assert(track_sources(tracks@) == before.push((spec_stem(path@), path@)));
                    }
                }
            },
        }
        i = i + 1;
    }
    if tracks.len() == 0 && !any_dir_exists {
        Err(AppError::FileSystem(FileSystemError::DirectoryNotFound))
    } else {
        Ok(tracks)
    }
}

/// The facts that the scan keeps of the tracks it has found: distinct
/// names, each the stem of its file's path, and a supported extension.
pub open spec fn well_found(found: Seq<FoundTrack>) -> bool {
    &&& found_names(found).no_duplicates()
    &&& forall|i: int|
        0 <= i < found.len() ==> (#[trigger] found[i]).0 == spec_stem(found[i].1) && spec_has_extension(
            found[i].1,
            supported_extension_texts(),
        )
}

/// A scan fails only on an unreadable entry or an unsupported file, and
/// what it finds keeps the facts of `well_found`.
pub proof fn lemma_scan_keeps_well_found(entries: Seq<WalkEntry>, found: Seq<FoundTrack>)
    requires
        well_found(found),
    ensures
        match spec_scan(entries, found) {
            Ok(result) => well_found(result),
            Err(e) => e == FileSystemError::DirectoryReadError || e == FileSystemError::InvalidFileFormat,
        },
    decreases entries.len(),
{
    if entries.len() > 0 {
        let rest = entries.drop_first();
        match entries[0] {
            WalkEntry::Unreadable => {},
            WalkEntry::Found { path, is_file } => {
                if !is_file {
                    lemma_scan_keeps_well_found(rest, found);
                } else if !spec_has_extension(path@, supported_extension_texts()) {
                } else if found_names(found).contains(spec_stem(path@)) {
                    lemma_scan_keeps_well_found(rest, found);
                } else {
                    let more = found.push((spec_stem(path@), path@));
                    assert(found_names(more) =~= found_names(found).push(spec_stem(path@)));
                    assert forall|i: int, j: int|
                        0 <= i < found_names(more).len() && 0 <= j < found_names(more).len() && i != j
                        implies found_names(more)[i] != found_names(more)[j] by {
                        if i == found.len() as int {
                            assert(found_names(found)[j] == found_names(more)[j]);
                        } else if j == found.len() as int {
                            assert(found_names(found)[i] == found_names(more)[i]);
                        }
                    }
                    assert forall|i: int| 0 <= i < more.len() implies (#[trigger] more[i]).0 == spec_stem(
                        more[i].1,
                    ) && spec_has_extension(more[i].1, supported_extension_texts()) by {
                        if i < found.len() {
                            assert(more[i] == found[i]);
                        }
                    }
                    lemma_scan_keeps_well_found(rest, more);
                }
            },
        }
    }
}

/// Every track that loading finds has a name that no other track has, the
/// stem of its file's path as its name, and a supported extension.
pub proof fn lemma_loaded_tracks_well_found(
    data_dir: Option<Vec<WalkEntry>>,
    config_dir: Option<Vec<WalkEntry>>,
)
    ensures
        spec_load_data(data_dir, config_dir) matches Ok(found) ==> {
            &&& found_names(found).no_duplicates()
            &&& forall|i: int|
                0 <= i < found.len() ==> (#[trigger] found[i]).0 == spec_stem(found[i].1)
                    && spec_has_extension(found[i].1, supported_extension_texts())
        },
{
    assert(well_found(Seq::<FoundTrack>::empty()));
    lemma_scan_keeps_well_found(listing_entries(data_dir) + listing_entries(config_dir), Seq::empty());
}

/// Loading reports that no sound directory was found exactly when neither
/// the data nor the config sound directory exists.
pub proof fn lemma_directory_not_found_iff_no_directory(
    data_dir: Option<Vec<WalkEntry>>,
    config_dir: Option<Vec<WalkEntry>>,
)
    ensures
        (spec_load_data(data_dir, config_dir) == Err::<Seq<FoundTrack>, AppError>(
            AppError::FileSystem(FileSystemError::DirectoryNotFound),
        )) <==> (data_dir is None && config_dir is None),
{
    assert(well_found(Seq::<FoundTrack>::empty()));
    let all = listing_entries(data_dir) + listing_entries(config_dir);
    lemma_scan_keeps_well_found(all, Seq::empty());
    if data_dir is None && config_dir is None {
        assert(all =~= Seq::<WalkEntry>::empty());
    }
}

/// The entry fails a scan by itself: it could not be read, or it is a
/// regular file whose extension is not supported.
pub open spec fn fails_scan(entry: WalkEntry) -> bool {
    match entry {
        WalkEntry::Unreadable => true,
        WalkEntry::Found { path, is_file } => is_file && !spec_has_extension(path@, supported_extension_texts()),
    }
}

/// The first entry of `entries` that fails a scan is the one at `k`.
pub open spec fn first_failure_at(entries: Seq<WalkEntry>, k: int) -> bool {
    &&& 0 <= k < entries.len()
    &&& fails_scan(entries[k])
    &&& forall|j: int| 0 <= j < k ==> !fails_scan(#[trigger] entries[j])
}

/// The error of an entry that fails a scan: a read error for an unreadable
/// entry, an invalid format for an unsupported file.
pub open spec fn failure_error(entry: WalkEntry) -> FileSystemError {
    match entry {
        WalkEntry::Unreadable => FileSystemError::DirectoryReadError,
        WalkEntry::Found { .. } => FileSystemError::InvalidFileFormat,
    }
}

/// A scan fails at the first entry that fails by itself, whatever was found
/// before it: with a read error where that entry is unreadable, with an
/// invalid format where it is an unsupported file.
pub proof fn lemma_scan_fails_at_first_failure(entries: Seq<WalkEntry>, found: Seq<FoundTrack>, k: int)
    requires
        first_failure_at(entries, k),
    ensures
        spec_scan(entries, found) == Err::<Seq<FoundTrack>, FileSystemError>(failure_error(entries[k])),
    decreases k,
{
    if k > 0 {
        let rest = entries.drop_first();
        assert(!fails_scan(entries[0]));
        assert(first_failure_at(rest, k - 1)) by {
            assert(rest[k - 1] == entries[k]);
            assert forall|j: int| 0 <= j < k - 1 implies !fails_scan(#[trigger] rest[j]) by {
                assert(rest[j] == entries[j + 1]);
            }
        }
        assert(rest[k - 1] == entries[k]);
        match entries[0] {
            WalkEntry::Unreadable => {},
            WalkEntry::Found { path, is_file } => {
                if !is_file {
                    lemma_scan_fails_at_first_failure(rest, found, k - 1);
                } else if found_names(found).contains(spec_stem(path@)) {
                    lemma_scan_fails_at_first_failure(rest, found, k - 1);
                } else {
                    lemma_scan_fails_at_first_failure(rest, found.push((spec_stem(path@), path@)), k - 1);
                }
            },
        }
    }
}

/// Loading fails at the first entry of the walks, the data directory's
/// first, that fails by itself, whatever tracks were found before it: an
/// unreadable entry anywhere in the walks, with only readable entries and
/// supported files before it, makes loading fail with a read error, never
/// with an empty list of tracks; an unsupported file there makes it fail
/// with an invalid format.
pub proof fn lemma_loading_fails_at_first_failure(
    data_dir: Option<Vec<WalkEntry>>,
    config_dir: Option<Vec<WalkEntry>>,
    k: int,
)
    requires
        first_failure_at(listing_entries(data_dir) + listing_entries(config_dir), k),
    ensures
        (listing_entries(data_dir) + listing_entries(config_dir))[k] is Unreadable ==> spec_load_data(
            data_dir,
            config_dir,
        ) == Err::<Seq<FoundTrack>, AppError>(AppError::FileSystem(FileSystemError::DirectoryReadError)),
        (listing_entries(data_dir) + listing_entries(config_dir))[k] is Found ==> spec_load_data(
            data_dir,
            config_dir,
        ) == Err::<Seq<FoundTrack>, AppError>(AppError::FileSystem(FileSystemError::InvalidFileFormat)),
{
    lemma_scan_fails_at_first_failure(listing_entries(data_dir) + listing_entries(config_dir), Seq::empty(), k);
}

/// A file is accepted whatever the ASCII case of its extension: the
/// comparison ignores case in both directions.
pub proof fn lemma_eq_ignore_ascii_case_symmetric(a: Seq<char>, b: Seq<char>)
    ensures
        spec_eq_ignore_ascii_case(a, b) == spec_eq_ignore_ascii_case(b, a),
        spec_eq_ignore_ascii_case(a, a),
{
}

} // verus!
