//! Which files of a directory the player takes into its playlist.
//!
//! Listing the directory is the runner's work; it hands over what it
//! found of each entry.
use vstd::prelude::*;
use crate::app::types::{AppError, AppEvent, FinderEvent};
use crate::player::player::AudioPlayer;

verus! {

/// What is known of an entry of a directory.
pub struct DirEntryInfo {
    /// Where the entry lies.
    pub path: String,
    /// The last component of its path.
    pub file_name: String,
    /// Whether it is a regular file (after following links).
    pub is_file: bool,
}

/// Index of the last `.` in `name`, or -1 where there is none.
pub open spec fn last_dot(name: Seq<char>) -> int
    decreases name.len(),
{
    if name.len() == 0 {
        -1
    } else if name.last() == '.' {
        name.len() - 1
    } else {
        last_dot(name.drop_last())
    }
}

/// The extension of a file name: what follows its last `.`, where that
/// `.` is not its first character; a name `..` has none.
pub open spec fn extension(name: Seq<char>) -> Option<Seq<char>> {
    let k = last_dot(name);
    if name == seq!['.', '.'] || k <= 0 {
        None
    } else {
        Some(name.subrange(k + 1, name.len() as int))
    }
}

/// Whether files with extension `ext` can be played.
pub open spec fn is_supported(ext: Seq<char>) -> bool {
    ext == "mp3"@
}

/// Whether an entry is a playable file.
pub open spec fn is_playable(entry: DirEntryInfo) -> bool {
    &&& entry.is_file
    &&& extension(entry.file_name@) matches Some(ext) && is_supported(ext)
}

/// An entry is playable exactly when it is a regular file whose name ends
/// in `.mp3` with at least one character before that `.`, whatever other
/// dots the name holds.
pub proof fn lemma_playable_exactly(entry: DirEntryInfo)
    ensures
        is_playable(entry) <==> ({
            let n = entry.file_name@;
            &&& entry.is_file
            &&& n.len() >= 5
            &&& n.subrange(n.len() - 4, n.len() as int) == seq!['.', 'm', 'p', '3']
        }),
{
    reveal_strlit("mp3");
    let n = entry.file_name@;
    lemma_last_dot_bounds(n);
    let k = last_dot(n);
    if n.len() >= 5 && n.subrange(n.len() - 4, n.len() as int) == seq!['.', 'm', 'p', '3'] {
        assert(n[n.len() - 4] == '.');
        lemma_last_dot_is_last(n, n.len() - 4);
        assert(k == n.len() - 4);
        assert(n != seq!['.', '.']);
        assert(n.subrange(k + 1, n.len() as int) =~= seq!['m', 'p', '3']);
        assert("mp3"@ =~= seq!['m', 'p', '3']);
    }
    if is_playable(entry) {
        let ext = extension(n).unwrap();
        assert(ext =~= seq!['m', 'p', '3']);
        assert(n.len() == k + 4);
        assert(n.subrange(n.len() - 4, n.len() as int) =~= seq!['.', 'm', 'p', '3']) by {
            assert(n[k] == '.');
            assert(n[k + 1] == ext[0]);
            assert(n[k + 2] == ext[1]);
            assert(n[k + 3] == ext[2]);
        }
    }
}

/// A `.` at position `j` with no `.` after it is the last one.
proof fn lemma_last_dot_is_last(name: Seq<char>, j: int)
    requires
        0 <= j < name.len(),
        name[j] == '.',
        forall|i: int| j < i < name.len() ==> name[i] != '.',
    ensures
        last_dot(name) == j,
    decreases name.len(),
{
    if name.last() != '.' {
        let front = name.drop_last();
        assert forall|i: int| j < i < front.len() implies front[i] != '.' by {
            assert(front[i] == name[i]);
        }
        lemma_last_dot_is_last(front, j);
    }
}

/// The paths of the playable entries, in the order given.
pub open spec fn playable_paths(entries: Seq<DirEntryInfo>) -> Seq<Seq<char>>
    decreases entries.len(),
{
    if entries.len() == 0 {
        Seq::empty()
    } else {
        let rest = playable_paths(entries.drop_last());
        if is_playable(entries.last()) {
            rest.push(entries.last().path@)
        } else {
            rest
        }
    }
}

/// Every path taken is that of a playable entry, and no more paths are
/// taken than there are entries.
pub proof fn lemma_playable_paths_sound(entries: Seq<DirEntryInfo>)
    ensures
        playable_paths(entries).len() <= entries.len(),
        forall|i: int|
            0 <= i < playable_paths(entries).len() ==> exists|j: int|
                0 <= j < entries.len() && is_playable(#[trigger] entries[j]) && entries[j].path@
                    == #[trigger] playable_paths(entries)[i],
    decreases entries.len(),
{
    if entries.len() > 0 {
        let front = entries.drop_last();
        lemma_playable_paths_sound(front);
        let paths = playable_paths(entries);
        assert forall|i: int| 0 <= i < paths.len() implies exists|j: int|
            0 <= j < entries.len() && is_playable(#[trigger] entries[j]) && entries[j].path@
                == #[trigger] paths[i] by {
            if i < playable_paths(front).len() {
                let j = choose|j: int|
                    0 <= j < front.len() && is_playable(#[trigger] front[j]) && front[j].path@
                        == #[trigger] playable_paths(front)[i];
                assert(entries[j] == front[j]);
            } else {
                assert(entries[entries.len() - 1] == entries.last());
            }
        }
    }
}

/// The files are taken in the order of the entries: each path taken is
/// that of a playable entry, in the order given, and every playable entry
/// is taken exactly once. The result lists, for each path, the position of
/// its entry.
pub proof fn lemma_playable_paths_in_order(entries: Seq<DirEntryInfo>) -> (from: Seq<int>)
    ensures
        from.len() == playable_paths(entries).len(),
        forall|i: int| 0 <= i < from.len() ==> 0 <= #[trigger] from[i] < entries.len(),
        forall|i: int| 0 <= i < from.len() ==> is_playable(entries[#[trigger] from[i]]),
        forall|i: int|
            0 <= i < from.len() ==> entries[from[i]].path@ == #[trigger] playable_paths(entries)[i],
        forall|i: int, j: int| 0 <= i < j < from.len() ==> #[trigger] from[i] < #[trigger] from[j],
        forall|k: int|
            0 <= k < entries.len() && is_playable(#[trigger] entries[k]) ==> exists|i: int|
                0 <= i < from.len() && #[trigger] from[i] == k,
    decreases entries.len(),
{
    if entries.len() == 0 {
        Seq::empty()
    } else {
        let front = entries.drop_last();
        let before = lemma_playable_paths_in_order(front);
        let last = entries.len() - 1;
        assert forall|k: int| 0 <= k < front.len() implies #[trigger] entries[k] == front[k] by {}
        if is_playable(entries.last()) {
            let from = before.push(last);
            assert forall|i: int| 0 <= i < from.len() implies is_playable(entries[#[trigger] from[i]])
                && entries[from[i]].path@ == playable_paths(entries)[i] by {
                if i < before.len() {
                    assert(from[i] == before[i]);
                    assert(is_playable(front[before[i]]));
                    assert(front[before[i]].path@ == playable_paths(front)[i]);
                    assert(entries[before[i]] == front[before[i]]);
                    assert(playable_paths(entries)[i] == playable_paths(front)[i]);
                } else {
                    assert(from[i] == last);
                    assert(entries[last] == entries.last());
                }
            }
            assert forall|k: int|
                0 <= k < entries.len() && is_playable(#[trigger] entries[k]) implies exists|i: int|
                0 <= i < from.len() && #[trigger] from[i] == k by {
                if k < last {
                    assert(is_playable(front[k]));
                    let i = choose|i: int| 0 <= i < before.len() && #[trigger] before[i] == k;
                    assert(from[i] == k);
                } else {
                    assert(from[before.len() as int] == k);
                }
            }
            from
        } else {
            assert forall|i: int| 0 <= i < before.len() implies is_playable(entries[#[trigger] before[i]])
                && entries[before[i]].path@ == playable_paths(entries)[i] by {
                assert(is_playable(front[before[i]]));
                assert(front[before[i]].path@ == playable_paths(front)[i]);
                assert(entries[before[i]] == front[before[i]]);
            }
            assert forall|k: int|
                0 <= k < entries.len() && is_playable(#[trigger] entries[k]) implies exists|i: int|
                0 <= i < before.len() && #[trigger] before[i] == k by {
                assert(k != last);
                assert(is_playable(front[k]));
            }
            before
        }
    }
}

/// Where every entry is a playable file, all of them are taken, in order.
pub proof fn lemma_playable_paths_complete(entries: Seq<DirEntryInfo>)
    requires
        forall|j: int| 0 <= j < entries.len() ==> is_playable(#[trigger] entries[j]),
    ensures
        playable_paths(entries) == entries.map_values(|e: DirEntryInfo| e.path@),
    decreases entries.len(),
{
    if entries.len() > 0 {
        let front = entries.drop_last();
        assert forall|j: int| 0 <= j < front.len() implies is_playable(#[trigger] front[j]) by {
            assert(front[j] == entries[j]);
        }
        lemma_playable_paths_complete(front);
        assert(is_playable(entries[entries.len() - 1]));
        assert(playable_paths(entries) =~= entries.map_values(|e: DirEntryInfo| e.path@));
    } else {
        assert(playable_paths(entries) =~= entries.map_values(|e: DirEntryInfo| e.path@));
    }
}

proof fn lemma_last_dot_bounds(name: Seq<char>)
    ensures
        -1 <= last_dot(name) < name.len(),
        last_dot(name) >= 0 ==> name[last_dot(name)] == '.',
        forall|i: int| last_dot(name) < i < name.len() ==> name[i] != '.',
    decreases name.len(),
{
    if name.len() > 0 && name.last() != '.' {
        let front = name.drop_last();
        lemma_last_dot_bounds(front);
        assert forall|i: int| last_dot(name) < i < name.len() implies name[i] != '.' by {
            if i < name.len() - 1 {
                assert(name[i] == front[i]);
            }
        }
    }
}

/// The extension of the file name `name`, as defined by [`extension`].
pub fn extension_of(name: &str) -> (ext: Option<&str>)
    ensures
        ext is None ==> extension(name@) is None,
        ext matches Some(e) ==> extension(name@) == Some(e@),
{
    let len = name.unicode_len();
    let mut k: usize = len;
    assert(name@.subrange(0, len as int) =~= name@);
    while k > 0 && name.get_char(k - 1) != '.'
        invariant
            k <= len,
            len == name@.len(),
            last_dot(name@) == last_dot(name@.subrange(0, k as int)),
        decreases k,
    {
        assert(name@.subrange(0, k - 1) =~= name@.subrange(0, k as int).drop_last());
        k = k - 1;
    }
    // `k` is one past the last `.`, or 0 where there is none.
    assert(last_dot(name@) == k - 1);
    if k <= 1 {
        return None;
    }
    proof {
        lemma_last_dot_bounds(name@);
    }
    if len == 2 && name.get_char(0) == '.' {
        assert(name@ =~= seq!['.', '.']);
        return None;
    }
    Some(name.substring_char(k, len))
}

/// Whether `a` and `b` hold the same text.
fn same_text(a: &str, b: &str) -> (same: bool)
    ensures
        same == (a@ == b@),
{
    a.to_owned() == b.to_owned()
}

/// Whether a file with extension `ext` can be played: it has one, and it
/// is one of the player's formats.
pub fn is_extension_supported(ext: Option<&str>) -> (supported: bool)
    ensures
        supported == (ext matches Some(e) && is_supported(e@)),
{
    match ext {
        None => false,
        Some(e) => {
            let formats = AudioPlayer::supported_formats();
            let mut found = false;
            for i in 0..formats.len()
                invariant
                    formats@ == seq!["mp3"],
                    found == (exists|j: int| 0 <= j < i && formats@[j]@ == e@),
            {
                if same_text(formats[i], e) {
                    found = true;
                }
            }
            assert(formats@[0] == "mp3");
            found
        },
    }
}

/// Whether an entry is a playable file.
pub fn is_file_supported(entry: &DirEntryInfo) -> (playable: bool)
    ensures
        playable == is_playable(*entry),
{
    entry.is_file && is_extension_supported(extension_of(entry.file_name.as_str()))
}

/// The paths of the playable entries, in the order given.
pub fn supported_files(entries: Vec<DirEntryInfo>) -> (files: Vec<String>)
    ensures
        files@.map_values(|f: String| f@) == playable_paths(entries@),
{
    let ghost all = entries@;
    let mut files: Vec<String> = Vec::new();
    for entry in it: entries
        invariant
            it.seq() == all,
            files@.map_values(|f: String| f@) == playable_paths(all.take(it.index() as int)),
    {
        let ghost i = it.index();
        assert(all.take(i + 1).drop_last() =~= all.take(i as int));
        assert(all.take(i + 1).last() == entry);
        if is_file_supported(&entry) {
            let ghost before = files@;
            files.push(entry.path);
            assert(files@.map_values(|f: String| f@) =~= before.map_values(|f: String| f@).push(
                entry.path@,
            ));
        }
    }
    assert(all.take(all.len() as int) =~= all);
    files
}

/// The event that reports what the search of a directory found: its
/// playable files, an empty playlist where it has none, or the error
/// that kept it from being listed.
pub fn lookup_event(listing: std::io::Result<Vec<DirEntryInfo>>) -> (event: AppEvent)
    ensures
        match listing {
            Ok(entries) => if playable_paths(entries@).len() > 0 {
                event matches AppEvent::Finder(FinderEvent::NewFiles(files)) && files@.map_values(
                    |f: String| f@,
                ) == playable_paths(entries@)
            } else {
                event matches AppEvent::Error(e) && e is EmptyPlaylist
            },
            Err(err) => event matches AppEvent::Error(AppError::IO(e)) && e == err,
        },
{
    match listing {
        Ok(entries) => {
            let files = supported_files(entries);
            if files.len() == 0 {
                AppEvent::Error(AppError::EmptyPlaylist)
            } else {
                AppEvent::Finder(FinderEvent::NewFiles(files))
            }
        },
        Err(e) => AppEvent::Error(AppError::IO(e)),
    }
}

} // verus!
