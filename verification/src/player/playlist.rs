//! Tracks, their metadata and the playlist that the player walks through.
use vstd::prelude::*;
use crate::app::types::{AppError, AppResult};

verus! {

/// Index of a track in a playlist.
pub type TrackId = usize;

/// A track index that may lie outside the playlist; it is brought back
/// into the playlist by [`Playlist::normalize`].
pub type TrackMaybeId = i128;

/// Length of a track, in whole seconds.
pub type TrackDuration = u64;

/// How far playback has gone into a track, in seconds.
#[derive(Default, Clone, Debug, PartialEq, Eq, Structural)]
pub struct TrackProgress(u64);

impl View for TrackProgress {
    type V = u64;

    closed spec fn view(&self) -> u64 {
        self.0
    }
}

/// The character of the decimal digit `d`.
pub open spec fn digit_char(d: nat) -> char {
    (d + 48) as char
}

/// The decimal representation of `n`, without leading zeros.
pub open spec fn decimal(n: nat) -> Seq<char>
    decreases n,
{
    if n < 10 {
        seq![digit_char(n)]
    } else {
        decimal(n / 10).push(digit_char(n % 10))
    }
}

/// The decimal representation of `n`, padded with zeros to two characters.
pub open spec fn two_digits(n: nat) -> Seq<char> {
    if n < 10 {
        seq!['0', digit_char(n)]
    } else {
        decimal(n)
    }
}

/// `secs` shown as minutes and seconds, `MM:SS`.
pub open spec fn clock_text(secs: nat) -> Seq<char> {
    two_digits(secs / 60) + seq![':'] + two_digits(secs % 60)
}

/// The one-character string of the decimal digit `d`.
fn digit_str(d: u64) -> (s: &'static str)
    requires
        d < 10,
    ensures
        s@ == seq![digit_char(d as nat)],
{
    proof {
        reveal_strlit("0");
        reveal_strlit("1");
        reveal_strlit("2");
        reveal_strlit("3");
        reveal_strlit("4");
        reveal_strlit("5");
        reveal_strlit("6");
        reveal_strlit("7");
        reveal_strlit("8");
        reveal_strlit("9");
    }
    match d {
        0 => "0",
        1 => "1",
        2 => "2",
        3 => "3",
        4 => "4",
        5 => "5",
        6 => "6",
        7 => "7",
        8 => "8",
        _ => "9",
    }
}

/// Appends the decimal representation of `n` to `text`.
pub fn push_decimal(text: &mut String, n: u64)
    ensures
        final(text)@ == old(text)@ + decimal(n as nat),
    decreases n,
{
    if n >= 10 {
        push_decimal(text, n / 10);
    }
    text.append(digit_str(n % 10));
    proof {
        if n >= 10 {
            assert(decimal(n as nat) == decimal((n / 10) as nat).push(digit_char((n % 10) as nat)));
        }
    }
    assert(final(text)@ =~= old(text)@ + decimal(n as nat));
}

/// The decimal representation of `n`.
pub fn decimal_string(n: u64) -> (text: String)
    ensures
        text@ == decimal(n as nat),
{
    let mut text = String::new();
    push_decimal(&mut text, n);
    assert(text@ =~= decimal(n as nat));
    text
}

/// Appends `n` padded with zeros to two digits.
fn push_two_digits(text: &mut String, n: u64)
    ensures
        final(text)@ == old(text)@ + two_digits(n as nat),
{
    if n < 10 {
        text.append("0");
        proof {
            reveal_strlit("0");
        }
    }
    push_decimal(text, n);
    assert(final(text)@ =~= old(text)@ + two_digits(n as nat));
}

/// A number below 10 has one digit, one below 100 two.
proof fn lemma_decimal_short(n: nat)
    requires
        n < 100,
    ensures
        n < 10 ==> decimal(n) == seq![digit_char(n)],
        10 <= n ==> decimal(n) == seq![digit_char(n / 10), digit_char(n % 10)],
{
    if n >= 10 {
        assert(decimal(n / 10) == seq![digit_char(n / 10)]);
        assert(decimal(n) =~= seq![digit_char(n / 10), digit_char(n % 10)]);
    }
}

/// Under a hundred minutes, the progress reads as five characters, `MM:SS`.
pub proof fn lemma_clock_text_shape(secs: nat)
    requires
        secs < 6000,
    ensures
        clock_text(secs).len() == 5,
        clock_text(secs)[2] == ':',
        clock_text(secs)[0] == digit_char(secs / 600),
        clock_text(secs)[1] == digit_char((secs / 60) % 10),
        clock_text(secs)[3] == digit_char((secs % 60) / 10),
        clock_text(secs)[4] == digit_char(secs % 10),
{
    let m = secs / 60;
    let s = secs % 60;
    lemma_decimal_short(m);
    lemma_decimal_short(s);
    assert(m / 10 == secs / 600);
    assert(s % 10 == secs % 10);
    if m < 10 {
        assert(m % 10 == m);
    }
    if s < 10 {
        assert(s / 10 == 0);
    }
    assert(two_digits(m) =~= seq![digit_char(secs / 600), digit_char(m % 10)]);
    assert(two_digits(s) =~= seq![digit_char(s / 10), digit_char(secs % 10)]);
}

impl TrackProgress {
    /// The progress after `secs` seconds of playback.
    pub fn from_secs(secs: u64) -> (p: Self)
        ensures
            p@ == secs,
    {
        TrackProgress(secs)
    }

    /// Seconds played.
    pub fn secs(&self) -> (secs: u64)
        ensures
            secs == self@,
    {
        self.0
    }

    /// The progress as the user sees it: minutes and seconds, each at
    /// least two digits wide, `MM:SS`.
    pub fn to_string(&self) -> (text: String)
        ensures
            text@ == clock_text(self@ as nat),
    {
        let mut text = String::new();
        push_two_digits(&mut text, self.0 / 60);
        text.append(":");
        proof {
            reveal_strlit(":");
        }
        push_two_digits(&mut text, self.0 % 60);
        assert(text@ =~= clock_text(self@ as nat));
        text
    }
}

/// Index of the last `/` in `path`, or -1 where there is none.
pub open spec fn last_slash(path: Seq<char>) -> int
    decreases path.len(),
{
    if path.len() == 0 {
        -1
    } else if path.last() == '/' {
        path.len() - 1
    } else {
        last_slash(path.drop_last())
    }
}

/// Where the last `/` of a path lies.
pub proof fn lemma_last_slash_bounds(path: Seq<char>)
    ensures
        -1 <= last_slash(path) < path.len(),
        last_slash(path) >= 0 ==> path[last_slash(path)] == '/',
        path.len() > 0 && path.last() != '/' ==> last_slash(path) < path.len() - 1,
    decreases path.len(),
{
    if path.len() > 0 && path.last() != '/' {
        lemma_last_slash_bounds(path.drop_last());
    }
}

/// The last component of a path, as `std::path::Path::file_name` finds it
/// on Unix: trailing `/` and `.` components are passed over, and a path
/// that ends in `..`, is a root or is empty has none.
pub open spec fn file_name(path: Seq<char>) -> Option<Seq<char>>
    decreases path.len(),
{
    if path.len() == 0 {
        None
    } else if path.last() == '/' {
        file_name(path.drop_last())
    } else {
        let k = last_slash(path);
        let component = path.subrange(k + 1, path.len() as int);
        if component == seq!['.'] {
            proof {
                lemma_last_slash_bounds(path);
            }
            file_name(path.subrange(0, k + 1))
        } else if component == seq!['.', '.'] {
            None
        } else {
            Some(component)
        }
    }
}

/// The last component of `path`, as defined by [`file_name`].
pub fn file_name_of(path: &str) -> (name: Option<&str>)
    ensures
        name is None ==> file_name(path@) is None,
        name matches Some(n) ==> file_name(path@) == Some(n@),
{
    let mut end: usize = path.unicode_len();
    assert(path@.subrange(0, end as int) =~= path@);
    while end > 0
        invariant
            end <= path@.len(),
            file_name(path@) == file_name(path@.subrange(0, end as int)),
        decreases end,
    {
        let ghost front = path@.subrange(0, end as int);
        if path.get_char(end - 1) == '/' {
            assert(front.drop_last() =~= path@.subrange(0, end - 1));
            end = end - 1;
        } else {
            let mut start: usize = end;
            assert(front.subrange(0, end as int) =~= front);
            while start > 0 && path.get_char(start - 1) != '/'
                invariant
                    start <= end,
                    end <= path@.len(),
                    front == path@.subrange(0, end as int),
                    last_slash(front) == last_slash(front.subrange(0, start as int)),
                decreases start,
            {
                assert(front.subrange(0, start - 1) =~= front.subrange(0, start as int).drop_last());
                start = start - 1;
            }
            assert(last_slash(front) == start - 1);
            let component = path.substring_char(start, end);
            assert(component@ =~= front.subrange(start as int, end as int));
            let len = end - start;
            if len == 1 && path.get_char(start) == '.' {
                assert(component@ =~= seq!['.']);
                assert(front.subrange(0, start as int) =~= path@.subrange(0, start as int));
                end = start;
            } else if len == 2 && path.get_char(start) == '.' && path.get_char(start + 1) == '.' {
                assert(component@ =~= seq!['.', '.']);
                return None;
            } else {
                assert(component@.len() == len);
                if len >= 1 {
                    assert(component@[0] == path@[start as int]);
                }
                if len >= 2 {
                    assert(component@[1] == path@[start + 1]);
                }
                assert(component@ != seq!['.']);
                assert(component@ != seq!['.', '.']);
                return Some(component);
            }
        }
    }
    None
}

/// The name under which a track is listed: the last component of its
/// path, empty where the path has none.
pub fn track_fullname(path: &str) -> (fullname: String)
    ensures
        fullname@ == match file_name(path@) {
            Some(n) => n,
            None => Seq::empty(),
        },
{
    match file_name_of(path) {
        Some(name) => name.to_owned(),
        None => String::new(),
    }
}

/// What the player shows of a track.
#[derive(Debug, PartialEq)]
pub struct TrackMetadata {
    pub fullname: String,
    pub title: String,
    pub author: String,
    pub duration: TrackDuration,
}

impl Clone for TrackMetadata {
    fn clone(&self) -> (copy: Self)
        ensures
            copy == *self,
    {
        TrackMetadata {
            fullname: self.fullname.clone(),
            title: self.title.clone(),
            author: self.author.clone(),
            duration: self.duration,
        }
    }
}

/// The text fields of a file's primary tag, each present only where the
/// tag holds it.
pub struct TagFields {
    pub title: Option<String>,
    pub artist: Option<String>,
}

/// Title shown for a file without a primary tag.
pub open spec fn no_title() -> Seq<char> {
    "No Title"@
}

/// Author shown for a file without a primary tag.
pub open spec fn no_author() -> Seq<char> {
    "No Author"@
}

/// The text of an optional tag field, empty where the field is missing.
pub open spec fn field_text(field: Option<String>) -> Seq<char> {
    match field {
        Some(s) => s@,
        None => Seq::empty(),
    }
}

/// An optional tag field as a string, empty where it is missing.
fn field_or_empty(field: Option<String>) -> (text: String)
    ensures
        text@ == field_text(field),
{
    match field {
        Some(s) => s,
        None => String::new(),
    }
}

impl TrackMetadata {
    /// The metadata of a file named `fullname`, given what was read from
    /// it: its primary tag, if it has one, and its length in seconds.
    /// A file without a primary tag is shown as "No Title" by "No Author";
    /// a field that the tag lacks is shown empty.
    pub fn from_tags(fullname: String, tag: Option<TagFields>, duration: TrackDuration) -> (m: Self)
        ensures
            m.fullname@ == fullname@,
            m.duration == duration,
            tag is None ==> m.title@ == no_title() && m.author@ == no_author(),
            tag matches Some(t) ==> m.title@ == field_text(t.title) && m.author@
                == field_text(t.artist),
    {
        let (title, author) = match tag {
            Some(t) => (field_or_empty(t.title), field_or_empty(t.artist)),
            None => ("No Title".to_owned(), "No Author".to_owned()),
        };
        TrackMetadata { fullname, title, author, duration }
    }
}

/// A playable file: where it lies and what is shown of it.
#[derive(Clone, Debug)]
pub struct Track {
    path: String,
    metadata: TrackMetadata,
}

impl Track {
    /// Where the track's file lies.
    pub closed spec fn spec_path(&self) -> Seq<char> {
        self.path@
    }

    /// What is shown of the track.
    pub closed spec fn spec_metadata(&self) -> TrackMetadata {
        self.metadata
    }

    /// The track of the file at `path`, with the metadata read from it.
    pub fn new(path: String, metadata: TrackMetadata) -> (t: Self)
        ensures
            t.spec_path() == path@,
            t.spec_metadata() == metadata,
    {
        Track { path, metadata }
    }

    pub fn metadata(&self) -> (m: &TrackMetadata)
        ensures
            *m == self.spec_metadata(),
    {
        &self.metadata
    }

    pub fn path(&self) -> (p: &String)
        ensures
            p@ == self.spec_path(),
    {
        &self.path
    }
}

/// The tracks that could be read, in the order given.
pub open spec fn readable_tracks(results: Seq<AppResult<Track>>) -> Seq<Track>
    decreases results.len(),
{
    if results.len() == 0 {
        Seq::empty()
    } else {
        let rest = readable_tracks(results.drop_last());
        match results.last() {
            Ok(t) => rest.push(t),
            Err(_) => rest,
        }
    }
}

/// Every track of the playlist was read from one of the files, and there
/// are no more tracks than files.
pub proof fn lemma_readable_tracks_sound(results: Seq<AppResult<Track>>)
    ensures
        readable_tracks(results).len() <= results.len(),
        forall|i: int|
            0 <= i < readable_tracks(results).len() ==> exists|j: int|
                0 <= j < results.len() && #[trigger] results[j] == Ok::<Track, AppError>(
                    #[trigger] readable_tracks(results)[i],
                ),
    decreases results.len(),
{
    if results.len() > 0 {
        let front = results.drop_last();
        lemma_readable_tracks_sound(front);
        let tracks = readable_tracks(results);
        assert forall|i: int| 0 <= i < tracks.len() implies exists|j: int|
            0 <= j < results.len() && #[trigger] results[j] == Ok::<Track, AppError>(
                #[trigger] tracks[i],
            ) by {
            if i < readable_tracks(front).len() {
                let j = choose|j: int|
                    0 <= j < front.len() && #[trigger] front[j] == Ok::<Track, AppError>(
                        #[trigger] readable_tracks(front)[i],
                    );
                assert(results[j] == front[j]);
            } else {
                assert(results[results.len() - 1] == results.last());
            }
        }
    }
}

/// The playlist keeps the order of the files: its tracks are the readable
/// results, in the order given, each exactly once. The result lists, for
/// each track, the position of the file it was read from.
pub proof fn lemma_readable_tracks_in_order(results: Seq<AppResult<Track>>) -> (from: Seq<int>)
    ensures
        from.len() == readable_tracks(results).len(),
        forall|i: int| 0 <= i < from.len() ==> 0 <= #[trigger] from[i] < results.len(),
        forall|i: int|
            0 <= i < from.len() ==> results[from[i]] == Ok::<Track, AppError>(
                #[trigger] readable_tracks(results)[i],
            ),
        forall|i: int, j: int| 0 <= i < j < from.len() ==> #[trigger] from[i] < #[trigger] from[j],
        forall|k: int|
            0 <= k < results.len() && (#[trigger] results[k]) is Ok ==> exists|i: int|
                0 <= i < from.len() && #[trigger] from[i] == k,
    decreases results.len(),
{
    if results.len() == 0 {
        Seq::empty()
    } else {
        let front = results.drop_last();
        let before = lemma_readable_tracks_in_order(front);
        let last = results.len() - 1;
        assert forall|k: int| 0 <= k < front.len() implies #[trigger] results[k] == front[k] by {}
        match results.last() {
            Ok(t) => {
                let from = before.push(last);
                assert forall|k: int|
                    0 <= k < results.len() && (#[trigger] results[k]) is Ok implies exists|i: int|
                    0 <= i < from.len() && #[trigger] from[i] == k by {
                    if k < last {
                        assert(front[k] is Ok);
                        let i = choose|i: int| 0 <= i < before.len() && #[trigger] before[i] == k;
                        assert(from[i] == k);
                    } else {
                        assert(from[before.len() as int] == k);
                    }
                }
                from
            },
            Err(_) => {
                assert forall|k: int|
                    0 <= k < results.len() && (#[trigger] results[k]) is Ok implies exists|i: int|
                    0 <= i < before.len() && #[trigger] before[i] == k by {
                    assert(k != last);
                    assert(front[k] is Ok);
                }
                before
            },
        }
    }
}

/// Where every file could be read, the playlist holds all their tracks,
/// in order.
pub proof fn lemma_readable_tracks_complete(results: Seq<AppResult<Track>>)
    requires
        forall|j: int| 0 <= j < results.len() ==> (#[trigger] results[j]) is Ok,
    ensures
        readable_tracks(results).len() == results.len(),
        forall|i: int|
            0 <= i < results.len() ==> results[i] == Ok::<Track, AppError>(
                #[trigger] readable_tracks(results)[i],
            ),
    decreases results.len(),
{
    if results.len() > 0 {
        let front = results.drop_last();
        assert forall|j: int| 0 <= j < front.len() implies (#[trigger] front[j]) is Ok by {
            assert(front[j] == results[j]);
        }
        lemma_readable_tracks_complete(front);
        assert(results[results.len() - 1] is Ok);
        assert forall|i: int| 0 <= i < results.len() implies results[i] == Ok::<Track, AppError>(
            #[trigger] readable_tracks(results)[i],
        ) by {
            if i < front.len() {
                assert(results[i] == front[i]);
            }
        }
    }
}

/// Where an index lands in a playlist of `len` tracks: before the start
/// it is the last track, past the end the first.
pub open spec fn normalized(len: nat, id: int) -> int {
    if id < 0 {
        len - 1
    } else if id >= len {
        0
    } else {
        id
    }
}

/// In a playlist that is not empty, every index lands on a track.
pub proof fn lemma_normalized_in_range(len: nat, id: int)
    requires
        len > 0,
    ensures
        0 <= normalized(len, id) < len,
{
}

/// An index inside the playlist lands on itself.
pub proof fn lemma_normalized_inside(len: nat, id: int)
    requires
        0 <= id < len,
    ensures
        normalized(len, id) == id,
{
}

/// Stepping forward from a track of the playlist lands on the next one,
/// the first after the last.
pub proof fn lemma_step_forward_wraps(len: nat, i: int)
    requires
        0 <= i < len,
    ensures
        normalized(len, i + 1) == (i + 1) % (len as int),
{
    if i + 1 < len {
        vstd::arithmetic::div_mod::lemma_small_mod((i + 1) as nat, len);
    } else {
        vstd::arithmetic::div_mod::lemma_mod_self_0(len as int);
    }
}

/// Stepping back from a track of the playlist lands on the one before,
/// the last before the first.
pub proof fn lemma_step_back_wraps(len: nat, i: int)
    requires
        0 <= i < len,
    ensures
        normalized(len, i - 1) == (i + len - 1) % (len as int),
{
    if i > 0 {
        vstd::arithmetic::div_mod::lemma_mod_add_multiples_vanish(i - 1, len as int);
        vstd::arithmetic::div_mod::lemma_small_mod((i - 1) as nat, len);
    } else {
        vstd::arithmetic::div_mod::lemma_small_mod((len - 1) as nat, len);
    }
}

/// A step forward and a step back, in either order, come back to the
/// track they started from.
pub proof fn lemma_steps_cancel(len: nat, i: int)
    requires
        0 <= i < len,
    ensures
        normalized(len, normalized(len, i + 1) - 1) == i,
        normalized(len, normalized(len, i - 1) + 1) == i,
{
}

/// The tracks that the player can play, in order.
#[derive(Default, Clone, Debug)]
pub struct Playlist {
    playlist: Vec<Track>,
}

impl View for Playlist {
    type V = Seq<Track>;

    closed spec fn view(&self) -> Seq<Track> {
        self.playlist@
    }
}

/// A playlist made from the results of reading a list of files holds at
/// least one and at most as many tracks as there were files, in the order
/// of the files, and looking up any of its positions gives the track there.
/// The result lists, for each track, the position of its file.
pub proof fn lemma_playlist_from_reads(results: Seq<AppResult<Track>>, playlist: Playlist) -> (from:
    Seq<int>)
    requires
        playlist@ == readable_tracks(results),
        playlist@.len() > 0,
    ensures
        1 <= playlist@.len() <= results.len(),
        from.len() == playlist@.len(),
        forall|i: int|
            0 <= i < from.len() ==> 0 <= #[trigger] from[i] < results.len() && results[from[i]]
                == Ok::<Track, AppError>(playlist@[i]),
        forall|i: int, j: int| 0 <= i < j < from.len() ==> #[trigger] from[i] < #[trigger] from[j],
        forall|i: int|
            0 <= i < playlist@.len() ==> #[trigger] playlist@[normalized(playlist@.len(), i)]
                == playlist@[i],
{
    lemma_readable_tracks_sound(results);
    let from = lemma_readable_tracks_in_order(results);
    assert forall|i: int| 0 <= i < from.len() implies 0 <= #[trigger] from[i] < results.len()
        && results[from[i]] == Ok::<Track, AppError>(playlist@[i]) by {
        assert(results[from[i]] == Ok::<Track, AppError>(readable_tracks(results)[i]));
    }
    from
}

impl Playlist {
    /// The index at which `id` lands in this playlist.
    pub fn normalize(&self, id: TrackMaybeId) -> (n: TrackId)
        requires
            id >= 0 || self@.len() > 0,
        ensures
            n == normalized(self@.len(), id as int),
    {
        if id < 0 {
            self.playlist.len() - 1
        } else if id >= self.playlist.len() as TrackMaybeId {
            0
        } else {
            id as TrackId
        }
    }

    /// The track at which `id` lands in this playlist.
    pub fn get(&self, id: TrackMaybeId) -> (t: &Track)
        requires
            self@.len() > 0,
        ensures
            *t == self@[normalized(self@.len(), id as int)],
    {
        &self.playlist[self.normalize(id)]
    }

    pub fn get_playlist(&self) -> (tracks: &Vec<Track>)
        ensures
            tracks@ == self@,
    {
        &self.playlist
    }

    /// The playlist of the tracks that could be read, in the order given;
    /// an error where none could.
    pub fn try_from_tracks(tracks: Vec<AppResult<Track>>) -> (r: AppResult<Playlist>)
        ensures
            r matches Ok(p) ==> p@ == readable_tracks(tracks@) && p@.len() > 0,
            r matches Err(e) ==> e is EmptyPlaylist && readable_tracks(tracks@).len() == 0,
    {
        let ghost all = tracks@;
        let mut playlist: Vec<Track> = Vec::new();
        for result in it: tracks
            invariant
                it.seq() == all,
                playlist@ == readable_tracks(all.take(it.index() as int)),
        {
            let ghost i = it.index();
            assert(all.take(i + 1).drop_last() =~= all.take(i as int));
            match result {
                Ok(track) => playlist.push(track),
                Err(_) => {},
            }
        }
        assert(all.take(all.len() as int) =~= all);
        if playlist.len() == 0 {
            Err(AppError::EmptyPlaylist)
        } else {
            Ok(Playlist { playlist })
        }
    }
}

} // verus!
