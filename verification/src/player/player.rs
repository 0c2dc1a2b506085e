//! The player's state: which playlist is loaded and which track is
//! current, and the choice of the track to play for each request.
//!
//! Playing sound is the audio back end's work; the player decides what it
//! is asked to do and records the outcome.
use vstd::prelude::*;
use super::playlist::{
    Playlist, Track, TrackId, TrackMaybeId, TrackMetadata, lemma_step_back_wraps,
    lemma_step_forward_wraps, normalized, readable_tracks,
};
use crate::app::types::{AppError, AppResult};

verus! {

/// How the next track is chosen. Only the playlist order is supported:
/// a player is always in the `Default` mode.
pub enum AudioPlayerMode {
    Default,
    Random,
}

/// The track the player is on.
#[derive(Clone, Copy, Debug, PartialEq, Eq, Structural)]
pub enum CurrentTrack {
    Uninitialized,
    Initialized,
    Selected(TrackId),
}

/// The index that a current track stands for: before the first track
/// while nothing was played yet.
pub open spec fn track_index(c: CurrentTrack) -> int {
    match c {
        CurrentTrack::Uninitialized => -1,
        CurrentTrack::Initialized => 0,
        CurrentTrack::Selected(id) => id as int,
    }
}

impl CurrentTrack {
    pub fn get(&self) -> (i: TrackMaybeId)
        ensures
            i == track_index(*self),
    {
        match *self {
            CurrentTrack::Uninitialized => -1,
            CurrentTrack::Initialized => 0,
            CurrentTrack::Selected(id) => id as TrackMaybeId,
        }
    }
}

/// Whether `id` names the current track `c`.
pub open spec fn is_current(c: CurrentTrack, id: int) -> bool {
    c matches CurrentTrack::Selected(n) && n as int == id
}

/// What is shown of each track, in playlist order.
pub open spec fn metadata_of(tracks: Seq<Track>) -> Seq<TrackMetadata> {
    tracks.map_values(|t: Track| t.spec_metadata())
}

/// The metadata listed for a playlist is each track's own metadata,
/// unchanged and in playlist order: one entry per track, every field as the
/// track holds it.
pub proof fn lemma_metadata_of_each_track(tracks: Seq<Track>)
    ensures
        metadata_of(tracks).len() == tracks.len(),
        forall|i: int|
            0 <= i < tracks.len() ==> {
                let m = #[trigger] metadata_of(tracks)[i];
                &&& m == tracks[i].spec_metadata()
                &&& m.fullname == tracks[i].spec_metadata().fullname
                &&& m.title == tracks[i].spec_metadata().title
                &&& m.author == tracks[i].spec_metadata().author
                &&& m.duration == tracks[i].spec_metadata().duration
            },
{
}

/// The track that a request for index `id` leads to: where `id` lands in
/// the loaded playlist, or nothing where no playlist is loaded.
pub open spec fn track_choice(tracks: Option<Seq<Track>>, id: int) -> Option<TrackId> {
    match tracks {
        Some(t) => Some(normalized(t.len(), id) as TrackId),
        None => None,
    }
}

/// Whether `r` is the answer to a request that leads to `choice`: the
/// chosen track, or the empty-playlist error where there is none.
pub open spec fn answers(r: AppResult<TrackId>, choice: Option<TrackId>) -> bool {
    match choice {
        Some(n) => r matches Ok(m) && m == n,
        None => r matches Err(e) && e is EmptyPlaylist,
    }
}

/// Before anything was played, "next" starts the first track of the
/// playlist and "previous" the last.
pub proof fn lemma_first_step(tracks: Seq<Track>)
    requires
        tracks.len() > 0,
    ensures
        track_choice(Some(tracks), track_index(CurrentTrack::Uninitialized) + 1) == Some(0usize),
        track_choice(Some(tracks), track_index(CurrentTrack::Uninitialized) - 1) == Some(
            (tracks.len() - 1) as usize,
        ),
{
}

/// From track `i` of the playlist, "next" starts the following track, the
/// first after the last, and "previous" the one before, the last before
/// the first.
pub proof fn lemma_steps_from_track(tracks: Seq<Track>, i: TrackId)
    requires
        i < tracks.len(),
    ensures
        track_choice(Some(tracks), track_index(CurrentTrack::Selected(i)) + 1) == Some(
            ((i + 1) % (tracks.len() as int)) as usize,
        ),
        track_choice(Some(tracks), track_index(CurrentTrack::Selected(i)) - 1) == Some(
            ((i + tracks.len() - 1) % (tracks.len() as int)) as usize,
        ),
{
    lemma_step_forward_wraps(tracks.len(), i as int);
    lemma_step_back_wraps(tracks.len(), i as int);
}

/// The metadata of each track of `playlist`, in order.
fn metadata_list(playlist: &Playlist) -> (meta: Vec<TrackMetadata>)
    ensures
        meta@ == metadata_of(playlist@),
{
    let tracks = playlist.get_playlist();
    let mut meta: Vec<TrackMetadata> = Vec::new();
    for i in 0..tracks.len()
        invariant
            tracks@ == playlist@,
            meta@ == metadata_of(playlist@).take(i as int),
    {
        meta.push(tracks[i].metadata().clone());
        assert(meta@ =~= metadata_of(playlist@).take(i + 1));
    }
    assert(metadata_of(playlist@).take(tracks.len() as int) =~= metadata_of(playlist@));
    meta
}

/// The player's state: the loaded playlist, if any, and the current track.
pub struct AudioPlayer {
    playlist: Option<Playlist>,
    current_track: CurrentTrack,
    mode: AudioPlayerMode,
}

impl AudioPlayer {
    /// A loaded playlist is never empty, and tracks follow the playlist
    /// order.
    #[verifier::type_invariant]
    spec fn inv(&self) -> bool {
        &&& self.mode is Default
        &&& self.playlist matches Some(p) ==> p@.len() > 0
    }

    /// The tracks of the loaded playlist, if one is loaded.
    pub closed spec fn tracks(&self) -> Option<Seq<Track>> {
        match self.playlist {
            Some(p) => Some(p@),
            None => None,
        }
    }

    /// The track the player is on.
    pub closed spec fn current(&self) -> CurrentTrack {
        self.current_track
    }

    /// A player with no playlist, before its first track.
    pub fn new() -> (p: Self)
        ensures
            p.tracks() is None,
            p.current() == CurrentTrack::Uninitialized,
    {
        AudioPlayer {
            playlist: None,
            current_track: CurrentTrack::Uninitialized,
            mode: AudioPlayerMode::Default,
        }
    }

    /// The file extensions the player can play.
    pub fn supported_formats() -> (formats: Vec<&'static str>)
        ensures
            formats@ == seq!["mp3"],
    {
        let formats = vec!["mp3"];
        assert(formats@ =~= seq!["mp3"]);
        formats
    }

    pub fn current_track(&self) -> (c: CurrentTrack)
        ensures
            c == self.current(),
    {
        self.current_track
    }

    /// What is shown of each track of the loaded playlist, if one is
    /// loaded.
    pub fn playlist(&self) -> (meta: Option<Vec<TrackMetadata>>)
        ensures
            self.tracks() matches Some(t) ==> t.len() > 0,
            self.tracks() is None ==> meta is None,
            self.tracks() matches Some(t) ==> (meta matches Some(m) && m@ == metadata_of(t)),
    {
        proof {
            use_type_invariant(self);
        }
        match &self.playlist {
            Some(p) => Some(metadata_list(p)),
            None => None,
        }
    }

    /// Loads the playlist of the tracks that could be read, in the order
    /// given, and returns what is shown of them. Where no track could be
    /// read, the player keeps its playlist and the error says so. The
    /// current track is kept either way.
    pub fn try_new_playlist(&mut self, tracks: Vec<AppResult<Track>>) -> (r: AppResult<
        Vec<TrackMetadata>,
    >)
        ensures
            final(self).current() == old(self).current(),
            readable_tracks(tracks@).len() == 0 ==> (r matches Err(e) && e is EmptyPlaylist
                && final(self).tracks() == old(self).tracks()),
            readable_tracks(tracks@).len() > 0 ==> (r matches Ok(meta) && final(self).tracks()
                == Some(readable_tracks(tracks@)) && meta@ == metadata_of(
                readable_tracks(tracks@),
            )),
    {
        proof {
            use_type_invariant(&*self);
        }
        match Playlist::try_from_tracks(tracks) {
            Ok(playlist) => {
                let meta = metadata_list(&playlist);
                self.playlist = Some(playlist);
                Ok(meta)
            },
            Err(e) => Err(e),
        }
    }

    /// Loads the playlist of the tracks that could be read, in the order
    /// given; where none could, the player is left without a playlist.
    /// The current track is kept either way.
    pub fn new_playlist(&mut self, tracks: Vec<AppResult<Track>>)
        ensures
            final(self).current() == old(self).current(),
            readable_tracks(tracks@).len() == 0 ==> final(self).tracks() is None,
            readable_tracks(tracks@).len() > 0 ==> final(self).tracks() == Some(
                readable_tracks(tracks@),
            ),
    {
        proof {
            use_type_invariant(&*self);
        }
        self.playlist = match Playlist::try_from_tracks(tracks) {
            Ok(playlist) => Some(playlist),
            Err(_) => None,
        };
    }

    /// The track to play for a request of index `id`.
    fn track_to_play(&self, id: TrackMaybeId) -> (r: AppResult<TrackId>)
        ensures
            answers(r, track_choice(self.tracks(), id as int)),
    {
        proof {
            use_type_invariant(self);
        }
        match &self.playlist {
            None => Err(AppError::EmptyPlaylist),
            Some(playlist) => {
                let new_id = match self.mode {
                    AudioPlayerMode::Default => playlist.normalize(id),
                    AudioPlayerMode::Random => {
                        proof {
                            assert(false);
                        }
                        playlist.normalize(id)
                    },
                };
                Ok(new_id)
            },
        }
    }

    /// What the play/pause button does for the track `id` of the playlist:
    /// the empty-playlist error while no playlist is loaded; otherwise
    /// `Ok(None)` to pause or resume where `id` is the current track, and
    /// the track that `id` lands on to start where it is not.
    pub fn play_pause(&self, id: TrackMaybeId) -> (r: AppResult<Option<TrackId>>)
        ensures
            self.tracks() is None ==> (r matches Err(e) && e is EmptyPlaylist),
            self.tracks() is Some && (self.current() matches CurrentTrack::Selected(c) && c as int
                == id as int) ==> r matches Ok(None),
            self.tracks() is Some && !(self.current() matches CurrentTrack::Selected(c) && c as int
                == id as int) ==> (r matches Ok(Some(m)) && Some(m) == track_choice(
                self.tracks(),
                id as int,
            )),
    {
        if self.playlist.is_none() {
            Err(AppError::EmptyPlaylist)
        } else if matches!(self.current_track, CurrentTrack::Selected(_))
            && self.current_track.get() == id {
            Ok(None)
        } else {
            match self.track_to_play(id) {
                Ok(new_id) => Ok(Some(new_id)),
                Err(e) => Err(e),
            }
        }
    }

    /// The track after the current one, the first after the last.
    pub fn next(&self) -> (r: AppResult<TrackId>)
        ensures
            answers(r, track_choice(self.tracks(), track_index(self.current()) + 1)),
    {
        self.track_to_play(self.current_track.get() + 1)
    }

    /// The track before the current one, the last before the first.
    pub fn prev(&self) -> (r: AppResult<TrackId>)
        ensures
            answers(r, track_choice(self.tracks(), track_index(self.current()) - 1)),
    {
        self.track_to_play(self.current_track.get() - 1)
    }

    /// Whether the loaded playlist has a track `id`.
    pub fn has_track(&self, id: TrackId) -> (has: bool)
        ensures
            has == (self.tracks() matches Some(t) && id < t.len()),
    {
        match &self.playlist {
            Some(playlist) => id < playlist.get_playlist().len(),
            None => false,
        }
    }

    /// Where the file of track `id` lies.
    pub fn track_path(&self, id: TrackId) -> (path: &String)
        requires
            self.tracks() matches Some(t) && id < t.len(),
        ensures
            path@ == self.tracks().unwrap()[id as int].spec_path(),
    {
        let playlist = self.playlist.as_ref().unwrap();
        playlist.get_playlist()[id].path()
    }

    /// Records that track `id` is now playing.
    pub fn set_current_track(&mut self, id: TrackId)
        requires
            old(self).tracks() matches Some(t) && id < t.len(),
        ensures
            final(self).current() == CurrentTrack::Selected(id),
            final(self).tracks() == old(self).tracks(),
    {
        proof {
            use_type_invariant(&*self);
        }
        self.current_track = CurrentTrack::Selected(id);
    }
}

} // verus!
