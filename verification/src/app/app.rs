//! How the application reacts to each event: what the user interface is
//! asked to show and what the audio back end is asked to do.
//!
//! Waiting for events, reading files and playing sound are the runner's
//! work; each reaction here tells it what to do next, and the outcome of
//! that work comes back as another call.
use vstd::prelude::*;
use super::types::{
    AppError, AppEvent, AppResult, AudioPlayerEvent, FinderEvent, UIEvent, ViewEvent,
};
use crate::player::player::{
    AudioPlayer, CurrentTrack, is_current, lemma_first_step, lemma_steps_from_track, metadata_of, track_choice,
    track_index,
};
use crate::player::playlist::{Track, TrackId, normalized, readable_tracks};

verus! {

/// The user interface: it shows what it is asked to.
pub trait AppView {
    fn update(&mut self, event: ViewEvent);
}

/// What the audio back end is asked to do.
#[derive(Debug, PartialEq)]
pub enum PlayerAction {
    /// Nothing.
    Nothing,
    /// Stop playing.
    Stop,
    /// Pause the current track, or resume it.
    TogglePause,
    /// Start the track with this index; report the outcome to
    /// [`Application::track_loaded`].
    Play(TrackId),
    /// Read the tracks of these files; report them to
    /// [`Application::finder_event_handler`].
    ReadTracks(Vec<String>),
    /// Stop the application.
    Quit,
}

/// The reaction to an event: what to show, and what to do.
#[derive(Debug, PartialEq)]
pub struct Reaction {
    pub view: Option<ViewEvent>,
    pub action: PlayerAction,
}

/// What a user request leads to: `None` where there is no playlist to play
/// from, `Some(None)` to pause or resume the current track (play/pause
/// naming the current track while a playlist is loaded), `Some(Some(t))`
/// to start track `t`.
pub open spec fn ui_request(player: AudioPlayer, event: UIEvent) -> Option<Option<TrackId>> {
    let target = match event {
        UIEvent::PlayPause(id) => id as int,
        UIEvent::Next => track_index(player.current()) + 1,
        UIEvent::Prev => track_index(player.current()) - 1,
    };
    let toggles = match event {
        UIEvent::PlayPause(id) => player.tracks() is Some && is_current(player.current(), id as int),
        _ => false,
    };
    if toggles {
        Some(None)
    } else {
        match track_choice(player.tracks(), target) {
            Some(t) => Some(Some(t)),
            None => None,
        }
    }
}

/// While track `i` of the playlist is current, "next" asks to start the
/// following track, the first after the last; "previous" the one before,
/// the last before the first; play/pause naming track `i` asks to pause or
/// resume, and naming another index asks to start the track it lands on.
pub proof fn lemma_requests_from_track(player: AudioPlayer, i: TrackId, id: i128)
    requires
        player.current() == CurrentTrack::Selected(i),
        player.tracks() matches Some(t) && i < t.len(),
    ensures
        ui_request(player, UIEvent::Next) == Some(
            Some(((i + 1) % (player.tracks().unwrap().len() as int)) as TrackId),
        ),
        ui_request(player, UIEvent::Prev) == Some(
            Some(
                ((i + player.tracks().unwrap().len() - 1) % (
                player.tracks().unwrap().len() as int)) as TrackId,
            ),
        ),
        id == i ==> ui_request(player, UIEvent::PlayPause(id)) == Some(None::<TrackId>),
        id != i ==> ui_request(player, UIEvent::PlayPause(id)) == Some(
            Some(normalized(player.tracks().unwrap().len(), id as int) as TrackId),
        ),
{
    lemma_steps_from_track(player.tracks().unwrap(), i);
}

/// Before anything was played, "next" asks to start the first track and
/// "previous" the last.
pub proof fn lemma_first_requests(player: AudioPlayer)
    requires
        player.current() == CurrentTrack::Uninitialized,
        player.tracks() matches Some(t) && t.len() > 0,
    ensures
        ui_request(player, UIEvent::Next) == Some(Some(0usize)),
        ui_request(player, UIEvent::Prev) == Some(
            Some((player.tracks().unwrap().len() - 1) as TrackId),
        ),
{
    lemma_first_step(player.tracks().unwrap());
}

/// While a playlist is loaded and no track has been played yet, play/pause
/// naming any index asks to start a track, never to pause: the track at
/// that index where it lies inside the playlist, the last one before the
/// start and the first one past the end.
pub proof fn lemma_first_play_pause(player: AudioPlayer, id: i128)
    requires
        player.current() == CurrentTrack::Uninitialized,
        player.tracks() matches Some(t) && t.len() > 0,
    ensures
        ({
            let len = player.tracks().unwrap().len();
            ui_request(player, UIEvent::PlayPause(id)) == Some(
                Some(
                    if id < 0 {
                        (len - 1) as TrackId
                    } else if id >= len {
                        0usize
                    } else {
                        id as TrackId
                    },
                ),
            )
        }),
{
}

/// Play/pause that does not name the current track never asks to pause:
/// with a playlist loaded it asks to start a track of the playlist.
pub proof fn lemma_play_pause_other_track_starts(player: AudioPlayer, id: i128)
    requires
        player.tracks() matches Some(t) && t.len() > 0,
        !(player.current() matches CurrentTrack::Selected(c) && c as int == id as int),
    ensures
        ui_request(player, UIEvent::PlayPause(id)) matches Some(Some(t)) && t
            < player.tracks().unwrap().len(),
{
}

/// Whether `r` shows the user `e` and asks for nothing else.
pub open spec fn shows_error(r: Reaction, e: AppError) -> bool {
    &&& r.view matches Some(ViewEvent::Error(text)) && e.describes(text@)
    &&& r.action is Nothing
}

/// Whether `r` carries out the request `req` of [`ui_request`].
pub open spec fn carries_out(r: Reaction, req: Option<Option<TrackId>>) -> bool {
    match req {
        None => shows_error(r, AppError::EmptyPlaylist),
        Some(None) => r.view is None && r.action is TogglePause,
        Some(Some(t)) => r.view is None && r.action == PlayerAction::Play(t),
    }
}

/// The reaction that shows the user `e`.
fn error_reaction(e: &AppError) -> (r: Reaction)
    ensures
        shows_error(r, *e),
{
    Reaction { view: Some(ViewEvent::Error(e.message())), action: PlayerAction::Nothing }
}

/// The application's state: the player's.
pub struct Application {
    player: AudioPlayer,
}

impl Application {
    pub closed spec fn spec_player(&self) -> AudioPlayer {
        self.player
    }

    /// An application with no playlist, before its first track.
    pub fn new() -> (app: Self)
        ensures
            app.spec_player().tracks() is None,
            app.spec_player().current() == CurrentTrack::Uninitialized,
    {
        Application { player: AudioPlayer::new() }
    }

    pub fn player(&self) -> (p: &AudioPlayer)
        ensures
            *p == self.spec_player(),
    {
        &self.player
    }

    /// The reaction to any event.
    pub fn handle_event(&self, event: AppEvent) -> (r: Reaction)
        ensures
            match event {
                AppEvent::UI(ev) => carries_out(r, ui_request(self.spec_player(), ev)),
                AppEvent::Player(AudioPlayerEvent::Progress(p)) => r == (Reaction {
                    view: Some(ViewEvent::Progress(p)),
                    action: PlayerAction::Nothing,
                }),
                AppEvent::Finder(FinderEvent::NewFiles(files)) => r == (Reaction {
                    view: None,
                    action: PlayerAction::ReadTracks(files),
                }),
                AppEvent::Error(e) => shows_error(r, e),
                AppEvent::Quit => r == (Reaction {
                    view: Some(ViewEvent::Quit),
                    action: PlayerAction::Quit,
                }),
            },
    {
        match event {
            AppEvent::UI(ev) => self.ui_event_handler(ev),
            AppEvent::Player(ev) => self.player_event_handler(ev),
            AppEvent::Finder(FinderEvent::NewFiles(files)) => Reaction {
                view: None,
                action: PlayerAction::ReadTracks(files),
            },
            AppEvent::Error(e) => self.error_event_handler(&e),
            AppEvent::Quit => self.stop(),
        }
    }

    /// The reaction to a report of the audio back end: it is shown.
    pub fn player_event_handler(&self, event: AudioPlayerEvent) -> (r: Reaction)
        ensures
            event matches AudioPlayerEvent::Progress(p) && r == (Reaction {
                view: Some(ViewEvent::Progress(p)),
                action: PlayerAction::Nothing,
            }),
    {
        match event {
            AudioPlayerEvent::Progress(progress) => Reaction {
                view: Some(ViewEvent::Progress(progress)),
                action: PlayerAction::Nothing,
            },
        }
    }

    /// The reaction to an error: it is shown.
    pub fn error_event_handler(&self, err: &AppError) -> (r: Reaction)
        ensures
            shows_error(r, *err),
    {
        error_reaction(err)
    }

    /// The reaction to a request to quit: the user interface closes, and so
    /// does the application.
    pub fn stop(&self) -> (r: Reaction)
        ensures
            r == (Reaction { view: Some(ViewEvent::Quit), action: PlayerAction::Quit }),
    {
        Reaction { view: Some(ViewEvent::Quit), action: PlayerAction::Quit }
    }

    /// The reaction to a user request.
    pub fn ui_event_handler(&self, event: UIEvent) -> (r: Reaction)
        ensures
            carries_out(r, ui_request(self.spec_player(), event)),
    {
        let request = match event {
            UIEvent::PlayPause(id) => self.player.play_pause(id),
            UIEvent::Next => match self.player.next() {
                Ok(id) => Ok(Some(id)),
                Err(e) => Err(e),
            },
            UIEvent::Prev => match self.player.prev() {
                Ok(id) => Ok(Some(id)),
                Err(e) => Err(e),
            },
        };
        match request {
            Ok(None) => Reaction { view: None, action: PlayerAction::TogglePause },
            Ok(Some(id)) => Reaction { view: None, action: PlayerAction::Play(id) },
            Err(e) => error_reaction(&e),
        }
    }

    /// The reaction to the tracks read from the files that were found: the
    /// readable ones become the playlist, which is shown, and what was
    /// playing stops; where none could be read, the user is told so.
    pub fn finder_event_handler(&mut self, tracks: Vec<AppResult<Track>>) -> (r: Reaction)
        ensures
            final(self).spec_player().current() == old(self).spec_player().current(),
            readable_tracks(tracks@).len() == 0 ==> {
                &&& shows_error(r, AppError::EmptyPlaylist)
                &&& final(self).spec_player().tracks() == old(self).spec_player().tracks()
            },
            readable_tracks(tracks@).len() > 0 ==> {
                &&& r.view matches Some(ViewEvent::NewPlaylist(meta)) && meta@ == metadata_of(
                    readable_tracks(tracks@),
                )
                &&& r.action is Stop
                &&& final(self).spec_player().tracks() == Some(readable_tracks(tracks@))
            },
    {
        match self.player.try_new_playlist(tracks) {
            Ok(meta) => Reaction {
                view: Some(ViewEvent::NewPlaylist(meta)),
                action: PlayerAction::Stop,
            },
            Err(e) => error_reaction(&e),
        }
    }

    /// The reaction to the outcome of starting track `id`: where it
    /// started, it becomes the current track and is shown as such;
    /// otherwise the user is told why.
    pub fn track_loaded(&mut self, id: TrackId, outcome: AppResult<()>) -> (r: Reaction)
        requires
            old(self).spec_player().tracks() matches Some(t) && id < t.len(),
        ensures
            final(self).spec_player().tracks() == old(self).spec_player().tracks(),
            outcome is Ok ==> {
                &&& final(self).spec_player().current() == CurrentTrack::Selected(id)
                &&& r == (Reaction {
                    view: Some(ViewEvent::NewCurrentTrack(id)),
                    action: PlayerAction::Nothing,
                })
            },
            outcome matches Err(e) ==> {
                &&& final(self).spec_player().current() == old(self).spec_player().current()
                &&& shows_error(r, e)
            },
    {
        match outcome {
            Ok(()) => {
                self.player.set_current_track(id);
                Reaction { view: Some(ViewEvent::NewCurrentTrack(id)), action: PlayerAction::Nothing }
            },
            Err(e) => error_reaction(&e),
        }
    }
}

} // verus!
