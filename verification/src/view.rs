//! What the user interface shows and sends: the commands that carry out
//! each view event, the text of the current track, and the event each
//! user input sends.
//!
//! Drawing is the terminal library's work; it is handed these values.
use vstd::prelude::*;
use crate::app::types::{AppEvent, UIEvent, ViewEvent};
use crate::player::playlist::{
    TrackId, TrackMaybeId, TrackMetadata, TrackProgress, decimal, decimal_string,
};

verus! {

/// One change to the screen.
#[derive(Debug, PartialEq)]
pub enum UiCommand {
    /// Add these tracks to the playlist view.
    UpdatePlaylist(Vec<TrackMetadata>),
    /// Select this track and show its details.
    SetCurrentTrack(TrackId),
    /// Show how far playback has gone.
    ShowProgress(TrackProgress),
    /// Show this error message.
    ShowError(String),
    /// Hide the "please wait" message.
    HideUpdateMessage,
    /// Close the user interface.
    Quit,
}

/// The changes to the screen that show `event`, in order.
pub open spec fn commands_for(event: ViewEvent) -> Seq<UiCommand> {
    match event {
        ViewEvent::NewPlaylist(playlist) => seq![
            UiCommand::UpdatePlaylist(playlist),
            UiCommand::HideUpdateMessage,
        ],
        ViewEvent::NewCurrentTrack(id) => seq![
            UiCommand::SetCurrentTrack(id),
            UiCommand::HideUpdateMessage,
        ],
        ViewEvent::Progress(progress) => seq![UiCommand::ShowProgress(progress)],
        ViewEvent::Error(err) => seq![UiCommand::ShowError(err), UiCommand::HideUpdateMessage],
        ViewEvent::Quit => seq![UiCommand::HideUpdateMessage, UiCommand::Quit],
        ViewEvent::PlayPause => seq![UiCommand::HideUpdateMessage],
    }
}

/// Every event's commands carry what the event carries: the new playlist
/// is added, the new current track is selected (whatever its index), the
/// progress and the error are shown, each first; the wait message is then
/// hidden, last, for every event but a progress report and quitting, which
/// closes the interface last.
pub proof fn lemma_commands_carry_the_event(event: ViewEvent)
    ensures
        commands_for(event).len() >= 1,
        match event {
            ViewEvent::NewPlaylist(p) => commands_for(event)[0] == UiCommand::UpdatePlaylist(p),
            ViewEvent::NewCurrentTrack(id) => commands_for(event)[0] == UiCommand::SetCurrentTrack(
                id,
            ),
            ViewEvent::Progress(p) => commands_for(event) == seq![UiCommand::ShowProgress(p)],
            ViewEvent::Error(e) => commands_for(event)[0] == UiCommand::ShowError(e),
            ViewEvent::Quit => commands_for(event).last() == UiCommand::Quit,
            ViewEvent::PlayPause => true,
        },
        !(event is Progress) && !(event is Quit) ==> commands_for(event).last()
            == UiCommand::HideUpdateMessage,
        event is Quit ==> commands_for(event).contains(UiCommand::HideUpdateMessage),
{
    if event is Quit {
        assert(commands_for(event)[0] == UiCommand::HideUpdateMessage);
    }
}

/// The changes to the screen that show `event`, in order.
pub fn view_commands(event: ViewEvent) -> (commands: Vec<UiCommand>)
    ensures
        commands@ == commands_for(event),
{
    let mut commands: Vec<UiCommand> = Vec::new();
    match event {
        ViewEvent::NewPlaylist(playlist) => {
            commands.push(UiCommand::UpdatePlaylist(playlist));
            commands.push(UiCommand::HideUpdateMessage);
        },
        ViewEvent::NewCurrentTrack(id) => {
            commands.push(UiCommand::SetCurrentTrack(id));
            commands.push(UiCommand::HideUpdateMessage);
        },
        ViewEvent::Progress(progress) => {
            commands.push(UiCommand::ShowProgress(progress));
        },
        ViewEvent::Error(err) => {
            commands.push(UiCommand::ShowError(err));
            commands.push(UiCommand::HideUpdateMessage);
        },
        ViewEvent::Quit => {
            commands.push(UiCommand::HideUpdateMessage);
            commands.push(UiCommand::Quit);
        },
        ViewEvent::PlayPause => {
            commands.push(UiCommand::HideUpdateMessage);
        },
    }
    assert(commands@ =~= commands_for(event));
    commands
}

/// The details of a track: its title, then its author, a line each.
pub open spec fn track_text(track: TrackMetadata) -> Seq<char> {
    track.title@ + seq!['\n'] + track.author@ + seq!['\n']
}

/// The details of a track hold its whole title, a line break, its whole
/// author and a line break, for fields of any length.
pub proof fn lemma_track_text_holds_the_fields(track: TrackMetadata)
    ensures
        ({
            let text = track_text(track);
            let t = track.title@.len() as int;
            let a = track.author@.len() as int;
            &&& text.len() == t + a + 2
            &&& text.subrange(0, t) == track.title@
            &&& text[t] == '\n'
            &&& text.subrange(t + 1, t + 1 + a) == track.author@
            &&& text[t + 1 + a] == '\n'
        }),
{
    let text = track_text(track);
    let t = track.title@.len() as int;
    let a = track.author@.len() as int;
    assert(text.subrange(0, t) =~= track.title@);
    assert(text.subrange(t + 1, t + 1 + a) =~= track.author@);
}

/// The details of a track: its title, then its author, a line each.
pub fn track_content(track: &TrackMetadata) -> (text: String)
    ensures
        text@ == track_text(*track),
{
    proof {
        reveal_strlit("\n");
    }
    let mut text = String::new();
    text.append(track.title.as_str());
    text.append("\n");
    text.append(track.author.as_str());
    text.append("\n");
    assert(text@ =~= track_text(*track));
    text
}

/// What is shown of the current track: its details, and its length in
/// seconds where the progress goes.
pub fn current_track_texts(track: &TrackMetadata) -> (texts: (String, String))
    ensures
        texts.0@ == track_text(*track),
        texts.1@ == decimal(track.duration as nat),
{
    (track_content(track), decimal_string(track.duration))
}

/// What the user can do.
#[derive(Debug, PartialEq, Eq, Structural)]
pub enum UserInput {
    Next,
    Prev,
    PlayPause,
    Quit,
}

/// The message shown while the application carries out `input`.
pub fn input_message(input: &UserInput) -> (msg: &'static str)
    ensures
        *input is Next ==> msg@ == "Loading next track"@,
        *input is Prev ==> msg@ == "Loading previous track"@,
        *input is PlayPause ==> msg@ == "Loading current track"@,
        *input is Quit ==> msg@ == "Quitting"@,
{
    match input {
        UserInput::Next => "Loading next track",
        UserInput::Prev => "Loading previous track",
        UserInput::PlayPause => "Loading current track",
        UserInput::Quit => "Quitting",
    }
}

/// The event that `input` sends, given the track selected in the playlist
/// view: play/pause sends nothing while no track is selected.
pub fn input_event(input: &UserInput, selected: Option<usize>) -> (event: Option<AppEvent>)
    ensures
        *input is Next ==> event matches Some(AppEvent::UI(UIEvent::Next)),
        *input is Prev ==> event matches Some(AppEvent::UI(UIEvent::Prev)),
        *input is Quit ==> event matches Some(AppEvent::Quit),
        *input is PlayPause ==> match selected {
            Some(id) => event matches Some(AppEvent::UI(UIEvent::PlayPause(i))) && i == id,
            None => event is None,
        },
{
    match input {
        UserInput::Next => Some(AppEvent::UI(UIEvent::Next)),
        UserInput::Prev => Some(AppEvent::UI(UIEvent::Prev)),
        UserInput::Quit => Some(AppEvent::Quit),
        UserInput::PlayPause => match selected {
            Some(id) => Some(AppEvent::UI(UIEvent::PlayPause(id as TrackMaybeId))),
            None => None,
        },
    }
}

} // verus!
