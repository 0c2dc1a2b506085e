//! The application's error type and the events that flow between its parts.
use vstd::prelude::*;
use vstd::std_specs::cmp::PartialEqSpecImpl;
use vstd::string::to_string_from_display_ensures;
use crate::player::playlist::{TrackId, TrackMaybeId, TrackMetadata, TrackProgress};

verus! {

/// The operating system's I/O error, carried by [`AppError::IO`].
#[verifier::external_type_specification]
#[verifier::external_body]
pub struct ExIoError(std::io::Error);

/// lofty's error for a file whose tags or properties could not be read,
/// carried by [`AppError::Lofty`].
#[verifier::external_type_specification]
#[verifier::external_body]
pub struct ExFileParseError(lofty::error::FileParseError);

/// Everything that can go wrong in the player.
///
/// The audio back end's errors reach the library as the text that the
/// back end gives for them.
#[derive(Debug)]
pub enum AppError {
    IO(std::io::Error),
    Lofty(lofty::error::FileParseError),
    Rodio(String),
    RodioStream(String),
    EmptyPlaylist,
}

pub type AppResult<T> = Result<T, AppError>;

pub open spec fn io_error_prefix() -> Seq<char> {
    "IO error: "@
}

pub open spec fn lofty_error_prefix() -> Seq<char> {
    "Lofty error: "@
}

pub open spec fn decoder_error_prefix() -> Seq<char> {
    "Decoder error: "@
}

pub open spec fn device_sink_error_prefix() -> Seq<char> {
    "Device sink error: "@
}

pub open spec fn empty_playlist_text() -> Seq<char> {
    "Empty playlist"@
}

impl AppError {
    /// Whether `text` is what the user is shown for this error: the kind
    /// of the error, then what the error's source says of it (for an I/O or
    /// a tag reading error, the text of its `Display` impl).
    pub open spec fn describes(&self, text: Seq<char>) -> bool {
        match self {
            AppError::IO(e) => exists|shown: String|
                #[trigger] to_string_from_display_ensures::<std::io::Error>(e, shown) && text
                    == io_error_prefix() + shown@,
            AppError::Lofty(e) => exists|shown: String|
                #[trigger] to_string_from_display_ensures::<lofty::error::FileParseError>(e, shown)
                    && text == lofty_error_prefix() + shown@,
            AppError::Rodio(s) => text == decoder_error_prefix() + s@,
            AppError::RodioStream(s) => text == device_sink_error_prefix() + s@,
            AppError::EmptyPlaylist => text == empty_playlist_text(),
        }
    }

    /// The text shown to the user for this error.
    pub fn message(&self) -> (text: String)
        ensures
            self.describes(text@),
    {
        match self {
            AppError::IO(e) => {
                let shown = e.to_string();
                prefixed("IO error: ", shown.as_str())
            },
            AppError::Lofty(e) => {
                let shown = e.to_string();
                prefixed("Lofty error: ", shown.as_str())
            },
            AppError::Rodio(s) => prefixed("Decoder error: ", s.as_str()),
            AppError::RodioStream(s) => prefixed("Device sink error: ", s.as_str()),
            AppError::EmptyPlaylist => "Empty playlist".to_owned(),
        }
    }
}

/// `head` followed by `tail`.
fn prefixed(head: &str, tail: &str) -> (text: String)
    ensures
        text@ == head@ + tail@,
{
    let mut text = head.to_owned();
    text.append(tail);
    text
}

/// What the user interface is asked to show.
#[derive(Debug, PartialEq)]
pub enum ViewEvent {
    NewPlaylist(Vec<TrackMetadata>),
    NewCurrentTrack(TrackId),
    Progress(TrackProgress),
    Error(String),
    PlayPause,
    Quit,
}

/// What the user asked for.
#[derive(Debug, PartialEq, Eq, Structural)]
pub enum UIEvent {
    Next,
    Prev,
    /// The play button, or a track chosen from the playlist.
    PlayPause(TrackMaybeId),
}

/// What the search for audio files found.
#[derive(Debug, PartialEq)]
pub enum FinderEvent {
    NewFiles(Vec<String>),
}

/// What the audio back end reports.
#[derive(Debug, PartialEq, Eq, Structural)]
pub enum AudioPlayerEvent {
    Progress(TrackProgress),
}

/// Everything the application reacts to.
#[derive(Debug)]
pub enum AppEvent {
    UI(UIEvent),
    Player(AudioPlayerEvent),
    Finder(FinderEvent),
    Error(AppError),
    Quit,
}

/// Whether two events come from the same part of the application.
pub open spec fn same_kind(a: AppEvent, b: AppEvent) -> bool {
    match (a, b) {
        (AppEvent::UI(_), AppEvent::UI(_)) => true,
        (AppEvent::Player(_), AppEvent::Player(_)) => true,
        (AppEvent::Finder(_), AppEvent::Finder(_)) => true,
        (AppEvent::Error(_), AppEvent::Error(_)) => true,
        (AppEvent::Quit, AppEvent::Quit) => true,
        _ => false,
    }
}

/// Comparing events by kind is an equivalence.
pub proof fn lemma_same_kind_is_equivalence(a: AppEvent, b: AppEvent, c: AppEvent)
    ensures
        same_kind(a, a),
        same_kind(a, b) == same_kind(b, a),
        same_kind(a, b) && same_kind(b, c) ==> same_kind(a, c),
{
}

/// Events compare by kind alone: any two user interface events are equal,
/// and so on.
impl PartialEq for AppEvent {
    fn eq(&self, other: &Self) -> (r: bool) {
        match (self, other) {
            (AppEvent::UI(_), AppEvent::UI(_)) => true,
            (AppEvent::Player(_), AppEvent::Player(_)) => true,
            (AppEvent::Finder(_), AppEvent::Finder(_)) => true,
            (AppEvent::Error(_), AppEvent::Error(_)) => true,
            (AppEvent::Quit, AppEvent::Quit) => true,
            _ => false,
        }
    }
}

impl PartialEqSpecImpl for AppEvent {
    open spec fn obeys_eq_spec() -> bool {
        true
    }

    open spec fn eq_spec(&self, other: &AppEvent) -> bool {
        same_kind(*self, *other)
    }
}

} // verus!
