use audio_player::app::types::{AppEvent, UIEvent, ViewEvent};
use audio_player::player::playlist::{TrackMetadata, TrackProgress};
use audio_player::view::{
    current_track_texts, input_event, input_message, track_content, view_commands, UiCommand,
    UserInput,
};

fn meta() -> TrackMetadata {
    TrackMetadata {
        fullname: "song.mp3".to_string(),
        title: "Song".to_string(),
        author: "Band".to_string(),
        duration: 215,
    }
}

#[test]
fn track_details() {
    assert_eq!(track_content(&meta()), "Song\nBand\n");
    assert_eq!(current_track_texts(&meta()), ("Song\nBand\n".to_string(), "215".to_string()));
}

#[test]
fn commands_for_each_view_event() {
    assert_eq!(
        view_commands(ViewEvent::NewPlaylist(vec![meta()])),
        vec![UiCommand::UpdatePlaylist(vec![meta()]), UiCommand::HideUpdateMessage]
    );
    assert_eq!(
        view_commands(ViewEvent::NewCurrentTrack(3)),
        vec![UiCommand::SetCurrentTrack(3), UiCommand::HideUpdateMessage]
    );
    let p = TrackProgress::from_secs(5);
    assert_eq!(view_commands(ViewEvent::Progress(p.clone())), vec![UiCommand::ShowProgress(p)]);
    assert_eq!(
        view_commands(ViewEvent::Error("oops".to_string())),
        vec![UiCommand::ShowError("oops".to_string()), UiCommand::HideUpdateMessage]
    );
    assert_eq!(view_commands(ViewEvent::Quit), vec![UiCommand::HideUpdateMessage, UiCommand::Quit]);
    assert_eq!(view_commands(ViewEvent::PlayPause), vec![UiCommand::HideUpdateMessage]);
}

#[test]
fn input_messages() {
    assert_eq!(input_message(&UserInput::Next), "Loading next track");
    assert_eq!(input_message(&UserInput::Prev), "Loading previous track");
    assert_eq!(input_message(&UserInput::PlayPause), "Loading current track");
    assert_eq!(input_message(&UserInput::Quit), "Quitting");
}

#[test]
fn input_events() {
    assert!(matches!(input_event(&UserInput::Next, None), Some(AppEvent::UI(UIEvent::Next))));
    assert!(matches!(input_event(&UserInput::Prev, Some(1)), Some(AppEvent::UI(UIEvent::Prev))));
    assert!(matches!(input_event(&UserInput::Quit, None), Some(AppEvent::Quit)));
    assert!(input_event(&UserInput::PlayPause, None).is_none());
    assert!(matches!(
        input_event(&UserInput::PlayPause, Some(4)),
        Some(AppEvent::UI(UIEvent::PlayPause(4)))
    ));
}
