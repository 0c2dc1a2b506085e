use audio_player::app::app::{Application, PlayerAction, Reaction};
use audio_player::app::types::{
    AppError, AppEvent, AudioPlayerEvent, FinderEvent, UIEvent, ViewEvent,
};
use audio_player::player::player::CurrentTrack;
use audio_player::player::playlist::{Track, TrackMetadata, TrackProgress};

fn track(name: &str) -> Track {
    Track::new(
        format!("/music/{}", name),
        TrackMetadata {
            fullname: name.to_string(),
            title: "T".to_string(),
            author: "A".to_string(),
            duration: 1,
        },
    )
}

fn error_text(r: &Reaction) -> String {
    assert_eq!(r.action, PlayerAction::Nothing);
    match &r.view {
        Some(ViewEvent::Error(text)) => text.clone(),
        other => panic!("expected an error, got {:?}", other),
    }
}

fn app_with(n: usize) -> Application {
    let mut app = Application::new();
    let tracks = (0..n).map(|i| Ok(track(&format!("{}.mp3", i)))).collect();
    let r = app.finder_event_handler(tracks);
    assert_eq!(r.action, PlayerAction::Stop);
    app
}

#[test]
fn error_messages() {
    assert_eq!(AppError::EmptyPlaylist.message(), "Empty playlist");
    assert_eq!(AppError::Rodio("bad data".to_string()).message(), "Decoder error: bad data");
    assert_eq!(
        AppError::RodioStream("no device".to_string()).message(),
        "Device sink error: no device"
    );
    let io = std::io::Error::new(std::io::ErrorKind::NotFound, "gone");
    assert_eq!(AppError::IO(io).message(), "IO error: gone");
    let io = std::io::Error::new(std::io::ErrorKind::Other, "bad tag");
    let lofty_err = lofty::error::FileParseError::from(io);
    let text = AppError::Lofty(lofty_err).message();
    assert!(text.starts_with("Lofty error: "));
}

#[test]
fn events_compare_by_kind() {
    assert!(AppEvent::UI(UIEvent::Next) == AppEvent::UI(UIEvent::PlayPause(3)));
    assert!(AppEvent::Quit == AppEvent::Quit);
    assert!(AppEvent::Error(AppError::EmptyPlaylist) == AppEvent::Error(AppError::Rodio(String::new())));
    assert!(AppEvent::UI(UIEvent::Next) != AppEvent::Quit);
    assert!(
        AppEvent::Player(AudioPlayerEvent::Progress(TrackProgress::default()))
            != AppEvent::Finder(FinderEvent::NewFiles(vec![]))
    );
}

#[test]
fn progress_is_shown() {
    let app = Application::new();
    let p = TrackProgress::from_secs(12);
    let r = app.handle_event(AppEvent::Player(AudioPlayerEvent::Progress(p.clone())));
    assert_eq!(r, Reaction { view: Some(ViewEvent::Progress(p)), action: PlayerAction::Nothing });
}

#[test]
fn quit_closes_the_view_and_the_app() {
    let app = Application::new();
    let r = app.handle_event(AppEvent::Quit);
    assert_eq!(r, Reaction { view: Some(ViewEvent::Quit), action: PlayerAction::Quit });
}

#[test]
fn found_files_are_read() {
    let app = Application::new();
    let files = vec!["/m/a.mp3".to_string()];
    let r = app.handle_event(AppEvent::Finder(FinderEvent::NewFiles(files.clone())));
    assert_eq!(r, Reaction { view: None, action: PlayerAction::ReadTracks(files) });
}

#[test]
fn errors_are_shown() {
    let app = Application::new();
    let r = app.handle_event(AppEvent::Error(AppError::EmptyPlaylist));
    assert_eq!(error_text(&r), "Empty playlist");
}

#[test]
fn requests_without_playlist_show_an_error() {
    let app = Application::new();
    for ev in [UIEvent::Next, UIEvent::Prev, UIEvent::PlayPause(0)] {
        let r = app.handle_event(AppEvent::UI(ev));
        assert_eq!(error_text(&r), "Empty playlist");
    }
}

#[test]
fn new_playlist_is_shown_and_playback_stops() {
    let mut app = Application::new();
    let r = app.finder_event_handler(vec![Ok(track("a.mp3")), Err(AppError::EmptyPlaylist)]);
    assert_eq!(r.action, PlayerAction::Stop);
    match r.view {
        Some(ViewEvent::NewPlaylist(meta)) => {
            assert_eq!(meta.len(), 1);
            assert_eq!(meta[0].fullname, "a.mp3");
        },
        other => panic!("unexpected {:?}", other),
    }
    assert!(app.player().playlist().is_some());
}

#[test]
fn unreadable_files_show_an_error() {
    let mut app = Application::new();
    let r = app.finder_event_handler(vec![Err(AppError::Rodio("x".to_string()))]);
    assert_eq!(error_text(&r), "Empty playlist");
    assert!(app.player().playlist().is_none());
}

#[test]
fn play_pause_starts_then_toggles() {
    let mut app = app_with(3);
    let r = app.handle_event(AppEvent::UI(UIEvent::PlayPause(1)));
    assert_eq!(r, Reaction { view: None, action: PlayerAction::Play(1) });
    let r = app.track_loaded(1, Ok(()));
    assert_eq!(r, Reaction { view: Some(ViewEvent::NewCurrentTrack(1)), action: PlayerAction::Nothing });
    assert_eq!(app.player().current_track(), CurrentTrack::Selected(1));
    let r = app.handle_event(AppEvent::UI(UIEvent::PlayPause(1)));
    assert_eq!(r, Reaction { view: None, action: PlayerAction::TogglePause });
    let r = app.handle_event(AppEvent::UI(UIEvent::PlayPause(2)));
    assert_eq!(r, Reaction { view: None, action: PlayerAction::Play(2) });
    app.track_loaded(2, Ok(()));
    assert_eq!(app.player().current_track(), CurrentTrack::Selected(2));
}

#[test]
fn next_and_prev_move_through_the_playlist() {
    let mut app = app_with(3);
    let r = app.ui_event_handler(UIEvent::Next);
    assert_eq!(r.action, PlayerAction::Play(0));
    app.track_loaded(0, Ok(()));
    let r = app.ui_event_handler(UIEvent::Prev);
    assert_eq!(r.action, PlayerAction::Play(2));
    app.track_loaded(2, Ok(()));
    let r = app.ui_event_handler(UIEvent::Next);
    assert_eq!(r.action, PlayerAction::Play(0));
}

#[test]
fn failed_start_keeps_the_current_track() {
    let mut app = app_with(3);
    app.track_loaded(1, Ok(()));
    let r = app.track_loaded(2, Err(AppError::Rodio("cannot decode".to_string())));
    assert_eq!(error_text(&r), "Decoder error: cannot decode");
    assert_eq!(app.player().current_track(), CurrentTrack::Selected(1));
}

#[test]
fn handlers_agree_with_handle_event() {
    let app = Application::new();
    let r = app.stop();
    assert_eq!(r.view, Some(ViewEvent::Quit));
    let r = app.error_event_handler(&AppError::RodioStream("s".to_string()));
    assert_eq!(error_text(&r), "Device sink error: s");
    let r = app.player_event_handler(AudioPlayerEvent::Progress(TrackProgress::from_secs(1)));
    assert_eq!(r.view, Some(ViewEvent::Progress(TrackProgress::from_secs(1))));
}
