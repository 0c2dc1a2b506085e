use audio_player::app::types::AppError;
use audio_player::player::player::{AudioPlayer, CurrentTrack};
use audio_player::player::playlist::{Track, TrackMetadata};

fn track(name: &str) -> Track {
    Track::new(
        format!("./music/{}", name),
        TrackMetadata {
            fullname: name.to_string(),
            title: name.to_uppercase(),
            author: "someone".to_string(),
            duration: 60,
        },
    )
}

fn loaded_player(n: usize) -> AudioPlayer {
    let mut player = AudioPlayer::new();
    let tracks = (0..n).map(|i| Ok(track(&format!("t{}.mp3", i)))).collect();
    let meta = player.try_new_playlist(tracks).unwrap();
    assert_eq!(meta.len(), n);
    player
}

#[test]
fn current_track_indices() {
    assert_eq!(CurrentTrack::Uninitialized.get(), -1);
    assert_eq!(CurrentTrack::Initialized.get(), 0);
    assert_eq!(CurrentTrack::Selected(7).get(), 7);
}

#[test]
fn supported_formats_are_mp3() {
    assert_eq!(AudioPlayer::supported_formats(), vec!["mp3"]);
}

#[test]
fn without_playlist_every_request_fails() {
    let player = AudioPlayer::new();
    assert!(player.playlist().is_none());
    assert_eq!(player.current_track(), CurrentTrack::Uninitialized);
    assert!(matches!(player.play_pause(0), Err(AppError::EmptyPlaylist)));
    assert!(matches!(player.next(), Err(AppError::EmptyPlaylist)));
    assert!(matches!(player.prev(), Err(AppError::EmptyPlaylist)));
}

#[test]
fn first_next_starts_the_first_track_and_first_prev_the_last() {
    let player = loaded_player(4);
    assert_eq!(player.next().unwrap(), 0);
    assert_eq!(player.prev().unwrap(), 3);
}

#[test]
fn play_pause_before_any_track_starts_the_chosen_one() {
    let player = loaded_player(4);
    assert_eq!(player.play_pause(2).unwrap(), Some(2));
    assert_eq!(player.play_pause(9).unwrap(), Some(0));
    assert_eq!(player.play_pause(-1).unwrap(), Some(3));
}

#[test]
fn play_pause_on_the_current_track_toggles_and_on_another_starts_it() {
    let mut player = loaded_player(4);
    player.set_current_track(1);
    assert_eq!(player.current_track(), CurrentTrack::Selected(1));
    assert_eq!(player.play_pause(1).unwrap(), None);
    assert_eq!(player.play_pause(3).unwrap(), Some(3));
    assert_eq!(player.play_pause(0).unwrap(), Some(0));
    assert_eq!(player.play_pause(7).unwrap(), Some(0));
    assert_eq!(player.play_pause(-1).unwrap(), Some(3));
}

#[test]
fn next_and_prev_wrap_around() {
    let mut player = loaded_player(3);
    player.set_current_track(2);
    assert_eq!(player.next().unwrap(), 0);
    assert_eq!(player.prev().unwrap(), 1);
    player.set_current_track(0);
    assert_eq!(player.next().unwrap(), 1);
    assert_eq!(player.prev().unwrap(), 2);
}

#[test]
fn next_then_prev_comes_back() {
    let mut player = loaded_player(5);
    for i in 0..5 {
        player.set_current_track(i);
        let n = player.next().unwrap();
        player.set_current_track(n);
        assert_eq!(player.prev().unwrap(), i);
    }
}

#[test]
fn new_playlist_keeps_the_current_track() {
    let mut player = loaded_player(2);
    player.set_current_track(1);
    let meta = player.try_new_playlist(vec![Ok(track("x.mp3"))]).unwrap();
    assert_eq!(meta.len(), 1);
    assert_eq!(meta[0].fullname, "x.mp3");
    assert_eq!(player.current_track(), CurrentTrack::Selected(1));
    assert_eq!(player.next().unwrap(), 0);
    assert_eq!(player.track_path(0), "./music/x.mp3");
}

#[test]
fn unreadable_playlist_keeps_the_old_one() {
    let mut player = loaded_player(2);
    let r = player.try_new_playlist(vec![Err(AppError::EmptyPlaylist)]);
    assert!(matches!(r, Err(AppError::EmptyPlaylist)));
    let meta = player.playlist().unwrap();
    assert_eq!(meta.len(), 2);
    assert_eq!(meta[1].fullname, "t1.mp3");
    assert_eq!(meta[1].title, "T1.MP3");
}

#[test]
fn new_playlist_replaces_or_clears() {
    let mut player = loaded_player(2);
    player.set_current_track(1);
    player.new_playlist(vec![Ok(track("a.mp3")), Ok(track("b.mp3")), Ok(track("c.mp3"))]);
    assert_eq!(player.playlist().unwrap().len(), 3);
    assert_eq!(player.current_track(), CurrentTrack::Selected(1));
    player.new_playlist(vec![Err(AppError::EmptyPlaylist)]);
    assert!(player.playlist().is_none());
    assert!(matches!(player.next(), Err(AppError::EmptyPlaylist)));
}

#[test]
fn has_track_and_track_path() {
    let player = loaded_player(2);
    assert!(player.has_track(0));
    assert!(player.has_track(1));
    assert!(!player.has_track(2));
    assert!(!AudioPlayer::new().has_track(0));
    assert_eq!(player.track_path(1), "./music/t1.mp3");
}

#[test]
fn all_readable_files_make_the_whole_playlist() {
    let mut player = AudioPlayer::new();
    let names = ["x.mp3", "y.mp3", "z.mp3"];
    let meta = player.try_new_playlist(names.iter().map(|n| Ok(track(n))).collect()).unwrap();
    let got: Vec<&str> = meta.iter().map(|m| m.fullname.as_str()).collect();
    assert_eq!(got, names.to_vec());
}

#[test]
fn play_pause_after_the_playlist_was_dropped_is_an_error() {
    let mut player = loaded_player(2);
    player.set_current_track(0);
    player.new_playlist(vec![Err(AppError::EmptyPlaylist)]);
    assert_eq!(player.current_track(), CurrentTrack::Selected(0));
    assert!(matches!(player.play_pause(0), Err(AppError::EmptyPlaylist)));
}
