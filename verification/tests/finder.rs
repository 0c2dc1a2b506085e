use audio_player::app::types::{AppError, AppEvent, FinderEvent};
use audio_player::finder::{
    extension_of, is_extension_supported, is_file_supported, lookup_event, supported_files,
    DirEntryInfo,
};

fn entry(dir: &str, name: &str, is_file: bool) -> DirEntryInfo {
    DirEntryInfo { path: format!("{}/{}", dir, name), file_name: name.to_string(), is_file }
}

#[test]
fn test_empty_dir() {
    assert_eq!(supported_files(Vec::new()), Vec::<String>::new());
}

#[test]
fn test_supported_files() {
    let files = vec!["./tests/data/song1.mp3".to_string()];
    let entries = vec![
        entry("./tests/data", "song1.mp3", true),
        entry("./tests/data", "empty_dir", false),
    ];
    assert_eq!(supported_files(entries), files);
}

#[test]
fn extensions_follow_std_path_rules() {
    for name in ["a.mp3", ".mp3", "a.", "..", ".", "a", "a.b.mp3", "", "a..", ".a.b"] {
        let expected = std::path::Path::new(name).extension().map(|e| e.to_str().unwrap());
        assert_eq!(extension_of(name), expected, "name {:?}", name);
    }
    assert_eq!(extension_of("song.mp3"), Some("mp3"));
    assert_eq!(extension_of(".mp3"), None);
    assert_eq!(extension_of("x."), Some(""));
}

#[test]
fn only_mp3_is_supported() {
    assert!(is_extension_supported(Some("mp3")));
    assert!(!is_extension_supported(Some("MP3")));
    assert!(!is_extension_supported(Some("wav")));
    assert!(!is_extension_supported(None));
}

#[test]
fn directories_and_other_files_are_skipped() {
    assert!(is_file_supported(&entry("d", "a.mp3", true)));
    assert!(!is_file_supported(&entry("d", "a.mp3", false)));
    assert!(!is_file_supported(&entry("d", "a.ogg", true)));
    assert!(!is_file_supported(&entry("d", ".mp3", true)));
    let entries = vec![
        entry("d", "b.mp3", true),
        entry("d", "notes.txt", true),
        entry("d", "sub.mp3", false),
        entry("d", "a.mp3", true),
    ];
    assert_eq!(supported_files(entries), vec!["d/b.mp3".to_string(), "d/a.mp3".to_string()]);
}

#[test]
fn lookup_reports_files() {
    let ev = lookup_event(Ok(vec![entry("d", "a.mp3", true)]));
    match ev {
        AppEvent::Finder(FinderEvent::NewFiles(files)) => assert_eq!(files, vec!["d/a.mp3".to_string()]),
        other => panic!("unexpected {:?}", other),
    }
}

#[test]
fn lookup_without_playable_files_is_an_empty_playlist() {
    let ev = lookup_event(Ok(vec![entry("d", "a.txt", true)]));
    assert!(matches!(ev, AppEvent::Error(AppError::EmptyPlaylist)));
    assert!(matches!(lookup_event(Ok(Vec::new())), AppEvent::Error(AppError::EmptyPlaylist)));
}

#[test]
fn lookup_of_unreadable_directory_is_an_io_error() {
    let err = std::io::Error::new(std::io::ErrorKind::NotFound, "no dir");
    match lookup_event(Err(err)) {
        AppEvent::Error(AppError::IO(e)) => assert_eq!(e.to_string(), "no dir"),
        other => panic!("unexpected {:?}", other),
    }
}
