use music_man::command::{is_youtube_url, parse_request, Request};

#[test]
fn commands_without_arguments() {
    assert!(matches!(parse_request("list"), Some(Request::List)));
    assert!(matches!(parse_request("  list  \n"), Some(Request::List)));
    assert!(matches!(parse_request("list extra words"), Some(Request::List)));
    assert!(matches!(parse_request("list_playlists\n"), Some(Request::ListPlaylists)));
}

#[test]
fn lines_that_ask_for_nothing() {
    assert!(parse_request("").is_none());
    assert!(parse_request("   \n").is_none());
    assert!(parse_request("LIST").is_none());
    assert!(parse_request("lists").is_none());
    assert!(parse_request("quit").is_none());
    assert!(parse_request("search").is_none());
    assert!(parse_request("search onlyartist").is_none());
    assert!(parse_request("import a").is_none());
    assert!(parse_request("download").is_none());
    assert!(parse_request("download artist").is_none());
    assert!(parse_request("show_playlist").is_none());
    assert!(parse_request("import_playlist \t").is_none());
}

#[test]
fn search_takes_artist_and_title() {
    match parse_request("search Beatles Yesterday ignored\n") {
        Some(Request::Search { artist, title }) => {
            assert_eq!(artist, "Beatles");
            assert_eq!(title, "Yesterday");
        },
        other => panic!("unexpected {:?}", other),
    }
}

#[test]
fn download_takes_a_url_or_a_track() {
    match parse_request("download https://www.YouTube.com/watch?v=abc mix") {
        Some(Request::DownloadUrl { url, playlist }) => {
            assert_eq!(url, "https://www.YouTube.com/watch?v=abc");
            assert_eq!(playlist.as_deref(), Some("mix"));
        },
        other => panic!("unexpected {:?}", other),
    }
    match parse_request("download https://youtube.com/watch?v=abc") {
        Some(Request::DownloadUrl { url, playlist }) => {
            assert_eq!(url, "https://youtube.com/watch?v=abc");
            assert_eq!(playlist, None);
        },
        other => panic!("unexpected {:?}", other),
    }
    match parse_request("download Beatles Yesterday mix more") {
        Some(Request::DownloadTrack { artist, title, playlist }) => {
            assert_eq!(artist, "Beatles");
            assert_eq!(title, "Yesterday");
            assert_eq!(playlist.as_deref(), Some("mix"));
        },
        other => panic!("unexpected {:?}", other),
    }
    match parse_request("download Beatles Yesterday") {
        Some(Request::DownloadTrack { playlist, .. }) => assert_eq!(playlist, None),
        other => panic!("unexpected {:?}", other),
    }
    match parse_request("download https://youtu.be/abc Yesterday") {
        Some(Request::DownloadTrack { artist, title, .. }) => {
            assert_eq!(artist, "https://youtu.be/abc");
            assert_eq!(title, "Yesterday");
        },
        other => panic!("unexpected {:?}", other),
    }
}

#[test]
fn import_and_playlist_commands() {
    match parse_request("import a t") {
        Some(Request::Import { artist, title, playlist }) => {
            assert_eq!(artist, "a");
            assert_eq!(title, "t");
            assert_eq!(playlist, None);
        },
        other => panic!("unexpected {:?}", other),
    }
    match parse_request("import a t mix") {
        Some(Request::Import { playlist, .. }) => assert_eq!(playlist.as_deref(), Some("mix")),
        other => panic!("unexpected {:?}", other),
    }
    match parse_request("show_playlist mix") {
        Some(Request::ShowPlaylist { name }) => assert_eq!(name, "mix"),
        other => panic!("unexpected {:?}", other),
    }
    match parse_request("import_playlist mix now") {
        Some(Request::ImportPlaylist { name }) => assert_eq!(name, "mix"),
        other => panic!("unexpected {:?}", other),
    }
}

#[test]
fn url_is_told_by_the_word_youtube_in_any_case() {
    assert!(is_youtube_url("https://www.youtube.com/watch?v=1"));
    assert!(is_youtube_url("YOUTUBE"));
    assert!(is_youtube_url("music.YouTube.com"));
    assert!(is_youtube_url("xyoutubex"));
    assert!(!is_youtube_url("https://youtu.be/1"));
    assert!(!is_youtube_url("you tube"));
    assert!(!is_youtube_url("youtub"));
    assert!(!is_youtube_url(""));
}
