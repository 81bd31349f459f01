use music_man::audio::{AudioError, AudioInfo, AudioLocation};
use music_man::folder::{EntryKind, FolderEntry};
use music_man::source::{Acquire, Outcome, YtDlpSource};

fn source() -> YtDlpSource {
    YtDlpSource { name: "ytdlp".to_string() }
}

fn entry(name: &str, kind: EntryKind) -> FolderEntry {
    FolderEntry { name: name.to_string(), kind }
}

fn track(artist: &str, title: &str) -> AudioInfo {
    AudioInfo {
        artist: Some(artist.to_string()),
        title: Some(title.to_string()),
        filename: None,
        youtube_url: None,
        isrc: None,
        duration_secs: None,
    }
}

fn ended(success: bool, status: &str, output: &str) -> Outcome {
    Outcome::Exited { success, status: status.to_string(), output: output.to_string() }
}

#[test]
fn search_command_holds_the_words_of_artist_then_title() {
    let command = source().search_audio("  The   Beatles ", "Let It\tBe\n");
    assert_eq!(command.program, "yt-dlp");
    assert_eq!(command.args, vec!["--get-id", "--default-search", "ytsearch1", "The Beatles Let It Be"]);
    let bare = source().search_audio("", "  ");
    assert_eq!(bare.args[3], "");
    let one = source().search_audio(" ", "Solo");
    assert_eq!(one.args[3], "Solo");
}

#[test]
fn search_needs_artist_and_title() {
    let mut info = track("a", "t");
    assert!(source().search(&info).is_ok());
    info.artist = None;
    assert!(matches!(source().search(&info), Err(AudioError::MissingInfo)));
    assert!(matches!(source().search_result(&info, &ended(true, "exit status: 0", "id")), Err(AudioError::MissingInfo)));
    let mut untitled = track("a", "t");
    untitled.title = None;
    assert!(matches!(source().search(&untitled), Err(AudioError::MissingInfo)));
    assert!(matches!(source().fetch(&untitled, "/c"), Err(AudioError::MissingInfo)));
}

#[test]
fn search_result_fills_in_the_url() {
    let mut info = track("A", "T");
    info.isrc = Some("I".to_string());
    let found = source().search_result(&info, &ended(true, "exit status: 0", "  dQw4w9WgXcQ\n")).unwrap();
    assert_eq!(found.youtube_url.as_deref(), Some("https://www.youtube.com/watch?v=dQw4w9WgXcQ"));
    assert_eq!(found.artist.as_deref(), Some("A"));
    assert_eq!(found.title.as_deref(), Some("T"));
    assert_eq!(found.isrc.as_deref(), Some("I"));
    assert_eq!(found.filename, None);
    assert_eq!(source().search_audio_result(&ended(true, "", "")).unwrap(), "https://www.youtube.com/watch?v=");
}

#[test]
fn failed_search_reports_status_or_cause() {
    let info = track("A", "T");
    match source().search_result(&info, &ended(false, "exit status: 2", "ignored")) {
        Err(AudioError::ExportFailed(reason)) => assert_eq!(reason, "ytb-dl exited with status: exit status: 2"),
        other => panic!("unexpected {:?}", other),
    }
    match source().search_audio_result(&Outcome::Failed("No such file or directory".to_string())) {
        Err(AudioError::Io(cause)) => assert_eq!(cause, "No such file or directory"),
        other => panic!("unexpected {:?}", other),
    }
}

#[test]
fn download_names_the_file_by_artist_and_title() {
    let download = source().download_audio(&track("AC/DC", "Back: In Black?"), "https://youtube.com/watch?v=1", "/cache/audio");
    assert_eq!(download.output, "/cache/audio/AC_DC - Back_ In Black_.%(ext)s");
    assert_eq!(download.expected.as_deref(), Some("/cache/audio/AC_DC - Back_ In Black_.mp3"));
    assert_eq!(download.command.program, "yt-dlp");
    assert_eq!(
        download.command.args,
        vec![
            "-x",
            "--audio-format",
            "mp3",
            "--extractor-args",
            "youtube:player_client=android",
            "-o",
            "/cache/audio/AC_DC - Back_ In Black_.%(ext)s",
            "https://youtube.com/watch?v=1",
        ]
    );
}

#[test]
fn download_without_identity_leaves_the_name_to_the_downloader() {
    let mut info = track("A", "T");
    info.artist = None;
    let download = source().download_audio(&info, "u", "/d/");
    assert_eq!(download.output, "/d/%(title)s.%(ext)s");
    assert_eq!(download.expected, None);
    assert_eq!(download.command.args[6], "/d/%(title)s.%(ext)s");
    assert_eq!(download.command.args[7], "u");
}

#[test]
fn fetch_downloads_when_the_url_is_known_and_searches_otherwise() {
    let mut info = track("A", "T");
    match source().fetch(&info, "/c").unwrap() {
        Acquire::Search(command) => assert_eq!(command.args[3], "A T"),
        other => panic!("unexpected {:?}", other),
    }
    info.youtube_url = Some("https://youtube.com/watch?v=9".to_string());
    match source().fetch(&info, "/c").unwrap() {
        Acquire::Download(download) => {
            assert_eq!(download.expected.as_deref(), Some("/c/A - T.mp3"));
            assert_eq!(download.command.args[7], "https://youtube.com/watch?v=9");
        },
        other => panic!("unexpected {:?}", other),
    }
    let only_url = AudioInfo {
        artist: None,
        title: None,
        filename: None,
        youtube_url: Some("https://youtube.com/watch?v=9".to_string()),
        isrc: None,
        duration_secs: None,
    };
    assert!(matches!(source().fetch(&only_url, "/c"), Ok(Acquire::Download(_))));
}

#[test]
fn download_result_needs_success_and_a_written_file() {
    let download = source().download_audio(&track("A", "T"), "u", "/c");
    let ok = ended(true, "exit status: 0", "");
    assert_eq!(source().download_audio_result(&download, &ok, Some("/c/A - T.mp3".to_string())).unwrap(), "/c/A - T.mp3");
    match source().fetch_result(&download, &ok, Some("/c/A - T.mp3".to_string())) {
        Ok(AudioLocation::LocalPath(p)) => assert_eq!(p, "/c/A - T.mp3"),
        other => panic!("unexpected {:?}", other),
    }
    match source().fetch_result(&download, &ok, None) {
        Err(AudioError::ExportFailed(reason)) => {
            assert_eq!(reason, "ytb-dl failed to write output file: /c/A - T.%(ext)s")
        },
        other => panic!("unexpected {:?}", other),
    }
    match source().fetch_result(&download, &ended(false, "exit status: 1", ""), Some("/c/A - T.mp3".to_string())) {
        Err(AudioError::ExportFailed(reason)) => assert_eq!(reason, "ytb-dl exited with status: exit status: 1"),
        other => panic!("unexpected {:?}", other),
    }
    match source().download_audio_result(&download, &Outcome::Failed("not installed".to_string()), None) {
        Err(AudioError::ExportFailed(reason)) => assert_eq!(reason, "not installed"),
        other => panic!("unexpected {:?}", other),
    }
}

#[test]
fn written_file_is_the_expected_one_when_it_is_there() {
    let download = source().download_audio(&track("A", "T"), "u", "/c");
    let before = vec![entry("old.mp3", EntryKind::File)];
    let after = vec![entry("old.mp3", EntryKind::File), entry("A - T.mp3", EntryKind::File)];
    assert_eq!(source().written_file(&download, "/c", &before, &after).as_deref(), Some("/c/A - T.mp3"));
    assert_eq!(source().written_file(&download, "/c", &before, &before), None);
    let as_directory = vec![entry("A - T.mp3", EntryKind::Directory)];
    assert_eq!(source().written_file(&download, "/c", &before, &as_directory), None);
    let overwritten = vec![entry("A - T.mp3", EntryKind::File)];
    assert_eq!(
        source().written_file(&download, "/c", &overwritten, &overwritten).as_deref(),
        Some("/c/A - T.mp3")
    );
}

#[test]
fn written_file_is_the_new_audio_file_when_the_downloader_named_it() {
    let mut nameless = track("A", "T");
    nameless.artist = None;
    let download = source().download_audio(&nameless, "u", "/c");
    let before = vec![entry("old.mp3", EntryKind::File), entry("x.part", EntryKind::File)];
    let after = vec![
        entry("old.mp3", EntryKind::File),
        entry("new.txt", EntryKind::File),
        entry("sub.mp3", EntryKind::Directory),
        entry("Some Title.mp3", EntryKind::File),
        entry("Another.mp3", EntryKind::File),
    ];
    assert_eq!(source().written_file(&download, "/c", &before, &after).as_deref(), Some("/c/Some Title.mp3"));
    assert_eq!(source().written_file(&download, "/c", &before, &before), None);
    assert_eq!(source().written_file(&download, "/c", &after, &after), None);
    assert_eq!(source().written_file(&download, "/c", &Vec::new(), &Vec::new()), None);
}

#[test]
fn fetch_goes_on_after_the_search() {
    let info = track("A", "T");
    let (found, download) =
        source().fetch_found(&info, &ended(true, "exit status: 0", "abc\n"), "/c").unwrap();
    assert_eq!(found.youtube_url.as_deref(), Some("https://www.youtube.com/watch?v=abc"));
    assert_eq!(found.artist.as_deref(), Some("A"));
    assert_eq!(download.command.args[7], "https://www.youtube.com/watch?v=abc");
    assert_eq!(download.expected.as_deref(), Some("/c/A - T.mp3"));
    assert!(matches!(
        source().fetch_found(&info, &ended(false, "exit status: 1", ""), "/c"),
        Err(AudioError::ExportFailed(_))
    ));
    assert!(matches!(
        source().fetch_found(&info, &Outcome::Failed("gone".to_string()), "/c"),
        Err(AudioError::Io(_))
    ));
    let mut nameless = track("A", "T");
    nameless.artist = None;
    assert!(matches!(
        source().fetch_found(&nameless, &ended(true, "", "abc"), "/c"),
        Err(AudioError::MissingInfo)
    ));
}

#[test]
fn downloader_names_itself() {
    assert_eq!(source().name(), "ytdlp");
    assert_eq!(source().name, "ytdlp");
}
