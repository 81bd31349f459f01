use music_man::audio::{AudioError, AudioInfo, AudioLocation, PlaylistName};
use music_man::cache::LocalCache;
use music_man::device::{AttachedDevice, DeviceEntry};
use music_man::folder::{EntryKind, FolderEntry};
use music_man::source::{Acquire, Outcome, YtDlpSource};
use music_man::transfer::{complete_download, download, import, import_playlist};

fn file(name: &str) -> FolderEntry {
    FolderEntry { name: name.to_string(), kind: EntryKind::File }
}

fn track(artist: &str, title: &str) -> AudioInfo {
    AudioInfo {
        artist: Some(artist.to_string()),
        title: Some(title.to_string()),
        filename: None,
        youtube_url: None,
        isrc: None,
        duration_secs: None,
    }
}

fn empty_cache() -> LocalCache {
    LocalCache::new("/cache".to_string(), "/cache/playlists.json".to_string(), Vec::new(), Vec::new())
}

fn device() -> AttachedDevice {
    AttachedDevice::new(
        "player".to_string(),
        "/device".to_string(),
        vec![DeviceEntry {
            entry: FolderEntry { name: "old".to_string(), kind: EntryKind::Directory },
            children: vec![file("X - Y.mp3")],
        }],
    )
}

fn local(location: &AudioLocation) -> &str {
    match location {
        AudioLocation::LocalPath(p) => p.as_str(),
        AudioLocation::RemoteUrl(u) => panic!("remote location {}", u),
    }
}

fn success() -> Outcome {
    Outcome::Exited { success: true, status: "exit status: 0".to_string(), output: String::new() }
}

#[test]
fn download_then_import() {
    let source = YtDlpSource { name: "ytdlp".to_string() };
    let mut cache = empty_cache();
    let mut info = track("A", "T");
    info.youtube_url = Some("https://www.youtube.com/watch?v=abc".to_string());
    let plan = match download(&source, &cache, &info).unwrap() {
        Acquire::Download(plan) => plan,
        other => panic!("unexpected {:?}", other),
    };
    assert_eq!(plan.expected.as_deref(), Some("/cache/A - T.mp3"));
    let written = plan.expected.clone();
    let (location, persist) =
        complete_download(&source, &mut cache, &info, &plan, &success(), written, Some("mix")).unwrap();
    assert_eq!(local(&location), "/cache/A - T.mp3");
    assert!(persist);
    assert_eq!(local(&cache.search(&track("A", "T")).unwrap()), "/cache/A - T.mp3");
    let mix = PlaylistName::Named("mix".to_string());
    let copy = import(&cache, &device(), &track("a", "t"), Some(&mix)).unwrap();
    assert_eq!(copy.from, "/cache/A - T.mp3");
    assert_eq!(copy.to, "/device/mix/A - T.mp3");
    let batch = import_playlist(&cache, &device(), "mix");
    assert!(batch.failure.is_none());
    assert_eq!(batch.copies.len(), 1);
    assert_eq!(batch.copies[0].from, "/cache/A - T.mp3");
    assert_eq!(batch.copies[0].to, "/device/mix/A - T.mp3");
}

#[test]
fn downloaded_file_is_found_by_a_rescan() {
    let source = YtDlpSource { name: "ytdlp".to_string() };
    let info = track("Nina Simone", "Feeling Good");
    let plan = source.download_audio(&info, "u", "/cache");
    let written = plan.expected.clone().unwrap();
    assert_eq!(written, "/cache/Nina Simone - Feeling Good.mp3");
    let name = music_man::path::file_name(&written);
    let rescanned = LocalCache::new("/cache".to_string(), "/cache/playlists.json".to_string(), Vec::new(), vec![file(&name)]);
    assert_eq!(local(&rescanned.search(&info).unwrap()), written);
    let parsed = AudioInfo::from_filename(&written);
    assert_eq!(parsed.artist, info.artist);
    assert_eq!(parsed.title, info.title);
}

#[test]
fn download_without_url_starts_with_a_search() {
    let source = YtDlpSource { name: "ytdlp".to_string() };
    let cache = empty_cache();
    let info = track("A", "T");
    let command = match download(&source, &cache, &info).unwrap() {
        Acquire::Search(command) => command,
        other => panic!("unexpected {:?}", other),
    };
    assert_eq!(command.args[3], "A T");
    let found = source
        .search_result(&info, &Outcome::Exited { success: true, status: String::new(), output: "xyz\n".to_string() })
        .unwrap();
    assert!(matches!(download(&source, &cache, &found), Ok(Acquire::Download(_))));
}

#[test]
fn failed_download_leaves_the_cache_as_it_was() {
    let source = YtDlpSource { name: "ytdlp".to_string() };
    let mut cache = empty_cache();
    let mut info = track("A", "T");
    info.youtube_url = Some("u".to_string());
    let plan = source.download_audio(&info, "u", cache.audio_dir());
    let failed = Outcome::Exited { success: false, status: "exit status: 1".to_string(), output: String::new() };
    let result = complete_download(&source, &mut cache, &info, &plan, &failed, None, Some("mix"));
    assert!(matches!(result, Err(AudioError::ExportFailed(_))));
    assert!(matches!(cache.search(&info), Err(AudioError::NotFound)));
    assert!(cache.list_playlist_names().is_empty());
    let missing = complete_download(&source, &mut cache, &info, &plan, &success(), None, None);
    assert!(matches!(missing, Err(AudioError::ExportFailed(_))));
    assert!(matches!(cache.search(&info), Err(AudioError::NotFound)));
}

#[test]
fn download_without_playlist_does_not_touch_the_overlay() {
    let source = YtDlpSource { name: "ytdlp".to_string() };
    let mut cache = empty_cache();
    let info = track("A", "T");
    let plan = source.download_audio(&info, "u", cache.audio_dir());
    let (_, persist) =
        complete_download(&source, &mut cache, &info, &plan, &success(), Some("/cache/A - T.mp3".to_string()), None)
            .unwrap();
    assert!(!persist);
    assert!(cache.list_playlist_names().is_empty());
    assert!(cache.search(&info).is_ok());
}

#[test]
fn import_of_unknown_track_fails_with_the_lookup_error() {
    let cache = empty_cache();
    assert!(matches!(import(&cache, &device(), &track("a", "t"), None), Err(AudioError::NotFound)));
    let mut untitled = track("a", "t");
    untitled.title = None;
    assert!(matches!(import(&cache, &device(), &untitled, None), Err(AudioError::MissingInfo)));
}

#[test]
fn import_playlist_copies_every_track_in_order() {
    let mut cache = empty_cache();
    cache.add_to_cache(&track("a", "1"), &AudioLocation::local("/cache/a - 1.mp3"), Some("mix"));
    cache.add_to_cache(&track("b", "2"), &AudioLocation::local("/cache/b - 2.flac"), Some("mix"));
    cache.add_to_cache(&track("c", "3"), &AudioLocation::local("/cache/c - 3.mp3"), Some("other"));
    let batch = import_playlist(&cache, &device(), "mix");
    assert!(batch.failure.is_none());
    assert_eq!(batch.copies.len(), 2);
    assert_eq!(batch.copies[0].from, "/cache/a - 1.mp3");
    assert_eq!(batch.copies[0].to, "/device/mix/a - 1.mp3");
    assert_eq!(batch.copies[1].from, "/cache/b - 2.flac");
    assert_eq!(batch.copies[1].to, "/device/mix/b - 2.flac");
}

#[test]
fn import_playlist_with_an_unresolved_track_copies_nothing() {
    let mut cache = empty_cache();
    cache.add_to_cache(&track("a", "1"), &AudioLocation::local("/cache/a - 1.mp3"), Some("mix"));
    cache.add_to_playlist("mix", track("not", "cached"));
    let batch = import_playlist(&cache, &device(), "mix");
    assert!(batch.copies.is_empty());
    assert!(matches!(batch.failure, Some(AudioError::NotFound)));
    let absent = import_playlist(&cache, &device(), "absent");
    assert!(absent.copies.is_empty());
    assert!(matches!(absent.failure, Some(AudioError::NotFound)));
}

#[test]
fn import_playlist_stops_at_the_first_refused_track() {
    let mut cache = empty_cache();
    cache.add_to_cache(&track("a", "1"), &AudioLocation::local("/cache/a - 1.mp3"), Some("mix"));
    cache.add_to_cache(&track("b", "2"), &AudioLocation::local("/cache/dir/"), Some("mix"));
    cache.add_to_cache(&track("c", "3"), &AudioLocation::local("/cache/c - 3.mp3"), Some("mix"));
    let batch = import_playlist(&cache, &device(), "mix");
    assert_eq!(batch.copies.len(), 1);
    assert_eq!(batch.copies[0].to, "/device/mix/a - 1.mp3");
    match batch.failure {
        Some(AudioError::ExportFailed(reason)) => assert_eq!(reason, "the source path names no file"),
        other => panic!("unexpected {:?}", other),
    }
}
