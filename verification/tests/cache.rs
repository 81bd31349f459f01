use music_man::audio::{AudioError, AudioInfo, AudioKey, AudioLocation, PlaylistName};
use music_man::cache::{clone_tracks, is_cache_file, load, scan, LocalCache};
use music_man::folder::{EntryKind, FolderEntry};
use music_man::index::{AudioIndex, KeyTable};
use music_man::source::{AudioSource, Fetch};

fn file(name: &str) -> FolderEntry {
    FolderEntry { name: name.to_string(), kind: EntryKind::File }
}

fn track(artist: &str, title: &str) -> AudioInfo {
    AudioInfo {
        artist: Some(artist.to_string()),
        title: Some(title.to_string()),
        filename: None,
        youtube_url: None,
        isrc: None,
        duration_secs: None,
    }
}

fn title_only(title: &str) -> AudioInfo {
    AudioInfo {
        artist: None,
        title: Some(title.to_string()),
        filename: None,
        youtube_url: None,
        isrc: None,
        duration_secs: None,
    }
}

fn local(location: &AudioLocation) -> &str {
    match location {
        AudioLocation::LocalPath(p) => p.as_str(),
        AudioLocation::RemoteUrl(u) => panic!("remote location {}", u),
    }
}

fn cache_with(entries: Vec<FolderEntry>) -> LocalCache {
    LocalCache::new(
        "/cache/music-man/audio".to_string(),
        "/cache/music-man/audio/playlists.json".to_string(),
        Vec::new(),
        entries,
    )
}

#[test]
fn cache_on_empty_directory_lists_nothing() {
    let cache = cache_with(Vec::new());
    assert!(cache.list_playlists().unwrap().is_empty());
    assert!(cache.list_playlist_names().is_empty());
    assert!(cache.playlists().is_empty());
    assert!(matches!(cache.search(&track("a", "t")), Err(AudioError::NotFound)));
    assert_eq!(cache.audio_dir(), "/cache/music-man/audio");
    assert_eq!(cache.playlists_path(), "/cache/music-man/audio/playlists.json");
}

#[test]
fn filename_contributes_to_the_index_under_lower_case_key() {
    let cache = cache_with(vec![file("The Beatles - Yesterday.mp3")]);
    let found = cache.search(&track("the beatles", "yesterday")).unwrap();
    assert_eq!(local(&found), "/cache/music-man/audio/The Beatles - Yesterday.mp3");
    let shouted = cache.search(&track("THE BEATLES", "YESTERDAY")).unwrap();
    assert_eq!(local(&shouted), "/cache/music-man/audio/The Beatles - Yesterday.mp3");
    assert_eq!(cache.search_path(&track("The Beatles", "Yesterday")).unwrap(), "/cache/music-man/audio/The Beatles - Yesterday.mp3");
}

#[test]
fn scan_takes_every_file_with_a_key_whatever_its_extension() {
    let entries = vec![
        file("A - T.mp3"),
        file("B - U.txt"),
        file("._C - V.mp3"),
        file("untitled.mp3"),
        FolderEntry { name: "D - W.mp3".to_string(), kind: EntryKind::Directory },
        FolderEntry { name: "E - X.mp3".to_string(), kind: EntryKind::Other },
        file("playlists.json"),
    ];
    let index: KeyTable<String> = scan("/c", &entries);
    let key = |a: &str, t: &str| AudioKey::from_info(&track(a, t)).unwrap();
    assert_eq!(index.get(&key("a", "t")).map(|p| p.as_str()), Some("/c/A - T.mp3"));
    assert_eq!(index.get(&key("b", "u")).map(|p| p.as_str()), Some("/c/B - U.txt"));
    assert!(index.get(&key("c", "v")).is_none());
    assert!(index.get(&key("._c", "v")).is_none());
    assert!(index.get(&key("d", "w")).is_none());
    assert!(index.get(&key("e", "x")).is_none());
    assert!(is_cache_file(&file("x")));
    assert!(!is_cache_file(&file("._x")));
}

#[test]
fn search_without_artist_is_missing_info_not_not_found() {
    let cache = cache_with(vec![file("A - x.mp3")]);
    assert!(matches!(cache.search(&title_only("x")), Err(AudioError::MissingInfo)));
    assert!(matches!(cache.search_path(&title_only("x")), Err(AudioError::MissingInfo)));
    assert!(matches!(AudioSource::search(&cache, &title_only("x")), Err(AudioError::MissingInfo)));
    assert!(matches!(cache.search(&track("nobody", "x")), Err(AudioError::NotFound)));
}

#[test]
fn added_track_is_found_again() {
    let mut cache = cache_with(Vec::new());
    let info = track("Nina Simone", "Sinnerman");
    let persist = cache.add_to_cache(&info, &AudioLocation::local("/elsewhere/ns.mp3"), None);
    assert!(!persist);
    assert_eq!(local(&cache.search(&info).unwrap()), "/elsewhere/ns.mp3");
    assert_eq!(local(&cache.search(&track("nina simone", "SINNERMAN")).unwrap()), "/elsewhere/ns.mp3");
    assert!(cache.list_playlist_names().is_empty());
}

#[test]
fn adding_again_overwrites_the_path() {
    let mut cache = cache_with(vec![file("A - T.mp3")]);
    let info = track("a", "t");
    assert_eq!(local(&cache.search(&info).unwrap()), "/cache/music-man/audio/A - T.mp3");
    cache.add_to_cache(&info, &AudioLocation::local("/other/a-t.mp3"), None);
    assert_eq!(local(&cache.search(&info).unwrap()), "/other/a-t.mp3");
}

#[test]
fn remote_location_and_keyless_info_are_not_indexed() {
    let mut cache = cache_with(Vec::new());
    let info = track("a", "t");
    cache.add_to_cache(&info, &AudioLocation::remote("https://youtube.com/watch?v=1"), None);
    assert!(matches!(cache.search(&info), Err(AudioError::NotFound)));
    let persist = cache.add_to_cache(&title_only("x"), &AudioLocation::local("/p/x.mp3"), Some("mix"));
    assert!(persist);
    assert_eq!(cache.list_playlist_names(), vec!["mix".to_string()]);
    assert!(matches!(cache.search(&title_only("x")), Err(AudioError::MissingInfo)));
}

#[test]
fn playlist_entries_keep_insertion_order() {
    let mut cache = cache_with(Vec::new());
    cache.add_to_cache(&track("a", "1"), &AudioLocation::local("/c/a1.mp3"), Some("mix"));
    cache.add_to_cache(&track("b", "2"), &AudioLocation::local("/c/b2.mp3"), Some("other"));
    cache.add_to_cache(&track("c", "3"), &AudioLocation::local("/c/c3.mp3"), Some("mix"));
    assert_eq!(cache.list_playlist_names(), vec!["mix".to_string(), "other".to_string()]);
    let mix = cache.get_playlist("mix").unwrap();
    assert_eq!(mix.len(), 2);
    assert_eq!(mix[0].title.as_deref(), Some("1"));
    assert_eq!(mix[1].title.as_deref(), Some("3"));
    assert_eq!(cache.get_playlist("other").unwrap().len(), 1);
    assert!(cache.get_playlist("none").is_none());
    assert!(cache.get_playlist("Mix").is_none());
    let found = cache.search_playlist("mix").unwrap();
    assert_eq!(found.len(), 2);
    assert_eq!(found[0].0.title.as_deref(), Some("1"));
    assert_eq!(local(&found[0].1), "/c/a1.mp3");
    assert_eq!(found[1].0.title.as_deref(), Some("3"));
    assert_eq!(local(&found[1].1), "/c/c3.mp3");
}

#[test]
fn same_track_may_be_in_several_playlists() {
    let mut cache = cache_with(Vec::new());
    let info = track("a", "t");
    cache.add_to_cache(&info, &AudioLocation::local("/c/a.mp3"), Some("one"));
    cache.add_to_cache(&info, &AudioLocation::local("/c/a.mp3"), Some("two"));
    cache.add_to_playlist("one", info.clone());
    assert_eq!(cache.get_playlist("one").unwrap().len(), 2);
    assert_eq!(cache.get_playlist("two").unwrap().len(), 1);
    assert_eq!(cache.search_playlist("two").unwrap().len(), 1);
}

#[test]
fn search_playlist_fails_as_a_whole() {
    let mut cache = cache_with(Vec::new());
    cache.add_to_cache(&track("a", "1"), &AudioLocation::local("/c/a1.mp3"), Some("mix"));
    cache.add_to_playlist("mix", track("gone", "track"));
    cache.add_to_playlist("mix", title_only("x"));
    assert!(matches!(cache.search_playlist("mix"), Err(AudioError::NotFound)));
    assert!(matches!(cache.search_playlist("absent"), Err(AudioError::NotFound)));
    let mut other = cache_with(Vec::new());
    other.add_to_playlist("mix", title_only("x"));
    other.add_to_playlist("mix", track("gone", "track"));
    assert!(matches!(other.search_playlist("mix"), Err(AudioError::MissingInfo)));
    let mut empty = cache_with(Vec::new());
    empty.add_to_playlist("mix", track("a", "t"));
    assert!(matches!(empty.search_playlist("mix"), Err(AudioError::NotFound)));
}

#[test]
fn overlay_survives_a_restart() {
    let mut cache = cache_with(vec![file("A - T.mp3")]);
    let info = track("A", "T");
    let location = cache.search(&info).unwrap();
    let persist = cache.add_to_cache(&info, &location, Some("mix"));
    assert!(persist);
    let written: Vec<(String, Vec<AudioInfo>)> =
        cache.playlists().iter().map(|(name, tracks)| (name.clone(), clone_tracks(tracks))).collect();
    let restarted = LocalCache::new(
        cache.audio_dir().to_string(),
        cache.playlists_path().to_string(),
        written,
        vec![file("A - T.mp3")],
    );
    let found = restarted.search_playlist("mix").unwrap();
    assert_eq!(found.len(), 1);
    assert_eq!(found[0].0.artist.as_deref(), Some("A"));
    assert_eq!(found[0].0.title.as_deref(), Some("T"));
    assert_eq!(local(&found[0].1), local(&location));
    assert_eq!(local(&found[0].1), "/cache/music-man/audio/A - T.mp3");
}

#[test]
fn loaded_overlay_has_each_name_once() {
    let cache = LocalCache::new(
        "/c".to_string(),
        "/c/playlists.json".to_string(),
        vec![
            ("mix".to_string(), vec![track("a", "1")]),
            ("other".to_string(), vec![track("b", "2")]),
            ("mix".to_string(), vec![track("c", "3"), track("d", "4")]),
        ],
        Vec::new(),
    );
    assert_eq!(cache.list_playlist_names(), vec!["mix".to_string(), "other".to_string()]);
    let mix = cache.get_playlist("mix").unwrap();
    assert_eq!(mix.len(), 2);
    assert_eq!(mix[0].title.as_deref(), Some("3"));
    assert_eq!(mix[1].title.as_deref(), Some("4"));
    assert_eq!(load(&vec![("x".to_string(), Vec::new()), ("y".to_string(), Vec::new())]).len(), 2);
    assert!(load(&Vec::new()).is_empty());
}

#[test]
fn rebuilding_twice_gives_the_same_index() {
    let entries = || vec![file("A - T.mp3"), file("b - u.flac"), file("A - t.wav"), file("x.mp3")];
    let first = cache_with(entries());
    let second = cache_with(entries());
    for info in [track("a", "t"), track("b", "u"), track("x", "y"), title_only("x")] {
        match (first.search(&info), second.search(&info)) {
            (Ok(a), Ok(b)) => assert_eq!(local(&a), local(&b)),
            (Err(a), Err(b)) => assert_eq!(a.message(), b.message()),
            other => panic!("caches differ: {:?}", other),
        }
    }
    assert_eq!(local(&first.search(&track("a", "t")).unwrap()), "/cache/music-man/audio/A - t.wav");
    let mut third = cache_with(vec![file("old - one.mp3")]);
    third.add_to_cache(&track("added", "by hand"), &AudioLocation::local("/x.mp3"), None);
    third.rebuild_index(entries());
    assert!(matches!(third.search(&track("old", "one")), Err(AudioError::NotFound)));
    assert!(matches!(third.search(&track("added", "by hand")), Err(AudioError::NotFound)));
    assert_eq!(local(&third.search(&track("b", "u")).unwrap()), "/cache/music-man/audio/b - u.flac");
}

#[test]
fn index_ignores_the_order_of_reading_with_one_file_per_key() {
    let one = cache_with(vec![file("A - T.mp3"), file("B - U.mp3"), file("notes.txt"), file("C - V.flac")]);
    let two = cache_with(vec![file("C - V.flac"), file("notes.txt"), file("B - U.mp3"), file("A - T.mp3")]);
    for info in [track("a", "t"), track("b", "u"), track("c", "v"), track("d", "w")] {
        match (one.search(&info), two.search(&info)) {
            (Ok(a), Ok(b)) => assert_eq!(local(&a), local(&b)),
            (Err(AudioError::NotFound), Err(AudioError::NotFound)) => {},
            other => panic!("caches differ: {:?}", other),
        }
    }
}

#[test]
fn cache_lists_overlay_then_uncategorized() {
    let mut cache = cache_with(vec![file("A - T.mp3"), file("notes.txt"), file("solo.wav")]);
    cache.add_to_cache(&track("A", "T"), &AudioLocation::local("/cache/music-man/audio/A - T.mp3"), Some("mix"));
    cache.add_to_playlist("late", track("Z", "Z"));
    let lists = cache.list_playlists().unwrap();
    assert_eq!(lists.len(), 3);
    assert!(lists[0].name == PlaylistName::Named("mix".to_string()));
    assert_eq!(lists[0].audio.len(), 1);
    assert_eq!(lists[0].audio[0].artist.as_deref(), Some("A"));
    assert!(lists[1].name == PlaylistName::Named("late".to_string()));
    assert!(lists[2].name == PlaylistName::Uncategorized);
    assert_eq!(lists[2].audio.len(), 2);
    assert_eq!(lists[2].audio[0].filename.as_deref(), Some("A - T.mp3"));
    assert_eq!(lists[2].audio[1].filename.as_deref(), Some("solo.wav"));
    let now = cache.list_playlists_in(&vec![file("only.txt")]);
    assert_eq!(now.len(), 2);
    assert!(now[1].name == PlaylistName::Named("late".to_string()));
}

#[test]
fn cache_fetch_into_own_directory_is_ready() {
    let cache = cache_with(vec![file("A - T.mp3")]);
    match cache.fetch(&track("a", "t"), "/cache/music-man/audio".to_string()) {
        Ok(Fetch::Ready(location)) => assert_eq!(local(&location), "/cache/music-man/audio/A - T.mp3"),
        other => panic!("unexpected {:?}", other),
    }
}

#[test]
fn cache_fetch_elsewhere_is_a_copy_with_the_same_name() {
    let cache = cache_with(vec![file("A - T.mp3")]);
    match cache.fetch(&track("a", "t"), "/tmp/out".to_string()) {
        Ok(Fetch::Copy(copy)) => {
            assert_eq!(copy.from, "/cache/music-man/audio/A - T.mp3");
            assert_eq!(copy.to, "/tmp/out/A - T.mp3");
        },
        other => panic!("unexpected {:?}", other),
    }
}

#[test]
fn cache_fetch_of_unknown_track_fails() {
    let mut cache = cache_with(vec![file("A - T.mp3")]);
    assert!(matches!(cache.fetch(&track("b", "u"), "/tmp/out".to_string()), Err(AudioError::NotFound)));
    assert!(matches!(cache.fetch(&title_only("t"), "/tmp/out".to_string()), Err(AudioError::MissingInfo)));
    cache.add_to_cache(&track("dir", "only"), &AudioLocation::local("/some/dir/"), None);
    assert!(matches!(cache.fetch(&track("dir", "only"), "/tmp/out".to_string()), Err(AudioError::NotFound)));
    assert!(matches!(cache.fetch(&track("dir", "only"), "/cache/music-man/audio".to_string()), Ok(Fetch::Ready(_))));
}

#[test]
fn cache_as_source_returns_the_query() {
    let cache = cache_with(vec![file("A - T.mp3")]);
    let mut query = track("a", "t");
    query.isrc = Some("X1".to_string());
    query.duration_secs = Some(215);
    let same = AudioSource::search(&cache, &query).unwrap();
    assert_eq!(same.artist.as_deref(), Some("a"));
    assert_eq!(same.title.as_deref(), Some("t"));
    assert_eq!(same.isrc.as_deref(), Some("X1"));
    assert_eq!(same.duration_secs, Some(215));
    assert_eq!(same.youtube_url, None);
    assert!(matches!(AudioSource::search(&cache, &track("b", "u")), Err(AudioError::NotFound)));
    assert!(cache.search_info(&query).is_ok());
}

#[test]
fn cache_names_itself() {
    let cache = cache_with(Vec::new());
    assert_eq!(AudioIndex::name(&cache), "Local Cache");
    assert_eq!(AudioSource::name(&cache), "Local Cache");
}

#[test]
fn key_table_inserts_and_replaces() {
    let mut table: KeyTable<String> = KeyTable::new();
    let a = AudioKey::from_info(&track("a", "t")).unwrap();
    let b = AudioKey::from_info(&track("b", "u")).unwrap();
    assert!(table.get(&a).is_none());
    table.insert(a.clone(), "one".to_string());
    table.insert(b.clone(), "two".to_string());
    assert_eq!(table.get(&a).map(|s| s.as_str()), Some("one"));
    table.insert(a.clone(), "three".to_string());
    assert_eq!(table.get(&a).map(|s| s.as_str()), Some("three"));
    assert_eq!(table.get(&b).map(|s| s.as_str()), Some("two"));
    let c = AudioKey::from_info(&track("c", "v")).unwrap();
    assert!(table.get(&c).is_none());
}
