use music_man::audio::{AudioError, AudioInfo, AudioKey, AudioLocation, PlaylistName};

fn info(artist: Option<&str>, title: Option<&str>) -> AudioInfo {
    AudioInfo {
        artist: artist.map(|s| s.to_string()),
        title: title.map(|s| s.to_string()),
        filename: None,
        youtube_url: None,
        isrc: None,
        duration_secs: None,
    }
}

#[test]
fn filename_with_hyphen_gives_artist_and_title() {
    let parsed = AudioInfo::from_filename("The Beatles - Yesterday.mp3");
    assert_eq!(parsed.artist.as_deref(), Some("The Beatles"));
    assert_eq!(parsed.title.as_deref(), Some("Yesterday"));
    assert_eq!(parsed.filename.as_deref(), Some("The Beatles - Yesterday.mp3"));
    assert_eq!(parsed.youtube_url, None);
    assert_eq!(parsed.isrc, None);
    assert_eq!(parsed.duration_secs, None);
}

#[test]
fn filename_parse_gives_lower_case_key() {
    let parsed = AudioInfo::from_filename("The Beatles - Yesterday.mp3");
    let key = AudioKey::from_info(&parsed).expect("artist and title are present");
    assert_eq!(key.artist, "the beatles");
    assert_eq!(key.title, "yesterday");
}

#[test]
fn filename_with_en_dash_gives_artist_and_title() {
    let parsed = AudioInfo::from_filename("Nina Simone \u{2013} Sinnerman.flac");
    assert_eq!(parsed.artist.as_deref(), Some("Nina Simone"));
    assert_eq!(parsed.title.as_deref(), Some("Sinnerman"));
}

#[test]
fn filename_prefers_hyphen_over_earlier_en_dash() {
    let parsed = AudioInfo::from_filename("A \u{2013} B - C.mp3");
    assert_eq!(parsed.artist.as_deref(), Some("A \u{2013} B"));
    assert_eq!(parsed.title.as_deref(), Some("C"));
}

#[test]
fn filename_splits_at_first_delimiter_and_trims() {
    let parsed = AudioInfo::from_filename("  Air  -  La Femme - d'Argent .wav");
    assert_eq!(parsed.artist.as_deref(), Some("Air"));
    assert_eq!(parsed.title.as_deref(), Some("La Femme - d'Argent"));
}

#[test]
fn filename_without_delimiter_is_all_title() {
    let parsed = AudioInfo::from_filename("interlude.mp3");
    assert_eq!(parsed.artist, None);
    assert_eq!(parsed.title.as_deref(), Some("interlude"));
    assert_eq!(parsed.filename.as_deref(), Some("interlude.mp3"));
    assert!(AudioKey::from_info(&parsed).is_none());
}

#[test]
fn filename_keeps_only_the_last_component() {
    let parsed = AudioInfo::from_filename("/media/player/mix/A - T.mp3");
    assert_eq!(parsed.filename.as_deref(), Some("A - T.mp3"));
    assert_eq!(parsed.artist.as_deref(), Some("A"));
    assert_eq!(parsed.title.as_deref(), Some("T"));
}

#[test]
fn stem_ends_at_the_last_dot_only() {
    let parsed = AudioInfo::from_filename("a.b - c.d.mp3");
    assert_eq!(parsed.artist.as_deref(), Some("a.b"));
    assert_eq!(parsed.title.as_deref(), Some("c.d"));
}

#[test]
fn key_needs_artist_and_title() {
    assert!(AudioKey::from_info(&info(None, Some("x"))).is_none());
    assert!(AudioKey::from_info(&info(Some("x"), None)).is_none());
    assert!(AudioKey::from_info(&info(None, None)).is_none());
    assert!(AudioKey::from_info(&info(Some("a"), Some("t"))).is_some());
}

#[test]
fn key_ignores_ascii_case() {
    let a = AudioKey::from_info(&info(Some("The Beatles"), Some("YESTERDAY"))).unwrap();
    let b = AudioKey::from_info(&info(Some("the beatles"), Some("yesterday"))).unwrap();
    assert!(a == b);
    assert_eq!(a.artist, "the beatles");
    assert_eq!(a.title, "yesterday");
}

#[test]
fn key_keeps_spaces_and_letters_beyond_ascii() {
    let a = AudioKey::from_info(&info(Some(" Bj\u{d6}rk"), Some("J\u{f3}ga "))).unwrap();
    assert_eq!(a.artist, " bj\u{d6}rk");
    assert_eq!(a.title, "j\u{f3}ga ");
    let b = AudioKey::from_info(&info(Some("bj\u{f6}rk"), Some("j\u{f3}ga"))).unwrap();
    assert!(a != b);
}

#[test]
fn playlist_names_are_shown() {
    assert_eq!(PlaylistName::Named("mix".to_string()).disp_name(), "mix");
    assert_eq!(PlaylistName::Uncategorized.disp_name(), "Uncategorized");
    assert!(PlaylistName::Named("mix".to_string()) == PlaylistName::Named("mix".to_string()));
    assert!(PlaylistName::Named("mix".to_string()) != PlaylistName::Uncategorized);
    assert!(PlaylistName::Named("a".to_string()).clone() == PlaylistName::Named("a".to_string()));
}

#[test]
fn locations_keep_their_text() {
    assert!(matches!(AudioLocation::local("/c/a.mp3"), AudioLocation::LocalPath(p) if p == "/c/a.mp3"));
    assert!(matches!(AudioLocation::remote("https://x"), AudioLocation::RemoteUrl(u) if u == "https://x"));
}

#[test]
fn errors_have_messages() {
    assert_eq!(AudioError::NotFound.message(), "Audio not found");
    assert_eq!(AudioError::MissingInfo.message(), "Missing Audio Info");
    assert_eq!(AudioError::Unavailable("offline".to_string()).message(), "Source unavailable: offline");
    assert_eq!(AudioError::ExportFailed("disk full".to_string()).message(), "Export failed: disk full");
    assert_eq!(AudioError::Io("denied".to_string()).message(), "IO Error: denied");
    assert_eq!(AudioError::Unexpected.message(), "Unexpected error");
}

#[test]
fn default_info_knows_nothing() {
    let d = AudioInfo::default();
    assert!(d.artist.is_none() && d.title.is_none() && d.filename.is_none());
    assert!(d.youtube_url.is_none() && d.isrc.is_none() && d.duration_secs.is_none());
}
