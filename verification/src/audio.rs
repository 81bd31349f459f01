//! The identity model: what is known of a track, the key under which it is
//! looked up, where it lies, and the playlists that group it.

use crate::path::{base_name, file_name, file_stem, lemma_base_name_is_plain, stem};
use crate::text::{
    lemma_lowered_equal, lowered, same_ignoring_ascii_case, split_at_first, split_once, to_lower,
    trim, trimmed,
};
use crate::views::views;
use vstd::prelude::*;
use vstd::string::StringExecFns;

verus! {

/// The view of an optional text.
pub open spec fn text_view(o: Option<String>) -> Option<Seq<char>> {
    match o {
        Some(s) => Some(s@),
        None => None,
    }
}

/// A copy of an optional text.
pub fn clone_text(o: &Option<String>) -> (r: Option<String>)
    ensures
        r == *o,
        text_view(r) == text_view(*o),
{
    match o {
        Some(s) => Some(s.clone()),
        None => None,
    }
}

/// The name of a playlist: one that was given, or the one that stands for
/// the audio that lies in no named playlist.
#[derive(Debug, Eq)]
pub enum PlaylistName {
    Named(String),
    Uncategorized,
}

/// A playlist name as a value.
pub enum PlaylistNameView {
    Named(Seq<char>),
    Uncategorized,
}

impl View for PlaylistName {
    type V = PlaylistNameView;

    open spec fn view(&self) -> PlaylistNameView {
        match self {
            PlaylistName::Named(s) => PlaylistNameView::Named(s@),
            PlaylistName::Uncategorized => PlaylistNameView::Uncategorized,
        }
    }
}

impl Clone for PlaylistName {
    fn clone(&self) -> (r: Self)
        ensures
            r@ == self@,
    {
        match self {
            PlaylistName::Named(s) => PlaylistName::Named(s.clone()),
            PlaylistName::Uncategorized => PlaylistName::Uncategorized,
        }
    }
}

impl PartialEq for PlaylistName {
    fn eq(&self, other: &Self) -> (r: bool) {
        match (self, other) {
            (PlaylistName::Named(a), PlaylistName::Named(b)) => *a == *b,
            (PlaylistName::Uncategorized, PlaylistName::Uncategorized) => true,
            _ => false,
        }
    }
}

impl vstd::std_specs::cmp::PartialEqSpecImpl for PlaylistName {
    open spec fn obeys_eq_spec() -> bool {
        true
    }

    open spec fn eq_spec(&self, other: &Self) -> bool {
        self@ == other@
    }
}

/// The name under which a playlist is shown.
pub open spec fn shown_name(name: PlaylistNameView) -> Seq<char> {
    match name {
        PlaylistNameView::Named(s) => s,
        PlaylistNameView::Uncategorized => "Uncategorized"@,
    }
}

impl PlaylistName {
    /// The name under which the playlist is shown: its own, or
    /// `Uncategorized`.
    pub fn disp_name(&self) -> (r: &str)
        ensures
            r@ == shown_name(self@),
    {
        match self {
            PlaylistName::Named(s) => s.as_str(),
            PlaylistName::Uncategorized => "Uncategorized",
        }
    }
}

/// What is known of a track. Every field may be missing.
#[derive(Debug)]
pub struct AudioInfo {
    pub artist: Option<String>,
    pub title: Option<String>,
    /// The name of the file that holds the track on some medium.
    pub filename: Option<String>,
    pub youtube_url: Option<String>,
    pub isrc: Option<String>,
    pub duration_secs: Option<u32>,
}

/// A description as a value.
pub struct AudioInfoView {
    pub artist: Option<Seq<char>>,
    pub title: Option<Seq<char>>,
    pub filename: Option<Seq<char>>,
    pub youtube_url: Option<Seq<char>>,
    pub isrc: Option<Seq<char>>,
    pub duration_secs: Option<u32>,
}

impl View for AudioInfo {
    type V = AudioInfoView;

    open spec fn view(&self) -> AudioInfoView {
        AudioInfoView {
            artist: text_view(self.artist),
            title: text_view(self.title),
            filename: text_view(self.filename),
            youtube_url: text_view(self.youtube_url),
            isrc: text_view(self.isrc),
            duration_secs: self.duration_secs,
        }
    }
}

impl Clone for AudioInfo {
    fn clone(&self) -> (r: Self)
        ensures
            r == *self,
            r@ == self@,
    {
        AudioInfo {
            artist: clone_text(&self.artist),
            title: clone_text(&self.title),
            filename: clone_text(&self.filename),
            youtube_url: clone_text(&self.youtube_url),
            isrc: clone_text(&self.isrc),
            duration_secs: self.duration_secs,
        }
    }
}

impl Default for AudioInfo {
    fn default() -> (r: Self)
        ensures
            r@ == unknown_track(),
    {
        AudioInfo {
            artist: None,
            title: None,
            filename: None,
            youtube_url: None,
            isrc: None,
            duration_secs: None,
        }
    }
}

/// The description that says nothing.
pub open spec fn unknown_track() -> AudioInfoView {
    AudioInfoView {
        artist: None,
        title: None,
        filename: None,
        youtube_url: None,
        isrc: None,
        duration_secs: None,
    }
}

/// What parts artist from title in a file name: a hyphen between spaces.
pub open spec fn hyphen_delimiter() -> Seq<char> {
    seq![' ', '-', ' ']
}

/// What parts artist from title where no hyphen does: an en dash between
/// spaces.
pub open spec fn dash_delimiter() -> Seq<char> {
    seq![' ', '\u{2013}', ' ']
}

/// The two halves of a stem, cut at its first hyphen delimiter or, where it
/// has none, at its first dash delimiter.
pub open spec fn artist_and_title(stem: Seq<char>) -> Option<(Seq<char>, Seq<char>)> {
    match split_at_first(stem, hyphen_delimiter()) {
        Some(halves) => Some(halves),
        None => split_at_first(stem, dash_delimiter()),
    }
}

/// What the name of a file says of the track in it. The stem of the name
/// gives artist and title where a delimiter parts it, each without the
/// white space around it, and the title alone where none does; the name
/// itself is kept, and nothing else is known.
pub open spec fn parsed_name(filename: Seq<char>) -> AudioInfoView {
    let name = base_name(filename);
    let stem = file_stem(name);
    match artist_and_title(stem) {
        Some((artist, title)) => AudioInfoView {
            artist: Some(trimmed(artist)),
            title: Some(trimmed(title)),
            filename: Some(name),
            ..unknown_track()
        },
        None => AudioInfoView { title: Some(stem), filename: Some(name), ..unknown_track() },
    }
}

/// What a path says of the track in its file is what the file's name says:
/// the directories before the name add nothing, and the name that is kept
/// is the last component.
pub proof fn lemma_parsed_name_of_base(path: Seq<char>)
    ensures
        parsed_name(base_name(path)) == parsed_name(path),
        parsed_name(path).filename == Some(base_name(path)),
{
    lemma_base_name_is_plain(path);
}

impl AudioInfo {
    /// The description of the track in the file named `filename`, as far as
    /// the name gives it.
    pub fn from_filename(filename: &str) -> (r: AudioInfo)
        ensures
            r@ == parsed_name(filename@),
    {
        let name = file_name(filename);
        let stem = stem(name.as_str());
        proof {
            reveal_strlit(" - ");
            reveal_strlit(" \u{2013} ");
            assert(" - "@ =~= hyphen_delimiter());
            assert(" \u{2013} "@ =~= dash_delimiter());
        }
        let halves = match split_once(stem.as_str(), " - ") {
            Some(halves) => Some(halves),
            None => split_once(stem.as_str(), " \u{2013} "),
        };
        match halves {
            Some((artist, title)) => AudioInfo {
                artist: Some(trim(artist.as_str())),
                title: Some(trim(title.as_str())),
                filename: Some(name),
                youtube_url: None,
                isrc: None,
                duration_secs: None,
            },
            None => AudioInfo {
                artist: None,
                title: Some(stem),
                filename: Some(name),
                youtube_url: None,
                isrc: None,
                duration_secs: None,
            },
        }
    }
}

/// The identity under which a track is looked up: its artist and its title,
/// both in ASCII lower case.
#[derive(Debug, Hash, Eq)]
pub struct AudioKey {
    pub artist: String,
    pub title: String,
}

/// A key as a value.
pub struct AudioKeyView {
    pub artist: Seq<char>,
    pub title: Seq<char>,
}

impl View for AudioKey {
    type V = AudioKeyView;

    open spec fn view(&self) -> AudioKeyView {
        AudioKeyView { artist: self.artist@, title: self.title@ }
    }
}

impl Clone for AudioKey {
    fn clone(&self) -> (r: Self)
        ensures
            r == *self,
            r@ == self@,
    {
        AudioKey { artist: self.artist.clone(), title: self.title.clone() }
    }
}

impl PartialEq for AudioKey {
    fn eq(&self, other: &Self) -> (r: bool) {
        self.artist == other.artist && self.title == other.title
    }
}

impl vstd::std_specs::cmp::PartialEqSpecImpl for AudioKey {
    open spec fn obeys_eq_spec() -> bool {
        true
    }

    open spec fn eq_spec(&self, other: &Self) -> bool {
        self@ == other@
    }
}

/// The key of a description: defined where it names both artist and title.
pub open spec fn key_of(info: AudioInfoView) -> Option<AudioKeyView> {
    match (info.artist, info.title) {
        (Some(artist), Some(title)) => Some(
            AudioKeyView { artist: lowered(artist), title: lowered(title) },
        ),
        _ => None,
    }
}

impl AudioKey {
    /// The key of `info`, where it names both artist and title.
    pub fn from_info(info: &AudioInfo) -> (r: Option<AudioKey>)
        ensures
            match r {
                Some(key) => key_of(info@) == Some(key@),
                None => key_of(info@) is None,
            },
    {
        match (&info.artist, &info.title) {
            (Some(artist), Some(title)) => Some(
                AudioKey { artist: to_lower(artist.as_str()), title: to_lower(title.as_str()) },
            ),
            _ => None,
        }
    }
}

/// Two descriptions that name artist and title have the same key exactly
/// when their artists are the same and their titles are the same, but for
/// the case of ASCII letters.
pub proof fn lemma_key_ignores_ascii_case(a: AudioInfoView, b: AudioInfoView)
    requires
        a.artist is Some,
        a.title is Some,
        b.artist is Some,
        b.title is Some,
    ensures
        key_of(a) is Some,
        key_of(b) is Some,
        key_of(a) == key_of(b) <==> {
            &&& same_ignoring_ascii_case(a.artist->0, b.artist->0)
            &&& same_ignoring_ascii_case(a.title->0, b.title->0)
        },
{
    lemma_lowered_equal(a.artist->0, b.artist->0);
    lemma_lowered_equal(a.title->0, b.title->0);
}

/// A playlist: its name and its tracks, in order.
pub struct Playlist {
    pub name: PlaylistName,
    pub audio: Vec<AudioInfo>,
}

/// A playlist as a value.
pub struct PlaylistView {
    pub name: PlaylistNameView,
    pub audio: Seq<AudioInfoView>,
}

impl View for Playlist {
    type V = PlaylistView;

    open spec fn view(&self) -> PlaylistView {
        PlaylistView { name: self.name@, audio: views(self.audio@) }
    }
}

/// Where a track lies: in a local file, or behind a URL.
#[derive(Debug)]
pub enum AudioLocation {
    LocalPath(String),
    RemoteUrl(String),
}

/// A location as a value.
pub enum AudioLocationView {
    LocalPath(Seq<char>),
    RemoteUrl(Seq<char>),
}

impl View for AudioLocation {
    type V = AudioLocationView;

    open spec fn view(&self) -> AudioLocationView {
        match self {
            AudioLocation::LocalPath(p) => AudioLocationView::LocalPath(p@),
            AudioLocation::RemoteUrl(u) => AudioLocationView::RemoteUrl(u@),
        }
    }
}

impl Clone for AudioLocation {
    fn clone(&self) -> (r: Self)
        ensures
            r == *self,
            r@ == self@,
    {
        match self {
            AudioLocation::LocalPath(p) => AudioLocation::LocalPath(p.clone()),
            AudioLocation::RemoteUrl(u) => AudioLocation::RemoteUrl(u.clone()),
        }
    }
}

impl AudioLocation {
    /// The location of the local file at `path`.
    pub fn local(path: &str) -> (r: Self)
        ensures
            r@ == AudioLocationView::LocalPath(path@),
    {
        AudioLocation::LocalPath(String::from_str(path))
    }

    /// The location behind `url`.
    pub fn remote(url: &str) -> (r: Self)
        ensures
            r@ == AudioLocationView::RemoteUrl(url@),
    {
        AudioLocation::RemoteUrl(String::from_str(url))
    }
}

/// Why a lookup or a transfer did not succeed.
#[derive(Debug)]
pub enum AudioError {
    /// Nothing is held under the identity that was asked for.
    NotFound,
    /// The description lacks a field that the lookup needs.
    MissingInfo,
    /// The source can be reached but cannot serve the request.
    Unavailable(String),
    /// A write, a copy or a run of the downloader failed.
    ExportFailed(String),
    /// A file operation failed; the text is its cause.
    Io(String),
    /// Something that the library holds to be impossible has happened.
    Unexpected,
}

/// An error as a value.
pub enum AudioErrorView {
    NotFound,
    MissingInfo,
    Unavailable(Seq<char>),
    ExportFailed(Seq<char>),
    Io(Seq<char>),
    Unexpected,
}

impl View for AudioError {
    type V = AudioErrorView;

    open spec fn view(&self) -> AudioErrorView {
        match self {
            AudioError::NotFound => AudioErrorView::NotFound,
            AudioError::MissingInfo => AudioErrorView::MissingInfo,
            AudioError::Unavailable(d) => AudioErrorView::Unavailable(d@),
            AudioError::ExportFailed(d) => AudioErrorView::ExportFailed(d@),
            AudioError::Io(d) => AudioErrorView::Io(d@),
            AudioError::Unexpected => AudioErrorView::Unexpected,
        }
    }
}

/// The sentence that reports `e`.
pub open spec fn error_message(e: AudioErrorView) -> Seq<char> {
    match e {
        AudioErrorView::NotFound => "Audio not found"@,
        AudioErrorView::MissingInfo => "Missing Audio Info"@,
        AudioErrorView::Unavailable(d) => "Source unavailable: "@ + d,
        AudioErrorView::ExportFailed(d) => "Export failed: "@ + d,
        AudioErrorView::Io(d) => "IO Error: "@ + d,
        AudioErrorView::Unexpected => "Unexpected error"@,
    }
}

impl AudioError {
    /// The sentence that reports the error.
    pub fn message(&self) -> (r: String)
        ensures
            r@ == error_message(self@),
    {
        match self {
            AudioError::NotFound => String::from_str("Audio not found"),
            AudioError::MissingInfo => String::from_str("Missing Audio Info"),
            AudioError::Unavailable(d) => String::from_str("Source unavailable: ").concat(
                d.as_str(),
            ),
            AudioError::ExportFailed(d) => String::from_str("Export failed: ").concat(d.as_str()),
            AudioError::Io(d) => String::from_str("IO Error: ").concat(d.as_str()),
            AudioError::Unexpected => String::from_str("Unexpected error"),
        }
    }
}

} // verus!
