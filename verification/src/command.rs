//! The commands of the interactive session: what a line that was typed
//! asks for.

use crate::text::{
    chars_of, find_from, first_match, lowered, split_whitespace, to_lower, words,
};
use crate::views::views;
use vstd::prelude::*;
use vstd::string::StringExecFns;

verus! {

/// What a line asks for.
#[derive(Debug)]
pub enum Request {
    /// `list`: the playlists of the target device.
    List,
    /// `search <artist> <title>`: where the cache holds the track.
    Search { artist: String, title: String },
    /// `download <url> [playlist]`: fetch what lies behind the URL.
    DownloadUrl { url: String, playlist: Option<String> },
    /// `download <artist> <title> [playlist]`: find the track and fetch it.
    DownloadTrack { artist: String, title: String, playlist: Option<String> },
    /// `import <artist> <title> [playlist]`: copy the track from the cache
    /// to the target device.
    Import { artist: String, title: String, playlist: Option<String> },
    /// `list_playlists`: the named playlists of the cache.
    ListPlaylists,
    /// `show_playlist <name>`: the tracks of a playlist of the cache, with
    /// their places.
    ShowPlaylist { name: String },
    /// `import_playlist <name>`: copy a playlist of the cache to the target
    /// device.
    ImportPlaylist { name: String },
}

/// A request as a value.
pub enum RequestView {
    List,
    Search { artist: Seq<char>, title: Seq<char> },
    DownloadUrl { url: Seq<char>, playlist: Option<Seq<char>> },
    DownloadTrack { artist: Seq<char>, title: Seq<char>, playlist: Option<Seq<char>> },
    Import { artist: Seq<char>, title: Seq<char>, playlist: Option<Seq<char>> },
    ListPlaylists,
    ShowPlaylist { name: Seq<char> },
    ImportPlaylist { name: Seq<char> },
}

impl View for Request {
    type V = RequestView;

    open spec fn view(&self) -> RequestView {
        match self {
            Request::List => RequestView::List,
            Request::Search { artist, title } => RequestView::Search {
                artist: artist@,
                title: title@,
            },
            Request::DownloadUrl { url, playlist } => RequestView::DownloadUrl {
                url: url@,
                playlist: match playlist {
                    Some(p) => Some(p@),
                    None => None,
                },
            },
            Request::DownloadTrack { artist, title, playlist } => RequestView::DownloadTrack {
                artist: artist@,
                title: title@,
                playlist: match playlist {
                    Some(p) => Some(p@),
                    None => None,
                },
            },
            Request::Import { artist, title, playlist } => RequestView::Import {
                artist: artist@,
                title: title@,
                playlist: match playlist {
                    Some(p) => Some(p@),
                    None => None,
                },
            },
            Request::ListPlaylists => RequestView::ListPlaylists,
            Request::ShowPlaylist { name } => RequestView::ShowPlaylist { name: name@ },
            Request::ImportPlaylist { name } => RequestView::ImportPlaylist { name: name@ },
        }
    }
}

/// Whether an argument is taken for a URL: it holds `youtube`, in any case
/// of its letters.
pub open spec fn names_youtube(arg: Seq<char>) -> bool {
    first_match(lowered(arg), "youtube"@) is Some
}

/// The word at index `i` of `w`, where there is one.
pub open spec fn word_at(w: Seq<Seq<char>>, i: int) -> Option<Seq<char>> {
    if 0 <= i < w.len() {
        Some(w[i])
    } else {
        None
    }
}

/// What the words of a line ask for: the first word names the command, the
/// words after it are its arguments. Words beyond those that a command
/// takes are ignored. There is no request where the first word names no
/// command or an argument that the command needs is missing.
pub open spec fn request_of(w: Seq<Seq<char>>) -> Option<RequestView> {
    if w.len() == 0 {
        None
    } else if w[0] == "list"@ {
        Some(RequestView::List)
    } else if w[0] == "list_playlists"@ {
        Some(RequestView::ListPlaylists)
    } else if w[0] == "search"@ {
        if w.len() >= 3 {
            Some(RequestView::Search { artist: w[1], title: w[2] })
        } else {
            None
        }
    } else if w[0] == "download"@ {
        if w.len() >= 2 && names_youtube(w[1]) {
            Some(RequestView::DownloadUrl { url: w[1], playlist: word_at(w, 2) })
        } else if w.len() >= 3 {
            Some(RequestView::DownloadTrack { artist: w[1], title: w[2], playlist: word_at(w, 3) })
        } else {
            None
        }
    } else if w[0] == "import"@ {
        if w.len() >= 3 {
            Some(RequestView::Import { artist: w[1], title: w[2], playlist: word_at(w, 3) })
        } else {
            None
        }
    } else if w[0] == "show_playlist"@ {
        if w.len() >= 2 {
            Some(RequestView::ShowPlaylist { name: w[1] })
        } else {
            None
        }
    } else if w[0] == "import_playlist"@ {
        if w.len() >= 2 {
            Some(RequestView::ImportPlaylist { name: w[1] })
        } else {
            None
        }
    } else {
        None
    }
}

/// Whether `arg` is taken for a URL.
pub fn is_youtube_url(arg: &str) -> (r: bool)
    ensures
        r == names_youtube(arg@),
{
    let low = chars_of(to_lower(arg).as_str());
    let needle = chars_of("youtube");
    find_from(&low, &needle, 0).is_some()
}

/// The word at index `i` of `w`, where there is one.
fn word(w: &Vec<String>, i: usize) -> (r: Option<String>)
    ensures
        match r {
            Some(s) => word_at(views(w@), i as int) == Some(s@),
            None => word_at(views(w@), i as int) is None,
        },
{
    if i < w.len() {
        Some(w[i].clone())
    } else {
        None
    }
}

/// What the line `line` asks for.
pub fn parse_request(line: &str) -> (r: Option<Request>)
    ensures
        match r {
            Some(request) => request_of(words(line@)) == Some(request@),
            None => request_of(words(line@)) is None,
        },
{
    let w = split_whitespace(line);
    if w.len() == 0 {
        return None;
    }
    let n = w.len();
    if w[0] == String::from_str("list") {
        Some(Request::List)
    } else if w[0] == String::from_str("list_playlists") {
        Some(Request::ListPlaylists)
    } else if w[0] == String::from_str("search") {
        if n >= 3 {
            Some(Request::Search { artist: w[1].clone(), title: w[2].clone() })
        } else {
            None
        }
    } else if w[0] == String::from_str("download") {
        if n >= 2 && is_youtube_url(w[1].as_str()) {
            Some(Request::DownloadUrl { url: w[1].clone(), playlist: word(&w, 2) })
        } else if n >= 3 {
            Some(
                Request::DownloadTrack {
                    artist: w[1].clone(),
                    title: w[2].clone(),
                    playlist: word(&w, 3),
                },
            )
        } else {
            None
        }
    } else if w[0] == String::from_str("import") {
        if n >= 3 {
            Some(Request::Import { artist: w[1].clone(), title: w[2].clone(), playlist: word(&w, 3) })
        } else {
            None
        }
    } else if w[0] == String::from_str("show_playlist") {
        if n >= 2 {
            Some(Request::ShowPlaylist { name: w[1].clone() })
        } else {
            None
        }
    } else if w[0] == String::from_str("import_playlist") {
        if n >= 2 {
            Some(Request::ImportPlaylist { name: w[1].clone() })
        } else {
            None
        }
    } else {
        None
    }
}

} // verus!
