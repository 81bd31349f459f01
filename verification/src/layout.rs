//! Where the application keeps its files: its directories under those that
//! the platform gives each user, the audio cache, and the overlay file.

use crate::audio::text_view;
use crate::path::{join, joined};
use crate::views::views;
use vstd::prelude::*;

verus! {

/// The application's directory under the platform's directory `root`.
pub open spec fn app_dir(root: Seq<char>) -> Seq<char> {
    joined(root, "music-man"@)
}

/// The directory of cached audio under the application's cache directory.
pub open spec fn audio_dir(cache_dir: Seq<char>) -> Seq<char> {
    joined(cache_dir, "audio"@)
}

/// The overlay file in the directory of cached audio.
pub open spec fn overlay_file(audio_dir: Seq<char>) -> Seq<char> {
    joined(audio_dir, "playlists.json"@)
}

/// The directories that the application needs, in the order in which they
/// are made: those for its data, its configuration and its cache, and the
/// directory of cached audio in the last of them.
pub open spec fn app_dirs(data_root: Seq<char>, config_root: Seq<char>, cache_root: Seq<char>) -> Seq<
    Seq<char>,
> {
    seq![
        app_dir(data_root),
        app_dir(config_root),
        app_dir(cache_root),
        audio_dir(app_dir(cache_root)),
    ]
}

/// `dirs::data_dir`: the directory that the platform gives the user for
/// data, as text, where it gives one. Which one depends on the platform and
/// on the environment, so nothing is claimed of it.
#[verifier::external_body]
fn platform_data_dir() -> Option<String> {
    match dirs::data_dir() {
        Some(path) => Some(path.to_string_lossy().into_owned()),
        None => None,
    }
}

/// `dirs::config_dir`: the directory that the platform gives the user for
/// configuration, as text, where it gives one. Which one depends on the
/// platform and on the environment, so nothing is claimed of it.
#[verifier::external_body]
fn platform_config_dir() -> Option<String> {
    match dirs::config_dir() {
        Some(path) => Some(path.to_string_lossy().into_owned()),
        None => None,
    }
}

/// `dirs::cache_dir`: the directory that the platform gives the user for
/// caches, as text, where it gives one. Which one depends on the platform
/// and on the environment, so nothing is claimed of it.
#[verifier::external_body]
fn platform_cache_dir() -> Option<String> {
    match dirs::cache_dir() {
        Some(path) => Some(path.to_string_lossy().into_owned()),
        None => None,
    }
}

/// The application's directory under the platform's directory `root`.
pub fn app_dir_in(root: &str) -> (r: String)
    ensures
        r@ == app_dir(root@),
{
    join(root, "music-man")
}

/// The directory of cached audio under the application's cache directory.
pub fn audio_dir_in(cache_dir: &str) -> (r: String)
    ensures
        r@ == audio_dir(cache_dir@),
{
    join(cache_dir, "audio")
}

/// The overlay file in the directory of cached audio.
pub fn overlay_file_in(audio_dir: &str) -> (r: String)
    ensures
        r@ == overlay_file(audio_dir@),
{
    join(audio_dir, "playlists.json")
}

/// The directories that the application needs, given the platform's
/// directories for data, configuration and caches.
pub fn app_dirs_in(data_root: &str, config_root: &str, cache_root: &str) -> (r: Vec<String>)
    ensures
        views(r@) == app_dirs(data_root@, config_root@, cache_root@),
{
    let cache = app_dir_in(cache_root);
    let audio = audio_dir_in(cache.as_str());
    let dirs = vec![app_dir_in(data_root), app_dir_in(config_root), cache, audio];
    assert(views(dirs@) =~= app_dirs(data_root@, config_root@, cache_root@));
    dirs
}

/// The application's data directory, where the platform names one for the
/// user.
pub fn get_data_dir() -> (r: Option<String>)
    ensures
        r matches Some(dir) ==> exists|root: Seq<char>| dir@ == #[trigger] app_dir(root),
{
    let root = platform_data_dir();
    let dir = app_dir_for(root);
    dir
}

/// The application's configuration directory, where the platform names
/// one for the user.
pub fn get_config_dir() -> (r: Option<String>)
    ensures
        r matches Some(dir) ==> exists|root: Seq<char>| dir@ == #[trigger] app_dir(root),
{
    let root = platform_config_dir();
    let dir = app_dir_for(root);
    dir
}

/// The application's cache directory, where the platform names one for
/// the user.
pub fn get_cache_dir() -> (r: Option<String>)
    ensures
        r matches Some(dir) ==> exists|root: Seq<char>| dir@ == #[trigger] app_dir(root),
{
    let root = platform_cache_dir();
    let dir = app_dir_for(root);
    dir
}

/// The directory of cached audio, where the platform names a cache
/// directory for the user.
pub fn audio_cache_dir() -> (r: Option<String>)
    ensures
        r matches Some(dir) ==> exists|root: Seq<char>|
            dir@ == audio_dir(#[trigger] app_dir(root)),
{
    let root = platform_cache_dir();
    let dir = audio_dir_for(root);
    dir
}

/// The directory of cached audio, where the platform names a cache
/// directory for the user.
pub fn local_audio_cache_dir() -> (r: Option<String>)
    ensures
        r matches Some(dir) ==> exists|root: Seq<char>|
            dir@ == audio_dir(#[trigger] app_dir(root)),
{
    let root = platform_cache_dir();
    let dir = audio_dir_for(root);
    dir
}

/// The overlay file, where the platform names a cache directory for the
/// user.
pub fn playlist_cache() -> (r: Option<String>)
    ensures
        r matches Some(file) ==> exists|root: Seq<char>|
            file@ == overlay_file(audio_dir(#[trigger] app_dir(root))),
{
    let root = platform_cache_dir();
    let file = overlay_file_for(root);
    file
}

/// The directories to make before the application starts, where the
/// platform names all three of the user's directories.
pub fn setup_app_directories() -> (r: Option<Vec<String>>)
    ensures
        r matches Some(dirs) ==> exists|data: Seq<char>, config: Seq<char>, cache: Seq<char>|
            views(dirs@) == #[trigger] app_dirs(data, config, cache),
{
    let data = platform_data_dir();
    let config = platform_config_dir();
    let cache = platform_cache_dir();
    let dirs = app_dirs_for(data, config, cache);
    dirs
}

/// The application's directory under the directory that the platform
/// gave, where it gave one.
pub open spec fn app_dir_under(root: Option<Seq<char>>) -> Option<Seq<char>> {
    match root {
        Some(path) => Some(app_dir(path)),
        None => None,
    }
}

/// The directory of cached audio under the cache directory that the
/// platform gave, where it gave one.
pub open spec fn audio_dir_under(cache_root: Option<Seq<char>>) -> Option<Seq<char>> {
    match cache_root {
        Some(path) => Some(audio_dir(app_dir(path))),
        None => None,
    }
}

/// The overlay file under the cache directory that the platform gave,
/// where it gave one.
pub open spec fn overlay_file_under(cache_root: Option<Seq<char>>) -> Option<Seq<char>> {
    match cache_root {
        Some(path) => Some(overlay_file(audio_dir(app_dir(path)))),
        None => None,
    }
}

/// The directories that the application needs under those that the
/// platform gave, where it gave all three.
pub open spec fn app_dirs_under(
    data_root: Option<Seq<char>>,
    config_root: Option<Seq<char>>,
    cache_root: Option<Seq<char>>,
) -> Option<Seq<Seq<char>>> {
    match (data_root, config_root, cache_root) {
        (Some(data), Some(config), Some(cache)) => Some(app_dirs(data, config, cache)),
        _ => None,
    }
}

/// The application's directory under `root`, what the platform gave; none
/// where it gave none.
pub fn app_dir_for(root: Option<String>) -> (r: Option<String>)
    ensures
        text_view(r) == app_dir_under(text_view(root)),
{
    match root {
        Some(path) => Some(app_dir_in(path.as_str())),
        None => None,
    }
}

/// The directory of cached audio under `cache_root`, what the platform
/// gave for caches; none where it gave none.
pub fn audio_dir_for(cache_root: Option<String>) -> (r: Option<String>)
    ensures
        text_view(r) == audio_dir_under(text_view(cache_root)),
{
    match cache_root {
        Some(path) => Some(audio_dir_in(app_dir_in(path.as_str()).as_str())),
        None => None,
    }
}

/// The overlay file under `cache_root`, what the platform gave for caches;
/// none where it gave none.
pub fn overlay_file_for(cache_root: Option<String>) -> (r: Option<String>)
    ensures
        text_view(r) == overlay_file_under(text_view(cache_root)),
{
    match audio_dir_for(cache_root) {
        Some(audio) => Some(overlay_file_in(audio.as_str())),
        None => None,
    }
}

/// The directories that the application needs under what the platform gave
/// for data, configuration and caches; none where one of the three is
/// missing.
pub fn app_dirs_for(
    data_root: Option<String>,
    config_root: Option<String>,
    cache_root: Option<String>,
) -> (r: Option<Vec<String>>)
    ensures
        match r {
            Some(dirs) => app_dirs_under(
                text_view(data_root),
                text_view(config_root),
                text_view(cache_root),
            ) == Some(views(dirs@)),
            None => app_dirs_under(
                text_view(data_root),
                text_view(config_root),
                text_view(cache_root),
            ) is None,
        },
{
    match (data_root, config_root, cache_root) {
        (Some(data), Some(config), Some(cache)) => Some(
            app_dirs_in(data.as_str(), config.as_str(), cache.as_str()),
        ),
        _ => None,
    }
}

} // verus!
