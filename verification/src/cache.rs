//! The local cache: one flat directory of audio files, the index of the
//! tracks in it, and the overlay that groups them into named playlists.

use crate::audio::{
    key_of, parsed_name, AudioError, AudioErrorView, AudioInfo, AudioInfoView, AudioKey,
    AudioKeyView, AudioLocation, AudioLocationView, Playlist, PlaylistName, PlaylistNameView,
    PlaylistView,
};
use crate::folder::{
    audio_in, is_sidecar, list_audio_in_folder, sidecar_prefix, EntryKind, FolderEntry,
    FolderEntryView,
};
use crate::index::KeyTable;
use crate::path::{base_name, file_name, join, joined};
use crate::source::{Fetch, FetchView};
use crate::target::{FileCopy, FileCopyView};
use crate::text::begins_with;
use crate::views::{lemma_views_push, result_view, views};
use vstd::prelude::*;
use vstd::string::StringExecFns;

verus! {

/// The overlay as it is held: each playlist's name with its tracks.
pub type Overlay = Vec<(String, Vec<AudioInfo>)>;

/// The overlay as a value: the playlists in the order in which they came,
/// each a name with its tracks in order.
pub type OverlayView = Seq<(Seq<char>, Seq<AudioInfoView>)>;

/// The view of an overlay.
pub open spec fn overlay_view(o: Seq<(String, Vec<AudioInfo>)>) -> OverlayView {
    Seq::new(o.len(), |i: int| (o[i].0@, views(o[i].1@)))
}

/// Whether no playlist of `o` before index `i` has the name `name`.
pub open spec fn unnamed_before(o: OverlayView, name: Seq<char>, i: int) -> bool {
    forall|j: int| 0 <= j < i && j < o.len() ==> (#[trigger] o[j]).0 != name
}

/// Whether the playlist at index `i` of `o` is the first named `name`.
pub open spec fn playlist_at(o: OverlayView, name: Seq<char>, i: int) -> bool {
    &&& 0 <= i < o.len()
    &&& o[i].0 == name
    &&& unnamed_before(o, name, i)
}

/// Whether `o` has a playlist named `name`.
pub open spec fn has_playlist(o: OverlayView, name: Seq<char>) -> bool {
    exists|i: int| playlist_at(o, name, i)
}

/// The index of the playlist named `name` in `o`.
pub open spec fn playlist_index(o: OverlayView, name: Seq<char>) -> int {
    choose|i: int| playlist_at(o, name, i)
}

/// The tracks of the playlist named `name`, where `o` has one.
pub open spec fn tracks_of(o: OverlayView, name: Seq<char>) -> Option<Seq<AudioInfoView>> {
    if has_playlist(o, name) {
        Some(o[playlist_index(o, name)].1)
    } else {
        None
    }
}

/// `o` with `info` as the new last track of the playlist named `name`; a
/// playlist that `o` lacks comes last, with that one track.
pub open spec fn with_track(o: OverlayView, name: Seq<char>, info: AudioInfoView) -> OverlayView {
    if has_playlist(o, name) {
        let i = playlist_index(o, name);
        o.update(i, (name, o[i].1.push(info)))
    } else {
        o.push((name, seq![info]))
    }
}

/// Whether no two playlists of `o` have the same name.
pub open spec fn names_distinct(o: OverlayView) -> bool {
    forall|i: int, j: int| 0 <= i < j < o.len() ==> (#[trigger] o[i]).0 != (#[trigger] o[j]).0
}

/// The names of the playlists of `o`, in order.
pub open spec fn playlist_names(o: OverlayView) -> Seq<Seq<char>> {
    Seq::new(o.len(), |i: int| o[i].0)
}

/// The playlists of `o` as playlists.
pub open spec fn named_lists(o: OverlayView) -> Seq<PlaylistView> {
    Seq::new(
        o.len(),
        |i: int| PlaylistView { name: PlaylistNameView::Named(o[i].0), audio: o[i].1 },
    )
}

/// The playlists of a cache with the overlay `o` whose directory holds
/// `entries`: those of the overlay, then, where the directory holds audio
/// files, the uncategorized one with every such file.
pub open spec fn cache_playlists(o: OverlayView, entries: Seq<FolderEntryView>) -> Seq<
    PlaylistView,
> {
    let loose = audio_in(entries);
    if loose.len() > 0 {
        named_lists(o).push(PlaylistView { name: PlaylistNameView::Uncategorized, audio: loose })
    } else {
        named_lists(o)
    }
}

/// Whether an entry of the cache directory is a cached file: a file that
/// is no side file.
pub open spec fn is_cached_file(entry: FolderEntryView) -> bool {
    entry.kind is File && !begins_with(entry.name, sidecar_prefix())
}

/// The index of the directory `dir` that holds `entries`: every cached
/// file whose name gives a key stands under that key, at its path in `dir`.
/// A later file takes the place of an earlier one with the same key.
pub open spec fn scanned_index(dir: Seq<char>, entries: Seq<FolderEntryView>) -> Map<
    AudioKeyView,
    Seq<char>,
>
    decreases entries.len(),
{
    if entries.len() == 0 {
        Map::empty()
    } else {
        let before = scanned_index(dir, entries.drop_last());
        let entry = entries.last();
        match key_of(parsed_name(entry.name)) {
            Some(key) => if is_cached_file(entry) {
                before.insert(key, joined(dir, entry.name))
            } else {
                before
            },
            None => before,
        }
    }
}

/// What a lookup of `info` in `index` gives: the path under its key,
/// `MissingInfo` where it has no key, `NotFound` where nothing stands
/// under its key.
pub open spec fn path_in(index: Map<AudioKeyView, Seq<char>>, info: AudioInfoView) -> Result<
    Seq<char>,
    AudioErrorView,
> {
    match key_of(info) {
        None => Err(AudioErrorView::MissingInfo),
        Some(key) => if index.contains_key(key) {
            Ok(index[key])
        } else {
            Err(AudioErrorView::NotFound)
        },
    }
}

/// What a lookup of `info` in `index` gives, as a location.
pub open spec fn location_in(
    index: Map<AudioKeyView, Seq<char>>,
    info: AudioInfoView,
) -> Result<AudioLocationView, AudioErrorView> {
    match path_in(index, info) {
        Ok(path) => Ok(AudioLocationView::LocalPath(path)),
        Err(e) => Err(e),
    }
}

/// Each of `tracks` with its location in `index`, or the error of the first
/// of them that is not found there.
pub open spec fn resolved(index: Map<AudioKeyView, Seq<char>>, tracks: Seq<AudioInfoView>) -> Result<
    Seq<(AudioInfoView, AudioLocationView)>,
    AudioErrorView,
>
    decreases tracks.len(),
{
    if tracks.len() == 0 {
        Ok(seq![])
    } else {
        match resolved(index, tracks.drop_last()) {
            Err(e) => Err(e),
            Ok(before) => match location_in(index, tracks.last()) {
                Err(e) => Err(e),
                Ok(location) => Ok(before.push((tracks.last(), location))),
            },
        }
    }
}

/// The tracks of the playlist named `name` with their locations:
/// `NotFound` where `o` has no such playlist, and the error of the first
/// track that `index` does not hold where there is one.
pub open spec fn resolved_playlist(
    o: OverlayView,
    index: Map<AudioKeyView, Seq<char>>,
    name: Seq<char>,
) -> Result<Seq<(AudioInfoView, AudioLocationView)>, AudioErrorView> {
    match tracks_of(o, name) {
        None => Err(AudioErrorView::NotFound),
        Some(tracks) => resolved(index, tracks),
    }
}

/// The view of a list of tracks with their locations.
pub open spec fn located_view(s: Seq<(&AudioInfo, AudioLocation)>) -> Seq<
    (AudioInfoView, AudioLocationView),
> {
    Seq::new(s.len(), |i: int| (s[i].0@, s[i].1@))
}

/// What a fetch of `info` into `dest` asks of a cache in `dir` with
/// `index`: nothing where `dest` is the cache's own directory, else the
/// copy of the cached file into `dest` under its own name. A track that
/// the index does not hold cannot be fetched, and a cached path that names
/// no file counts as not found.
pub open spec fn fetch_of(
    dir: Seq<char>,
    index: Map<AudioKeyView, Seq<char>>,
    info: AudioInfoView,
    dest: Seq<char>,
) -> Result<FetchView, AudioErrorView> {
    match path_in(index, info) {
        Err(e) => Err(e),
        Ok(path) => if dest == dir {
            Ok(FetchView::Ready(AudioLocationView::LocalPath(path)))
        } else if base_name(path).len() == 0 {
            Err(AudioErrorView::NotFound)
        } else {
            Ok(FetchView::Copy(FileCopyView { from: path, to: joined(dest, base_name(path)) }))
        },
    }
}

/// Whether a scan puts `entry` under `key`: it is a cached file whose name
/// gives that key.
pub open spec fn stands_under(entry: FolderEntryView, key: AudioKeyView) -> bool {
    is_cached_file(entry) && key_of(parsed_name(entry.name)) == Some(key)
}

/// The index of a directory holds a key exactly when a cached file in the
/// directory gives that key, and holds under it the path, in the
/// directory, of the last such file.
pub proof fn lemma_scanned_index(dir: Seq<char>, entries: Seq<FolderEntryView>, key: AudioKeyView)
    ensures
        scanned_index(dir, entries).contains_key(key) <==> exists|i: int|
            0 <= i < entries.len() && stands_under(#[trigger] entries[i], key),
        scanned_index(dir, entries).contains_key(key) ==> exists|i: int|
            {
                &&& 0 <= i < entries.len()
                &&& stands_under(#[trigger] entries[i], key)
                &&& scanned_index(dir, entries)[key] == joined(dir, entries[i].name)
                &&& forall|j: int| i < j < entries.len() ==> !stands_under(#[trigger] entries[j], key)
            },
    decreases entries.len(),
{
    if entries.len() > 0 {
        let rest = entries.drop_last();
        let last = entries.last();
        let at = entries.len() - 1;
        lemma_scanned_index(dir, rest, key);
        assert forall|j: int| 0 <= j < rest.len() implies rest[j] == entries[j] by {}
        if stands_under(last, key) {
            assert(stands_under(entries[at], key));
        } else {
            if scanned_index(dir, rest).contains_key(key) {
                let i = choose|i: int|
                    {
                        &&& 0 <= i < rest.len()
                        &&& stands_under(#[trigger] rest[i], key)
                        &&& scanned_index(dir, rest)[key] == joined(dir, rest[i].name)
                        &&& forall|j: int| i < j < rest.len() ==> !stands_under(#[trigger] rest[j], key)
                    };
                assert(stands_under(entries[i], key));
                assert forall|j: int| i < j < entries.len() implies !stands_under(
                    #[trigger] entries[j],
                    key,
                ) by {
                    if j < rest.len() {
                        assert(!stands_under(rest[j], key));
                    }
                }
            }
            if exists|i: int| 0 <= i < entries.len() && stands_under(#[trigger] entries[i], key) {
                let i = choose|i: int|
                    0 <= i < entries.len() && stands_under(#[trigger] entries[i], key);
                assert(stands_under(rest[i], key));
            }
        }
    }
}

/// Whether a directory holds one file for each identity: the cached files
/// that give the same key have the same name.
pub open spec fn one_file_per_key(entries: Seq<FolderEntryView>) -> bool {
    forall|i: int, j: int, key: AudioKeyView|
        0 <= i < entries.len() && 0 <= j < entries.len() && #[trigger] stands_under(
            entries[i],
            key,
        ) && #[trigger] stands_under(entries[j], key) ==> entries[i].name == entries[j].name
}

/// Building the index anew gives the same index, in whatever order the
/// directory is read, as long as it holds one file for each identity.
pub proof fn lemma_scan_ignores_order(
    dir: Seq<char>,
    a: Seq<FolderEntryView>,
    b: Seq<FolderEntryView>,
)
    requires
        a.to_set() == b.to_set(),
        one_file_per_key(a),
    ensures
        scanned_index(dir, a) == scanned_index(dir, b),
{
    let ia = scanned_index(dir, a);
    let ib = scanned_index(dir, b);
    assert forall|key: AudioKeyView| #[trigger]
        ia.dom().contains(key) implies ib.dom().contains(key) by {
        lemma_scanned_index(dir, a, key);
        lemma_scanned_index(dir, b, key);
        let i = choose|i: int| 0 <= i < a.len() && stands_under(#[trigger] a[i], key);
        assert(a.contains(a[i]));
        assert(a.to_set().contains(a[i]));
        assert(b.contains(a[i]));
        let j = choose|j: int| 0 <= j < b.len() && b[j] == a[i];
        assert(stands_under(b[j], key));
    }
    assert forall|key: AudioKeyView| #[trigger]
        ib.dom().contains(key) implies ia.dom().contains(key) && ia[key] == ib[key] by {
        lemma_scanned_index(dir, a, key);
        lemma_scanned_index(dir, b, key);
        let j = choose|j: int|
            {
                &&& 0 <= j < b.len()
                &&& stands_under(#[trigger] b[j], key)
                &&& ib[key] == joined(dir, b[j].name)
                &&& forall|k: int| j < k < b.len() ==> !stands_under(#[trigger] b[k], key)
            };
        assert(b.contains(b[j]));
        assert(b.to_set().contains(b[j]));
        assert(a.contains(b[j]));
        let i = choose|i: int| 0 <= i < a.len() && a[i] == b[j];
        assert(stands_under(a[i], key));
        let w = choose|w: int|
            {
                &&& 0 <= w < a.len()
                &&& stands_under(#[trigger] a[w], key)
                &&& ia[key] == joined(dir, a[w].name)
                &&& forall|k: int| w < k < a.len() ==> !stands_under(#[trigger] a[k], key)
            };
        assert(stands_under(a[w], key) && stands_under(a[i], key));
        assert(a[w].name == a[i].name);
    }
    assert(ia.dom() =~= ib.dom());
    assert(ia =~= ib);
}

/// No two indices are the first with one name.
pub proof fn lemma_playlist_at_unique(o: OverlayView, name: Seq<char>, i: int, j: int)
    requires
        playlist_at(o, name, i),
        playlist_at(o, name, j),
    ensures
        i == j,
{
    if i < j {
        assert(o[i].0 != name);
    }
    if j < i {
        assert(o[j].0 != name);
    }
}

/// A track that was put under its key is found there: the lookup of a
/// description in an index that holds `path` under the description's key
/// gives `path`.
pub proof fn lemma_added_is_found(
    index: Map<AudioKeyView, Seq<char>>,
    info: AudioInfoView,
    path: Seq<char>,
)
    requires
        key_of(info) is Some,
    ensures
        path_in(index.insert(key_of(info)->0, path), info) == Ok::<Seq<char>, AudioErrorView>(path),
        location_in(index.insert(key_of(info)->0, path), info) == Ok::<
            AudioLocationView,
            AudioErrorView,
        >(AudioLocationView::LocalPath(path)),
{
}

/// Adding a track keeps the names of an overlay distinct.
pub proof fn lemma_with_track_distinct(o: OverlayView, name: Seq<char>, info: AudioInfoView)
    requires
        names_distinct(o),
    ensures
        names_distinct(with_track(o, name, info)),
{
    let after = with_track(o, name, info);
    if has_playlist(o, name) {
        let k = playlist_index(o, name);
        assert(playlist_at(o, name, k));
        assert forall|i: int, j: int| 0 <= i < j < after.len() implies (#[trigger] after[i]).0 != (
        #[trigger] after[j]).0 by {
            assert(after[i].0 == o[i].0);
            assert(after[j].0 == o[j].0);
        }
    } else {
        assert forall|i: int, j: int| 0 <= i < j < after.len() implies (#[trigger] after[i]).0 != (
        #[trigger] after[j]).0 by {
            assert(after[i] == o[i]);
            if j < o.len() {
                assert(after[j] == o[j]);
            } else {
                if o[i].0 == name {
                    lemma_first_named(o, name, i);
                }
            }
        }
    }
}

/// Where some playlist has the name, one is the first with it.
proof fn lemma_first_named(o: OverlayView, name: Seq<char>, i: int)
    requires
        0 <= i < o.len(),
        o[i].0 == name,
    ensures
        has_playlist(o, name),
    decreases i,
{
    if unnamed_before(o, name, i) {
        assert(playlist_at(o, name, i));
    } else {
        let j = choose|j: int| 0 <= j < i && j < o.len() && (#[trigger] o[j]).0 == name;
        lemma_first_named(o, name, j);
    }
}

/// Where the tracks up to one of them already fail to resolve, all of them
/// fail in the same way.
proof fn lemma_resolved_stops(
    index: Map<AudioKeyView, Seq<char>>,
    tracks: Seq<AudioInfoView>,
    k: int,
)
    requires
        0 <= k <= tracks.len(),
        resolved(index, tracks.take(k)) is Err,
    ensures
        resolved(index, tracks) == resolved(index, tracks.take(k)),
    decreases tracks.len(),
{
    if k == tracks.len() {
        assert(tracks.take(k) == tracks);
    } else {
        assert(tracks.drop_last().take(k) == tracks.take(k));
        lemma_resolved_stops(index, tracks.drop_last(), k);
    }
}

/// `o` with `tracks` as the playlist named `name`, in place of the one it
/// had under that name or, where it had none, as its last playlist.
pub open spec fn with_playlist(
    o: OverlayView,
    name: Seq<char>,
    tracks: Seq<AudioInfoView>,
) -> OverlayView {
    if has_playlist(o, name) {
        o.update(playlist_index(o, name), (name, tracks))
    } else {
        o.push((name, tracks))
    }
}

/// The overlay that a list of playlists makes up: each name once, at the
/// place where it first came, with the tracks that came last under it.
pub open spec fn loaded(lists: OverlayView) -> OverlayView
    decreases lists.len(),
{
    if lists.len() == 0 {
        seq![]
    } else {
        with_playlist(loaded(lists.drop_last()), lists.last().0, lists.last().1)
    }
}

/// The index of the first playlist with a name is the index of the
/// playlist of that name.
pub proof fn lemma_first_is_index(o: OverlayView, name: Seq<char>, i: int)
    requires
        playlist_at(o, name, i),
    ensures
        has_playlist(o, name),
        playlist_index(o, name) == i,
{
    lemma_playlist_at_unique(o, name, i, playlist_index(o, name));
}

/// An overlay in which no playlist has a name has no playlist of that
/// name.
pub proof fn lemma_unnamed_has_none(o: OverlayView, name: Seq<char>)
    requires
        unnamed_before(o, name, o.len() as int),
    ensures
        !has_playlist(o, name),
{
    if has_playlist(o, name) {
        let i = playlist_index(o, name);
        assert(playlist_at(o, name, i));
        assert(o[i].0 != name);
    }
}

/// Putting a playlist under a name keeps the names of an overlay
/// distinct; under a name that the overlay lacks, the playlist comes last.
pub proof fn lemma_with_playlist(o: OverlayView, name: Seq<char>, tracks: Seq<AudioInfoView>)
    requires
        names_distinct(o),
    ensures
        names_distinct(with_playlist(o, name, tracks)),
        !has_playlist(o, name) ==> with_playlist(o, name, tracks) == o.push((name, tracks)),
{
    let after = with_playlist(o, name, tracks);
    if has_playlist(o, name) {
        let k = playlist_index(o, name);
        assert(playlist_at(o, name, k));
        assert forall|i: int, j: int| 0 <= i < j < after.len() implies (#[trigger] after[i]).0 != (
        #[trigger] after[j]).0 by {
            assert(after[i].0 == o[i].0);
            assert(after[j].0 == o[j].0);
        }
    } else {
        assert forall|i: int, j: int| 0 <= i < j < after.len() implies (#[trigger] after[i]).0 != (
        #[trigger] after[j]).0 by {
            assert(after[i] == o[i]);
            if j < o.len() {
                assert(after[j] == o[j]);
            } else {
                if o[i].0 == name {
                    lemma_first_named(o, name, i);
                }
            }
        }
    }
}

/// The overlay that a list of playlists makes up has no name twice, and
/// is the list itself where that has no name twice.
pub proof fn lemma_loaded(lists: OverlayView)
    ensures
        names_distinct(loaded(lists)),
        names_distinct(lists) ==> loaded(lists) == lists,
    decreases lists.len(),
{
    if lists.len() > 0 {
        let rest = lists.drop_last();
        let last = lists.last();
        lemma_loaded(rest);
        lemma_with_playlist(loaded(rest), last.0, last.1);
        if names_distinct(lists) {
            assert forall|i: int, j: int| 0 <= i < j < rest.len() implies (#[trigger] rest[i]).0 != (
            #[trigger] rest[j]).0 by {
                assert(rest[i] == lists[i]);
                assert(rest[j] == lists[j]);
            }
            assert forall|i: int| 0 <= i < rest.len() implies (#[trigger] rest[i]).0 != last.0 by {
                assert(rest[i] == lists[i]);
                assert(lists[i].0 != lists[lists.len() - 1].0);
            }
            lemma_unnamed_has_none(rest, last.0);
            assert(rest.push(last) == lists);
        }
    }
}

/// The index of the first playlist named `name` in `overlay`.
fn position_in(overlay: &Overlay, name: &str) -> (r: Option<usize>)
    ensures
        match r {
            Some(i) => playlist_at(overlay_view(overlay@), name@, i as int),
            None => unnamed_before(overlay_view(overlay@), name@, overlay@.len() as int),
        },
{
    let wanted = String::from_str(name);
    let mut i: usize = 0;
    while i < overlay.len()
        invariant
            i <= overlay.len(),
            wanted@ == name@,
            unnamed_before(overlay_view(overlay@), name@, i as int),
        decreases overlay.len() - i,
    {
        if overlay[i].0 == wanted {
            return Some(i);
        }
        i = i + 1;
    }
    None
}

/// The overlay that `lists` make up.
pub fn load(lists: &Overlay) -> (r: Overlay)
    ensures
        overlay_view(r@) == loaded(overlay_view(lists@)),
        names_distinct(overlay_view(r@)),
{
    let ghost all = overlay_view(lists@);
    let mut held: Overlay = Vec::new();
    let mut i: usize = 0;
    assert(overlay_view(held@) =~= loaded(all.take(0)));
    while i < lists.len()
        invariant
            i <= lists.len(),
            all == overlay_view(lists@),
            overlay_view(held@) == loaded(all.take(i as int)),
        decreases lists.len() - i,
    {
        proof {
            assert(all.take(i + 1).drop_last() == all.take(i as int));
            assert(all.take(i + 1).last() == (lists[i as int].0@, views(lists[i as int].1@)));
        }
        let name = lists[i].0.clone();
        let tracks = clone_tracks(&lists[i].1);
        let ghost before = overlay_view(held@);
        match position_in(&held, name.as_str()) {
            Some(k) => {
                proof {
                    lemma_first_is_index(before, name@, k as int);
                }
                held.set(k, (name, tracks));
                assert(overlay_view(held@) =~= with_playlist(before, name@, views(tracks@)));
            },
            None => {
                proof {
                    lemma_unnamed_has_none(before, name@);
                }
                held.push((name, tracks));
                assert(overlay_view(held@) =~= with_playlist(before, name@, views(tracks@)));
            },
        }
        i = i + 1;
    }
    proof {
        assert(all.take(lists.len() as int) == all);
        lemma_loaded(all);
    }
    held
}

/// A copy of a list of tracks.
pub fn clone_tracks(tracks: &Vec<AudioInfo>) -> (r: Vec<AudioInfo>)
    ensures
        views(r@) == views(tracks@),
{
    let mut copy: Vec<AudioInfo> = Vec::new();
    let mut i: usize = 0;
    while i < tracks.len()
        invariant
            i <= tracks.len(),
            copy.len() == i,
            forall|j: int| 0 <= j < i ==> (#[trigger] copy[j])@ == tracks[j]@,
        decreases tracks.len() - i,
    {
        copy.push(tracks[i].clone());
        i = i + 1;
    }
    assert(views(copy@) =~= views(tracks@));
    copy
}

/// Whether `entry` is a cached file.
pub fn is_cache_file(entry: &FolderEntry) -> (r: bool)
    ensures
        r == is_cached_file(entry@),
{
    match entry.kind {
        EntryKind::File => !is_sidecar(entry.name.as_str()),
        _ => false,
    }
}

/// The index of the directory `dir` that holds `entries`.
pub fn scan(dir: &str, entries: &Vec<FolderEntry>) -> (r: KeyTable<String>)
    ensures
        r@ == scanned_index(dir@, views(entries@)),
{
    let ghost all = views(entries@);
    let mut index: KeyTable<String> = KeyTable::new();
    let mut i: usize = 0;
    while i < entries.len()
        invariant
            i <= entries.len(),
            all == views(entries@),
            index@ == scanned_index(dir@, all.take(i as int)),
        decreases entries.len() - i,
    {
        proof {
            assert(all.take(i + 1).drop_last() == all.take(i as int));
            assert(all.take(i + 1).last() == entries[i as int]@);
        }
        if is_cache_file(&entries[i]) {
            let info = AudioInfo::from_filename(entries[i].name.as_str());
            match AudioKey::from_info(&info) {
                Some(key) => {
                    index.insert(key, join(dir, entries[i].name.as_str()));
                },
                None => {},
            }
        }
        i = i + 1;
    }
    assert(all.take(entries.len() as int) == all);
    index
}

/// The local cache.
#[derive(Clone, Debug)]
pub struct LocalCache {
    /// The flat directory that holds every cached file.
    audio_dir: String,
    /// Where each track that the cache knows by key lies.
    index: KeyTable<String>,
    /// The playlists that group the cached tracks.
    playlists: Overlay,
    /// The file in which the overlay is kept.
    playlists_path: String,
    /// What the directory held when it was last read.
    entries: Vec<FolderEntry>,
}

impl LocalCache {
    /// The path of the cache's directory.
    pub closed spec fn folder(&self) -> Seq<char> {
        self.audio_dir@
    }

    /// The path of the file in which the overlay is kept.
    pub closed spec fn overlay_file(&self) -> Seq<char> {
        self.playlists_path@
    }

    /// The index: the path of each track that the cache knows by key.
    pub closed spec fn index(&self) -> Map<AudioKeyView, Seq<char>> {
        self.index@
    }

    /// The overlay: the named playlists.
    pub closed spec fn overlay(&self) -> OverlayView {
        overlay_view(self.playlists@)
    }

    /// What the cache's directory held when it was last read.
    pub closed spec fn listing(&self) -> Seq<FolderEntryView> {
        views(self.entries@)
    }

    /// Whether the overlay is a mapping: no two of its playlists have the
    /// same name. Every cache that `new` makes is so, and every method
    /// keeps it so.
    pub open spec fn wf(&self) -> bool {
        names_distinct(self.overlay())
    }

    /// The cache in the directory `audio_dir`, which holds `entries`, with
    /// the overlay that `playlists`, as they were read from
    /// `playlists_path`, make up. The index is that of the directory.
    pub fn new(
        audio_dir: String,
        playlists_path: String,
        playlists: Overlay,
        entries: Vec<FolderEntry>,
    ) -> (r: Self)
        ensures
            r.folder() == audio_dir@,
            r.overlay_file() == playlists_path@,
            r.overlay() == loaded(overlay_view(playlists@)),
            r.wf(),
            r.listing() == views(entries@),
            r.index() == scanned_index(audio_dir@, views(entries@)),
    {
        let index = scan(audio_dir.as_str(), &entries);
        let playlists = load(&playlists);
        LocalCache { audio_dir, index, playlists, playlists_path, entries }
    }

    /// The path of the cache's directory.
    pub fn audio_dir(&self) -> (r: &str)
        ensures
            r@ == self.folder(),
    {
        self.audio_dir.as_str()
    }

    /// The path of the file in which the overlay is kept.
    pub fn playlists_path(&self) -> (r: &str)
        ensures
            r@ == self.overlay_file(),
    {
        self.playlists_path.as_str()
    }

    /// The overlay, as it is to be written out.
    pub fn playlists(&self) -> (r: &Overlay)
        ensures
            overlay_view(r@) == self.overlay(),
    {
        &self.playlists
    }

    /// Takes `entries` as what the directory holds now, and builds the
    /// index anew from them: what it held before is forgotten.
    pub fn rebuild_index(&mut self, entries: Vec<FolderEntry>)
        ensures
            final(self).index() == scanned_index(old(self).folder(), views(entries@)),
            final(self).listing() == views(entries@),
            final(self).folder() == old(self).folder(),
            final(self).overlay_file() == old(self).overlay_file(),
            final(self).overlay() == old(self).overlay(),
            old(self).wf() ==> final(self).wf(),
    {
        self.index = scan(self.audio_dir.as_str(), &entries);
        self.entries = entries;
    }

    /// The tracks of the playlist named `name`, where there is one.
    pub fn get_playlist(&self, name: &str) -> (r: Option<&Vec<AudioInfo>>)
        ensures
            match r {
                Some(tracks) => tracks_of(self.overlay(), name@) == Some(views(tracks@)),
                None => tracks_of(self.overlay(), name@) is None,
            },
    {
        match position_in(&self.playlists, name) {
            Some(i) => {
                proof {
                    lemma_first_is_index(self.overlay(), name@, i as int);
                }
                Some(&self.playlists[i].1)
            },
            None => {
                proof {
                    lemma_unnamed_has_none(self.overlay(), name@);
                }
                None
            },
        }
    }

    /// The names of the playlists of the overlay, in order.
    pub fn list_playlist_names(&self) -> (r: Vec<String>)
        ensures
            views(r@) == playlist_names(self.overlay()),
    {
        let mut names: Vec<String> = Vec::new();
        let mut i: usize = 0;
        while i < self.playlists.len()
            invariant
                i <= self.playlists.len(),
                names.len() == i,
                forall|j: int| 0 <= j < i ==> (#[trigger] names[j])@ == self.playlists[j].0@,
            decreases self.playlists.len() - i,
        {
            names.push(self.playlists[i].0.clone());
            i = i + 1;
        }
        assert(views(names@) =~= playlist_names(self.overlay()));
        names
    }

    /// The path of the cached file of the track that `info` describes.
    pub fn search_path(&self, info: &AudioInfo) -> (r: Result<&String, AudioError>)
        ensures
            result_view(r) == path_in(self.index(), info@),
    {
        match AudioKey::from_info(info) {
            None => Err(AudioError::MissingInfo),
            Some(key) => match self.index.get(&key) {
                Some(path) => Ok(path),
                None => Err(AudioError::NotFound),
            },
        }
    }

    /// Where the cache holds the track that `info` describes.
    pub fn search(&self, info: &AudioInfo) -> (r: Result<AudioLocation, AudioError>)
        ensures
            result_view(r) == location_in(self.index(), info@),
    {
        match self.search_path(info) {
            Ok(path) => Ok(AudioLocation::LocalPath(path.clone())),
            Err(e) => Err(e),
        }
    }

    /// The description `info` itself, where the cache holds its track: the
    /// cache has nothing to add to it.
    pub fn search_info(&self, info: &AudioInfo) -> (r: Result<AudioInfo, AudioError>)
        ensures
            match r {
                Ok(same) => path_in(self.index(), info@) is Ok && same@ == info@,
                Err(e) => path_in(self.index(), info@) == Err::<Seq<char>, AudioErrorView>(e@),
            },
    {
        match self.search_path(info) {
            Ok(_) => Ok(info.clone()),
            Err(e) => Err(e),
        }
    }

    /// The tracks of the playlist named `name`, each with the place where
    /// the cache holds it. Fails as a whole where one of them is not held.
    pub fn search_playlist(&self, playlist_name: &str) -> (r: Result<
        Vec<(&AudioInfo, AudioLocation)>,
        AudioError,
    >)
        ensures
            match r {
                Ok(found) => resolved_playlist(self.overlay(), self.index(), playlist_name@) == Ok::<
                    Seq<(AudioInfoView, AudioLocationView)>,
                    AudioErrorView,
                >(located_view(found@)),
                Err(e) => resolved_playlist(self.overlay(), self.index(), playlist_name@) == Err::<
                    Seq<(AudioInfoView, AudioLocationView)>,
                    AudioErrorView,
                >(e@),
            },
    {
        let tracks = match self.get_playlist(playlist_name) {
            Some(tracks) => tracks,
            None => {
                return Err(AudioError::NotFound);
            },
        };
        let ghost all = views(tracks@);
        let mut found: Vec<(&AudioInfo, AudioLocation)> = Vec::new();
        let mut i: usize = 0;
        assert(located_view(found@) =~= Seq::<(AudioInfoView, AudioLocationView)>::empty());
        while i < tracks.len()
            invariant
                i <= tracks.len(),
                all == views(tracks@),
                tracks_of(self.overlay(), playlist_name@) == Some(all),
                resolved(self.index(), all.take(i as int)) == Ok::<
                    Seq<(AudioInfoView, AudioLocationView)>,
                    AudioErrorView,
                >(located_view(found@)),
            decreases tracks.len() - i,
        {
            proof {
                assert(all.take(i + 1).drop_last() == all.take(i as int));
                assert(all.take(i + 1).last() == tracks[i as int]@);
            }
            match self.search(&tracks[i]) {
                Ok(location) => {
                    proof {
                        assert(located_view(found@.push((&tracks[i as int], location)))
                            =~= located_view(found@).push((tracks[i as int]@, location@)));
                    }
                    found.push((&tracks[i], location));
                },
                Err(e) => {
                    proof {
                        assert(location_in(self.index(), all.take(i + 1).last()) is Err);
                        assert(resolved(self.index(), all.take(i + 1)) is Err);
                        lemma_resolved_stops(self.index(), all, i + 1);
                    }
                    return Err(e);
                },
            }
            i = i + 1;
        }
        assert(all.take(tracks.len() as int) == all);
        Ok(found)
    }

    /// Adds `audio` as the last track of the playlist named
    /// `playlist_name`, which is made where it is missing. The overlay has
    /// to be written out afterwards.
    pub fn add_to_playlist(&mut self, playlist_name: &str, audio: AudioInfo)
        ensures
            final(self).overlay() == with_track(old(self).overlay(), playlist_name@, audio@),
            old(self).wf() ==> final(self).wf(),
            final(self).index() == old(self).index(),
            final(self).listing() == old(self).listing(),
            final(self).folder() == old(self).folder(),
            final(self).overlay_file() == old(self).overlay_file(),
    {
        proof {
            if names_distinct(self.overlay()) {
                lemma_with_track_distinct(self.overlay(), playlist_name@, audio@);
            }
        }
        match position_in(&self.playlists, playlist_name) {
            Some(i) => {
                proof {
                    lemma_first_is_index(self.overlay(), playlist_name@, i as int);
                    lemma_views_push(self.playlists[i as int].1@, audio);
                }
                self.playlists[i].1.push(audio);
                assert(self.overlay() =~= with_track(
                    old(self).overlay(),
                    playlist_name@,
                    audio@,
                ));
            },
            None => {
                proof {
                    lemma_unnamed_has_none(self.overlay(), playlist_name@);
                }
                let mut tracks: Vec<AudioInfo> = Vec::new();
                tracks.push(audio);
                assert(views(tracks@) =~= seq![audio@]);
                self.playlists.push((String::from_str(playlist_name), tracks));
                assert(self.overlay() =~= with_track(
                    old(self).overlay(),
                    playlist_name@,
                    audio@,
                ));
            },
        }
    }

    /// Takes note of audio that was fetched: a local file is indexed under
    /// the key of `info`, in place of what stood there, and with a
    /// playlist the track becomes the last of it. Returns whether the
    /// overlay has changed and is to be written out.
    pub fn add_to_cache(
        &mut self,
        info: &AudioInfo,
        location: &AudioLocation,
        playlist: Option<&str>,
    ) -> (persist: bool)
        ensures
            final(self).index() == match (location@, key_of(info@)) {
                (AudioLocationView::LocalPath(path), Some(key)) => old(self).index().insert(
                    key,
                    path,
                ),
                _ => old(self).index(),
            },
            final(self).overlay() == match playlist {
                Some(name) => with_track(old(self).overlay(), name@, info@),
                None => old(self).overlay(),
            },
            persist == playlist is Some,
            old(self).wf() ==> final(self).wf(),
            final(self).listing() == old(self).listing(),
            final(self).folder() == old(self).folder(),
            final(self).overlay_file() == old(self).overlay_file(),
    {
        match location {
            AudioLocation::LocalPath(path) => match AudioKey::from_info(info) {
                Some(key) => {
                    self.index.insert(key, path.clone());
                },
                None => {},
            },
            AudioLocation::RemoteUrl(_) => {},
        }
        match playlist {
            Some(name) => {
                self.add_to_playlist(name, info.clone());
                true
            },
            None => false,
        }
    }

    /// The playlists of the cache, were its directory to hold `entries`.
    pub fn list_playlists_in(&self, entries: &Vec<FolderEntry>) -> (r: Vec<Playlist>)
        ensures
            views(r@) == cache_playlists(self.overlay(), views(entries@)),
    {
        let mut lists: Vec<Playlist> = Vec::new();
        let mut i: usize = 0;
        while i < self.playlists.len()
            invariant
                i <= self.playlists.len(),
                lists.len() == i,
                forall|j: int|
                    0 <= j < i ==> (#[trigger] lists[j])@ == named_lists(self.overlay())[j],
            decreases self.playlists.len() - i,
        {
            lists.push(
                Playlist {
                    name: PlaylistName::Named(self.playlists[i].0.clone()),
                    audio: clone_tracks(&self.playlists[i].1),
                },
            );
            i = i + 1;
        }
        assert(views(lists@) =~= named_lists(self.overlay()));
        let loose = list_audio_in_folder(entries);
        if loose.len() > 0 {
            let list = Playlist { name: PlaylistName::Uncategorized, audio: loose };
            proof {
                lemma_views_push(lists@, list);
            }
            lists.push(list);
        }
        lists
    }
}

impl crate::index::AudioIndex for LocalCache {
    fn name(&self) -> (r: &str)
        ensures
            r@ == "Local Cache"@,
    {
        "Local Cache"
    }

    /// The playlists of the cache, with its directory as it was last read.
    fn list_playlists(&self) -> (r: Result<Vec<Playlist>, AudioError>)
        ensures
            r matches Ok(lists) && views(lists@) == cache_playlists(
                self.overlay(),
                self.listing(),
            ),
    {
        Ok(self.list_playlists_in(&self.entries))
    }
}

impl crate::source::AudioSource for LocalCache {
    fn name(&self) -> (r: &str)
        ensures
            r@ == "Local Cache"@,
    {
        "Local Cache"
    }

    /// The description itself, where the cache holds its track: what
    /// `search_info` gives.
    fn search(&self, info: &AudioInfo) -> Result<AudioInfo, AudioError>
        returns
            confirmed(self.index(), *info),
    {
        match self.search_path(info) {
            Ok(_) => Ok(info.clone()),
            Err(e) => Err(e),
        }
    }

    /// The cache serves only what it holds: the cached file itself where
    /// `dest` is the cache's directory, else its copy into `dest`.
    fn fetch(&self, info: &AudioInfo, dest: String) -> (r: Result<Fetch, AudioError>)
        ensures
            result_view(r) == fetch_of(self.folder(), self.index(), info@, dest@),
    {
        let path = match self.search_path(info) {
            Ok(path) => path,
            Err(e) => {
                return Err(e);
            },
        };
        if dest == self.audio_dir {
            Ok(Fetch::Ready(AudioLocation::LocalPath(path.clone())))
        } else {
            let name = file_name(path.as_str());
            if name.as_str().is_empty() {
                return Err(AudioError::NotFound);
            }
            Ok(Fetch::Copy(FileCopy { from: path.clone(), to: join(dest.as_str(), name.as_str()) }))
        }
    }
}

/// What a cache with `index` answers when it is asked, as a source, for the
/// track that `info` describes: `info` itself, unchanged, where the index
/// holds its key; `MissingInfo` where it has no key; `NotFound` where the
/// index holds nothing under its key.
pub open spec fn confirmed(index: Map<AudioKeyView, Seq<char>>, info: AudioInfo) -> Result<
    AudioInfo,
    AudioError,
> {
    match key_of(info@) {
        None => Err(AudioError::MissingInfo),
        Some(key) => if index.contains_key(key) {
            Ok(info)
        } else {
            Err(AudioError::NotFound)
        },
    }
}

} // verus!
