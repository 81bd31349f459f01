//! An attached device: a directory whose first-level directories are
//! playlists, and whose own files are the uncategorized audio.

use crate::audio::{
    key_of, parsed_name, AudioError, AudioErrorView, AudioInfo, AudioInfoView, AudioKey, AudioKeyView,
    AudioLocation, AudioLocationView, Playlist, PlaylistName, PlaylistNameView, PlaylistView,
};
use crate::folder::{audio_in, list_audio_in_folder, EntryKind, FolderEntry, FolderEntryView};
use crate::index::KeyTable;
use crate::path::{base_name, file_name, join, joined};
use crate::target::{FileCopy, FileCopyView};
use crate::text::{begins_with, starts_with};
use crate::views::{lemma_views_push, result_view, views};
use vstd::prelude::*;
use vstd::string::StringExecFns;

verus! {

/// An entry of a device's root directory, with what that entry holds where
/// it is a playlist directory (and nothing where it is not).
#[derive(Clone, Debug)]
pub struct DeviceEntry {
    pub entry: FolderEntry,
    pub children: Vec<FolderEntry>,
}

/// An entry of a device's root directory as a value.
pub struct DeviceEntryView {
    pub entry: FolderEntryView,
    pub children: Seq<FolderEntryView>,
}

impl View for DeviceEntry {
    type V = DeviceEntryView;

    open spec fn view(&self) -> DeviceEntryView {
        DeviceEntryView { entry: self.entry@, children: views(self.children@) }
    }
}

/// Whether an entry of the root is a playlist: a directory whose name does
/// not begin with a dot and is not the one that Windows keeps on every
/// volume.
pub open spec fn is_playlist_folder(entry: FolderEntryView) -> bool {
    &&& entry.kind is Directory
    &&& !begins_with(entry.name, seq!['.'])
    &&& entry.name != "System Volume Information"@
}

/// The named playlists of a root directory: one for each playlist
/// directory, in the order of the entries, with the audio files in it.
pub open spec fn named_playlists(entries: Seq<DeviceEntryView>) -> Seq<PlaylistView>
    decreases entries.len(),
{
    if entries.len() == 0 {
        seq![]
    } else {
        let before = named_playlists(entries.drop_last());
        let last = entries.last();
        if is_playlist_folder(last.entry) {
            before.push(
                PlaylistView {
                    name: PlaylistNameView::Named(last.entry.name),
                    audio: audio_in(last.children),
                },
            )
        } else {
            before
        }
    }
}

/// The entries of a root directory themselves, without what they hold.
pub open spec fn root_entries(entries: Seq<DeviceEntryView>) -> Seq<FolderEntryView> {
    Seq::new(entries.len(), |i: int| entries[i].entry)
}

/// The playlists of a device: the named ones, then, where the root itself
/// holds audio files, the uncategorized one with those files.
pub open spec fn device_playlists(entries: Seq<DeviceEntryView>) -> Seq<PlaylistView> {
    let named = named_playlists(entries);
    let loose = audio_in(root_entries(entries));
    if loose.len() > 0 {
        named.push(PlaylistView { name: PlaylistNameView::Uncategorized, audio: loose })
    } else {
        named
    }
}

/// The directory in which a device keeps a playlist: the root itself for
/// the uncategorized audio, the directory of that name under it otherwise.
pub open spec fn playlist_folder(root: Seq<char>, name: PlaylistNameView) -> Seq<char> {
    match name {
        PlaylistNameView::Named(n) => joined(root, n),
        PlaylistNameView::Uncategorized => root,
    }
}

/// `base` with the tracks of a directory added, in order: every track that
/// has a key and a file name stands under that key, at the path of its
/// file in `folder`. A later track takes the place of an earlier one with
/// the same key.
pub open spec fn with_tracks(
    base: Map<AudioKeyView, AudioLocationView>,
    folder: Seq<char>,
    tracks: Seq<AudioInfoView>,
) -> Map<AudioKeyView, AudioLocationView>
    decreases tracks.len(),
{
    if tracks.len() == 0 {
        base
    } else {
        let before = with_tracks(base, folder, tracks.drop_last());
        let track = tracks.last();
        match (key_of(track), track.filename) {
            (Some(key), Some(file)) => before.insert(
                key,
                AudioLocationView::LocalPath(joined(folder, file)),
            ),
            _ => before,
        }
    }
}

/// The index of the playlists of a device rooted at `root`: the tracks of
/// each playlist in turn, in the directory of that playlist.
pub open spec fn playlists_index(root: Seq<char>, lists: Seq<PlaylistView>) -> Map<
    AudioKeyView,
    AudioLocationView,
>
    decreases lists.len(),
{
    if lists.len() == 0 {
        Map::empty()
    } else {
        with_tracks(
            playlists_index(root, lists.drop_last()),
            playlist_folder(root, lists.last().name),
            lists.last().audio,
        )
    }
}

/// What a lookup of `info` in `index` gives: the location under its key,
/// `MissingInfo` where it has no key, `NotFound` where nothing stands
/// under its key.
pub open spec fn found_in(
    index: Map<AudioKeyView, AudioLocationView>,
    info: AudioInfoView,
) -> Result<AudioLocationView, AudioErrorView> {
    match key_of(info) {
        None => Err(AudioErrorView::MissingInfo),
        Some(key) => if index.contains_key(key) {
            Ok(index[key])
        } else {
            Err(AudioErrorView::NotFound)
        },
    }
}

/// Why a remote location cannot be imported.
pub open spec fn remote_source_reason() -> Seq<char> {
    "cannot import from a remote location"@
}

/// Why a path that names no file cannot be imported.
pub open spec fn unnamed_source_reason() -> Seq<char> {
    "the source path names no file"@
}

/// The copy that brings `source` onto the device rooted at `root`: the file
/// keeps its name and goes to the directory of the playlist, or to the root
/// without one. A remote location, and a path that ends without a file
/// name, are refused.
pub open spec fn import_of(
    root: Seq<char>,
    source: AudioLocationView,
    playlist: Option<PlaylistNameView>,
) -> Result<FileCopyView, AudioErrorView> {
    match source {
        AudioLocationView::RemoteUrl(_) => Err(
            AudioErrorView::ExportFailed(remote_source_reason()),
        ),
        AudioLocationView::LocalPath(from) => if base_name(from).len() == 0 {
            Err(AudioErrorView::ExportFailed(unnamed_source_reason()))
        } else {
            let folder = match playlist {
                Some(name) => playlist_folder(root, name),
                None => root,
            };
            Ok(FileCopyView { from, to: joined(folder, base_name(from)) })
        },
    }
}

/// Whether `track` is indexed under `key`: it has that key, and a file
/// name.
pub open spec fn indexed_under(track: AudioInfoView, key: AudioKeyView) -> bool {
    key_of(track) == Some(key) && track.filename is Some
}

/// Where the device rooted at `root` holds the file of `track` of the
/// playlist named `name`: the root, then the playlist's directory if it has
/// one, then the file's name.
pub open spec fn track_place(
    root: Seq<char>,
    name: PlaylistNameView,
    track: AudioInfoView,
) -> AudioLocationView {
    AudioLocationView::LocalPath(joined(playlist_folder(root, name), track.filename->0))
}

/// Adding the tracks of a directory to an index puts the last track with a
/// given key under that key, at its path in the directory, and leaves a key
/// that no track has as it was.
pub proof fn lemma_with_tracks(
    base: Map<AudioKeyView, AudioLocationView>,
    folder: Seq<char>,
    tracks: Seq<AudioInfoView>,
    key: AudioKeyView,
)
    ensures
        (exists|t: int| 0 <= t < tracks.len() && indexed_under(#[trigger] tracks[t], key)) ==> {
            &&& with_tracks(base, folder, tracks).contains_key(key)
            &&& exists|t: int|
                {
                    &&& 0 <= t < tracks.len()
                    &&& indexed_under(#[trigger] tracks[t], key)
                    &&& with_tracks(base, folder, tracks)[key] == AudioLocationView::LocalPath(
                        joined(folder, tracks[t].filename->0),
                    )
                    &&& forall|u: int|
                        t < u < tracks.len() ==> !indexed_under(#[trigger] tracks[u], key)
                }
        },
        !(exists|t: int| 0 <= t < tracks.len() && indexed_under(#[trigger] tracks[t], key)) ==> {
            &&& with_tracks(base, folder, tracks).contains_key(key) == base.contains_key(key)
            &&& base.contains_key(key) ==> with_tracks(base, folder, tracks)[key] == base[key]
        },
    decreases tracks.len(),
{
    if tracks.len() > 0 {
        let rest = tracks.drop_last();
        let last = tracks.last();
        let at = tracks.len() - 1;
        lemma_with_tracks(base, folder, rest, key);
        assert forall|u: int| 0 <= u < rest.len() implies rest[u] == tracks[u] by {}
        if indexed_under(last, key) {
            assert(indexed_under(tracks[at], key));
        } else {
            if exists|t: int| 0 <= t < tracks.len() && indexed_under(#[trigger] tracks[t], key) {
                let t = choose|t: int|
                    0 <= t < tracks.len() && indexed_under(#[trigger] tracks[t], key);
                assert(indexed_under(rest[t], key));
                let w = choose|t: int|
                    {
                        &&& 0 <= t < rest.len()
                        &&& indexed_under(#[trigger] rest[t], key)
                        &&& with_tracks(base, folder, rest)[key] == AudioLocationView::LocalPath(
                            joined(folder, rest[t].filename->0),
                        )
                        &&& forall|u: int|
                            t < u < rest.len() ==> !indexed_under(#[trigger] rest[u], key)
                    };
                assert(indexed_under(tracks[w], key));
                assert forall|u: int| w < u < tracks.len() implies !indexed_under(
                    #[trigger] tracks[u],
                    key,
                ) by {
                    if u < rest.len() {
                        assert(!indexed_under(rest[u], key));
                    }
                }
            } else {
                assert forall|t: int| 0 <= t < rest.len() implies !indexed_under(
                    #[trigger] rest[t],
                    key,
                ) by {
                    assert(!indexed_under(tracks[t], key));
                }
            }
        }
    }
}

/// Whether the track at index `t` of the playlist at index `p` of `lists`
/// is indexed under `key`.
pub open spec fn indexed_at(lists: Seq<PlaylistView>, key: AudioKeyView, p: int, t: int) -> bool {
    &&& 0 <= p < lists.len()
    &&& 0 <= t < lists[p].audio.len()
    &&& indexed_under(lists[p].audio[t], key)
}

/// The index of a device holds a key exactly when a track of one of its
/// playlists is indexed under it, and then holds the place of such a track:
/// the root joined with the playlist's directory, if it has one, joined with
/// the track's file name.
pub proof fn lemma_playlists_index(root: Seq<char>, lists: Seq<PlaylistView>, key: AudioKeyView)
    ensures
        playlists_index(root, lists).contains_key(key) <==> exists|p: int, t: int|
            indexed_at(lists, key, p, t),
        playlists_index(root, lists).contains_key(key) ==> exists|p: int, t: int|
            indexed_at(lists, key, p, t) && playlists_index(root, lists)[key] == track_place(
                root,
                lists[p].name,
                lists[p].audio[t],
            ),
    decreases lists.len(),
{
    if lists.len() > 0 {
        let rest = lists.drop_last();
        let last = lists.last();
        let at = lists.len() - 1;
        let base = playlists_index(root, rest);
        let folder = playlist_folder(root, last.name);
        lemma_playlists_index(root, rest, key);
        lemma_with_tracks(base, folder, last.audio, key);
        assert forall|p: int| 0 <= p < rest.len() implies rest[p] == lists[p] by {}
        if exists|t: int| 0 <= t < last.audio.len() && indexed_under(#[trigger] last.audio[t], key) {
            let t = choose|t: int|
                {
                    &&& 0 <= t < last.audio.len()
                    &&& indexed_under(#[trigger] last.audio[t], key)
                    &&& with_tracks(base, folder, last.audio)[key]
                        == AudioLocationView::LocalPath(joined(folder, last.audio[t].filename->0))
                    &&& forall|u: int|
                        t < u < last.audio.len() ==> !indexed_under(#[trigger] last.audio[u], key)
                };
            assert(indexed_at(lists, key, at, t));
        } else {
            if base.contains_key(key) {
                let (p, t) = choose|p: int, t: int|
                    indexed_at(rest, key, p, t) && base[key] == track_place(
                        root,
                        rest[p].name,
                        rest[p].audio[t],
                    );
                assert(indexed_at(lists, key, p, t));
            }
            if exists|p: int, t: int| indexed_at(lists, key, p, t) {
                let (p, t) = choose|p: int, t: int| indexed_at(lists, key, p, t);
                if p == at {
                    assert(indexed_under(last.audio[t], key));
                } else {
                    assert(indexed_at(rest, key, p, t));
                }
            }
        }
    }
}

/// An import writes where the index looks: the copy that brings a file
/// into a playlist goes to the place at which the device, on its next
/// reading, holds the track that the file's name describes.
pub proof fn lemma_import_place(root: Seq<char>, from: Seq<char>, playlist: PlaylistNameView)
    requires
        base_name(from).len() > 0,
    ensures
        import_of(root, AudioLocationView::LocalPath(from), Some(playlist)) matches Ok(copy)
            && copy.from == from && AudioLocationView::LocalPath(copy.to) == track_place(
            root,
            playlist,
            parsed_name(from),
        ),
{
}

/// Whether an entry of the root is a playlist.
pub fn is_playlist_directory(entry: &FolderEntry) -> (r: bool)
    ensures
        r == is_playlist_folder(entry@),
{
    match entry.kind {
        EntryKind::Directory => {},
        _ => {
            return false;
        },
    }
    proof {
        reveal_strlit(".");
        assert("."@ =~= seq!['.']);
    }
    !starts_with(entry.name.as_str(), ".") && entry.name != String::from_str(
        "System Volume Information",
    )
}

/// The directory in which the device rooted at `root` keeps a playlist.
pub fn folder_of(root: &str, name: &PlaylistName) -> (r: String)
    ensures
        r@ == playlist_folder(root@, name@),
{
    match name {
        PlaylistName::Named(n) => join(root, n.as_str()),
        PlaylistName::Uncategorized => String::from_str(root),
    }
}

/// The named playlists of a root directory.
fn list_named(entries: &Vec<DeviceEntry>) -> (r: Vec<Playlist>)
    ensures
        views(r@) == named_playlists(views(entries@)),
{
    let ghost all = views(entries@);
    let mut lists: Vec<Playlist> = Vec::new();
    let mut i: usize = 0;
    assert(views(lists@) =~= Seq::<PlaylistView>::empty());
    while i < entries.len()
        invariant
            i <= entries.len(),
            all == views(entries@),
            views(lists@) == named_playlists(all.take(i as int)),
        decreases entries.len() - i,
    {
        proof {
            assert(all.take(i + 1).drop_last() == all.take(i as int));
            assert(all.take(i + 1).last() == entries[i as int]@);
        }
        if is_playlist_directory(&entries[i].entry) {
            let audio = list_audio_in_folder(&entries[i].children);
            let list = Playlist {
                name: PlaylistName::Named(entries[i].entry.name.clone()),
                audio,
            };
            proof {
                lemma_views_push(lists@, list);
            }
            lists.push(list);
        }
        i = i + 1;
    }
    assert(all.take(entries.len() as int) == all);
    lists
}

/// The entries of a root directory themselves.
fn list_root(entries: &Vec<DeviceEntry>) -> (r: Vec<FolderEntry>)
    ensures
        views(r@) == root_entries(views(entries@)),
{
    let mut root: Vec<FolderEntry> = Vec::new();
    let mut i: usize = 0;
    while i < entries.len()
        invariant
            i <= entries.len(),
            root.len() == i,
            forall|j: int| 0 <= j < i ==> (#[trigger] root[j])@ == entries[j].entry@,
        decreases entries.len() - i,
    {
        root.push(entries[i].entry.clone());
        i = i + 1;
    }
    assert(views(root@) =~= root_entries(views(entries@)));
    root
}

/// The playlists of a device with the root directory `entries`.
pub fn list_device_playlists(entries: &Vec<DeviceEntry>) -> (r: Vec<Playlist>)
    ensures
        views(r@) == device_playlists(views(entries@)),
{
    let mut lists = list_named(entries);
    let root = list_root(entries);
    let loose = list_audio_in_folder(&root);
    if loose.len() > 0 {
        let list = Playlist { name: PlaylistName::Uncategorized, audio: loose };
        proof {
            lemma_views_push(lists@, list);
        }
        lists.push(list);
    }
    lists
}

/// Adds the tracks of the directory `folder` to `index`.
fn add_tracks(index: &mut KeyTable<AudioLocation>, folder: &str, tracks: &Vec<AudioInfo>)
    ensures
        final(index)@ == with_tracks(old(index)@, folder@, views(tracks@)),
{
    let ghost base = index@;
    let ghost all = views(tracks@);
    let mut i: usize = 0;
    while i < tracks.len()
        invariant
            i <= tracks.len(),
            all == views(tracks@),
            index@ == with_tracks(base, folder@, all.take(i as int)),
        decreases tracks.len() - i,
    {
        proof {
            assert(all.take(i + 1).drop_last() == all.take(i as int));
            assert(all.take(i + 1).last() == tracks[i as int]@);
        }
        match (AudioKey::from_info(&tracks[i]), &tracks[i].filename) {
            (Some(key), Some(file)) => {
                index.insert(key, AudioLocation::LocalPath(join(folder, file.as_str())));
            },
            _ => {},
        }
        i = i + 1;
    }
    assert(all.take(tracks.len() as int) == all);
}

/// The index of the playlists of a device rooted at `root`.
pub fn index_playlists(root: &str, lists: &Vec<Playlist>) -> (r: KeyTable<AudioLocation>)
    ensures
        r@ == playlists_index(root@, views(lists@)),
{
    let ghost all = views(lists@);
    let mut index: KeyTable<AudioLocation> = KeyTable::new();
    let mut i: usize = 0;
    while i < lists.len()
        invariant
            i <= lists.len(),
            all == views(lists@),
            index@ == playlists_index(root@, all.take(i as int)),
        decreases lists.len() - i,
    {
        proof {
            assert(all.take(i + 1).drop_last() == all.take(i as int));
            assert(all.take(i + 1).last() == lists[i as int]@);
        }
        let folder = folder_of(root, &lists[i].name);
        add_tracks(&mut index, folder.as_str(), &lists[i].audio);
        i = i + 1;
    }
    assert(all.take(lists.len() as int) == all);
    index
}

/// A device, as it was found when it was attached: its name, its root
/// directory, what that directory held, and the index of the audio in it.
#[derive(Clone, Debug)]
pub struct AttachedDevice {
    pub name: String,
    pub path: String,
    entries: Vec<DeviceEntry>,
    index: KeyTable<AudioLocation>,
}

impl AttachedDevice {
    /// What the root directory held when the device was attached.
    pub closed spec fn listing(&self) -> Seq<DeviceEntryView> {
        views(self.entries@)
    }

    /// The index: where the device holds each track it knows by key.
    pub closed spec fn index(&self) -> Map<AudioKeyView, AudioLocationView> {
        self.index@
    }

    /// The name of the device.
    pub closed spec fn label(&self) -> Seq<char> {
        self.name@
    }

    /// The path of the device's root directory.
    pub closed spec fn root(&self) -> Seq<char> {
        self.path@
    }

    /// The device named `name` and rooted at `path` whose root directory
    /// holds `entries`. Its index holds every track of its playlists that
    /// has a key.
    pub fn new(name: String, path: String, entries: Vec<DeviceEntry>) -> (r: Self)
        ensures
            r.label() == name@,
            r.root() == path@,
            r.listing() == views(entries@),
            r.index() == playlists_index(path@, device_playlists(views(entries@))),
    {
        let lists = list_device_playlists(&entries);
        let index = index_playlists(path.as_str(), &lists);
        AttachedDevice { name, path, entries, index }
    }

    /// Where the device holds the track that `info` describes.
    pub fn search(&self, info: &AudioInfo) -> (r: Result<&AudioLocation, AudioError>)
        ensures
            result_view(r) == found_in(self.index(), info@),
    {
        match AudioKey::from_info(info) {
            None => Err(AudioError::MissingInfo),
            Some(key) => match self.index.get(&key) {
                Some(location) => Ok(location),
                None => Err(AudioError::NotFound),
            },
        }
    }

    /// The descriptions of the supported audio files among `entries`, the
    /// entries of one directory, in their order.
    pub fn list_audio_in_folder(&self, entries: &Vec<FolderEntry>) -> (r: Result<
        Vec<AudioInfo>,
        AudioError,
    >)
        ensures
            r matches Ok(found) && views(found@) == audio_in(views(entries@)),
    {
        Ok(list_audio_in_folder(entries))
    }
}

impl crate::index::AudioIndex for AttachedDevice {
    fn name(&self) -> (r: &str)
        ensures
            r@ == self.label(),
    {
        self.name.as_str()
    }

    /// The playlists of the device as it was found: they do not change
    /// from one call to the next.
    fn list_playlists(&self) -> (r: Result<Vec<Playlist>, AudioError>)
        ensures
            r matches Ok(lists) && views(lists@) == device_playlists(self.listing()),
    {
        Ok(list_device_playlists(&self.entries))
    }
}

impl crate::target::AudioTarget for AttachedDevice {
    fn name(&self) -> (r: &str)
        ensures
            r@ == self.label(),
    {
        self.name.as_str()
    }

    fn contains(&self, info: &AudioInfo) -> (r: Result<&AudioLocation, AudioError>)
        ensures
            result_view(r) == found_in(self.index(), info@),
    {
        self.search(info)
    }

    /// The copy of the file at `source` to the directory of `playlist`
    /// under the device's root, under the file's own name. The index stays
    /// as it is: the device has to be attached anew to show the file.
    fn import(
        &self,
        source: &AudioLocation,
        info: &AudioInfo,
        playlist: Option<&PlaylistName>,
    ) -> (r: Result<FileCopy, AudioError>)
        ensures
            result_view(r) == import_of(
                self.root(),
                source@,
                match playlist {
                    Some(name) => Some(name@),
                    None => None,
                },
            ),
    {
        match source {
            AudioLocation::RemoteUrl(_) => Err(
                AudioError::ExportFailed(String::from_str("cannot import from a remote location")),
            ),
            AudioLocation::LocalPath(from) => {
                let name = file_name(from.as_str());
                if name.as_str().is_empty() {
                    return Err(
                        AudioError::ExportFailed(String::from_str("the source path names no file")),
                    );
                }
                let folder = match playlist {
                    Some(list) => folder_of(self.path.as_str(), list),
                    None => self.path.clone(),
                };
                Ok(FileCopy { from: from.clone(), to: join(folder.as_str(), name.as_str()) })
            },
        }
    }
}

} // verus!
