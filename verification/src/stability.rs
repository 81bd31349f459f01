//! What the playlists of a device hold, whatever the order in which its
//! directories were read: a file system hands out the entries of a
//! directory in no fixed order, and the playlists and their tracks must
//! not depend on it.

use crate::audio::{parsed_name, AudioInfoView, PlaylistNameView, PlaylistView};
use crate::device::{
    device_playlists, is_playlist_folder, named_playlists, root_entries, DeviceEntryView,
};
use crate::folder::{audio_in, is_supported_audio, FolderEntryView};
use vstd::prelude::*;

verus! {

/// Whether `entry` is an audio file whose name describes `track`.
pub open spec fn yields(entry: FolderEntryView, track: AudioInfoView) -> bool {
    is_supported_audio(entry) && parsed_name(entry.name) == track
}

/// Whether one of `entries` is an audio file whose name describes `track`.
pub open spec fn some_yields(entries: Seq<FolderEntryView>, track: AudioInfoView) -> bool {
    exists|i: int| 0 <= i < entries.len() && yields(#[trigger] entries[i], track)
}

/// Whether a root directory that holds `entries` gives a playlist named
/// `name`: a playlist directory of that name, or, for the uncategorized
/// audio, an audio file in the root itself.
pub open spec fn gives_playlist(entries: Seq<DeviceEntryView>, name: PlaylistNameView) -> bool {
    match name {
        PlaylistNameView::Named(n) => exists|i: int|
            0 <= i < entries.len() && is_playlist_folder((#[trigger] entries[i]).entry)
                && entries[i].entry.name == n,
        PlaylistNameView::Uncategorized => exists|i: int|
            0 <= i < entries.len() && is_supported_audio((#[trigger] entries[i]).entry),
    }
}

/// Whether a root directory that holds `entries` gives `track` in a
/// playlist named `name`: an audio file that describes it, in a playlist
/// directory of that name or, for the uncategorized audio, in the root
/// itself.
pub open spec fn gives_track(
    entries: Seq<DeviceEntryView>,
    name: PlaylistNameView,
    track: AudioInfoView,
) -> bool {
    match name {
        PlaylistNameView::Named(n) => exists|i: int|
            0 <= i < entries.len() && is_playlist_folder((#[trigger] entries[i]).entry)
                && entries[i].entry.name == n && some_yields(entries[i].children, track),
        PlaylistNameView::Uncategorized => exists|i: int|
            0 <= i < entries.len() && yields((#[trigger] entries[i]).entry, track),
    }
}

/// Whether `lists` has a playlist named `name`.
pub open spec fn lists_playlist(lists: Seq<PlaylistView>, name: PlaylistNameView) -> bool {
    exists|p: int| 0 <= p < lists.len() && (#[trigger] lists[p]).name == name
}

/// Whether `lists` has `track` in a playlist named `name`.
pub open spec fn lists_track(
    lists: Seq<PlaylistView>,
    name: PlaylistNameView,
    track: AudioInfoView,
) -> bool {
    exists|p: int|
        0 <= p < lists.len() && (#[trigger] lists[p]).name == name && lists[p].audio.contains(
            track,
        )
}

/// Whether `entry` is among `entries`, with the same files in it.
pub open spec fn is_held_in(entry: DeviceEntryView, entries: Seq<DeviceEntryView>) -> bool {
    exists|j: int|
        0 <= j < entries.len() && (#[trigger] entries[j]).entry == entry.entry
            && entries[j].children.to_set() == entry.children.to_set()
}

/// Whether two root directories hold the same: each entry of one is an
/// entry of the other, with the same files in it.
pub open spec fn same_content(a: Seq<DeviceEntryView>, b: Seq<DeviceEntryView>) -> bool {
    &&& forall|i: int| 0 <= i < a.len() ==> is_held_in(#[trigger] a[i], b)
    &&& forall|j: int| 0 <= j < b.len() ==> is_held_in(#[trigger] b[j], a)
}

/// The audio of a directory holds a track exactly when one of the entries
/// is an audio file whose name describes it.
pub proof fn lemma_audio_in(entries: Seq<FolderEntryView>, track: AudioInfoView)
    ensures
        audio_in(entries).contains(track) <==> some_yields(entries, track),
    decreases entries.len(),
{
    if entries.len() > 0 {
        let rest = entries.drop_last();
        let before = audio_in(rest);
        let all = audio_in(entries);
        lemma_audio_in(rest, track);
        assert forall|i: int| 0 <= i < rest.len() implies rest[i] == entries[i] by {}
        if all.contains(track) {
            let k = choose|k: int| 0 <= k < all.len() && all[k] == track;
            if k < before.len() {
                assert(before[k] == track);
                let i = choose|i: int| 0 <= i < rest.len() && yields(#[trigger] rest[i], track);
                assert(yields(entries[i], track));
            } else {
                assert(yields(entries[entries.len() - 1], track));
            }
        }
        if some_yields(entries, track) {
            let i = choose|i: int| 0 <= i < entries.len() && yields(#[trigger] entries[i], track);
            if i < rest.len() {
                assert(yields(rest[i], track));
                let k = choose|k: int| 0 <= k < before.len() && before[k] == track;
                assert(all[k] == track);
            } else {
                assert(all[all.len() - 1] == track);
            }
        }
    }
}

/// A directory has audio exactly when one of its entries is an audio
/// file.
pub proof fn lemma_audio_in_is_empty(entries: Seq<FolderEntryView>)
    ensures
        audio_in(entries).len() > 0 <==> exists|i: int|
            0 <= i < entries.len() && is_supported_audio(#[trigger] entries[i]),
{
    if audio_in(entries).len() > 0 {
        let track = audio_in(entries)[0];
        assert(audio_in(entries).contains(track));
        lemma_audio_in(entries, track);
        let i = choose|i: int| 0 <= i < entries.len() && yields(#[trigger] entries[i], track);
        assert(is_supported_audio(entries[i]));
    }
    if exists|i: int| 0 <= i < entries.len() && is_supported_audio(#[trigger] entries[i]) {
        let i = choose|i: int| 0 <= i < entries.len() && is_supported_audio(#[trigger] entries[i]);
        let track = parsed_name(entries[i].name);
        assert(yields(entries[i], track));
        lemma_audio_in(entries, track);
    }
}

/// The named playlists of a root directory are those of its playlist
/// directories: each playlist is named, and a playlist is among them
/// exactly when it has the name and the audio of a playlist directory.
proof fn lemma_named_playlists(entries: Seq<DeviceEntryView>, list: PlaylistView)
    ensures
        forall|p: int|
            0 <= p < named_playlists(entries).len() ==> (#[trigger] named_playlists(
                entries,
            )[p]).name is Named,
        named_playlists(entries).contains(list) <==> exists|i: int|
            0 <= i < entries.len() && is_playlist_folder((#[trigger] entries[i]).entry) && list
                == (PlaylistView {
                name: PlaylistNameView::Named(entries[i].entry.name),
                audio: audio_in(entries[i].children),
            }),
    decreases entries.len(),
{
    if entries.len() > 0 {
        let rest = entries.drop_last();
        let before = named_playlists(rest);
        let all = named_playlists(entries);
        lemma_named_playlists(rest, list);
        assert forall|i: int| 0 <= i < rest.len() implies rest[i] == entries[i] by {}
        assert forall|p: int| 0 <= p < all.len() implies (#[trigger] all[p]).name is Named by {
            if p < before.len() {
                assert(all[p] == before[p]);
            }
        }
        if all.contains(list) {
            let k = choose|k: int| 0 <= k < all.len() && all[k] == list;
            if k < before.len() {
                assert(before[k] == list);
                let i = choose|i: int|
                    0 <= i < rest.len() && is_playlist_folder((#[trigger] rest[i]).entry) && list
                        == (PlaylistView {
                        name: PlaylistNameView::Named(rest[i].entry.name),
                        audio: audio_in(rest[i].children),
                    });
                assert(is_playlist_folder(entries[i].entry));
            } else {
                assert(is_playlist_folder(entries[entries.len() - 1].entry));
            }
        }
        if exists|i: int|
            0 <= i < entries.len() && is_playlist_folder((#[trigger] entries[i]).entry) && list
                == (PlaylistView {
                name: PlaylistNameView::Named(entries[i].entry.name),
                audio: audio_in(entries[i].children),
            }) {
            let i = choose|i: int|
                0 <= i < entries.len() && is_playlist_folder((#[trigger] entries[i]).entry) && list
                    == (PlaylistView {
                    name: PlaylistNameView::Named(entries[i].entry.name),
                    audio: audio_in(entries[i].children),
                });
            if i < rest.len() {
                assert(is_playlist_folder(rest[i].entry));
                let k = choose|k: int| 0 <= k < before.len() && before[k] == list;
                assert(all[k] == list);
            } else {
                assert(all[all.len() - 1] == list);
            }
        }
    }
}

/// The playlists of a device are those that its root directory gives, and
/// each holds the tracks that the root directory gives in it.
pub proof fn lemma_device_playlists(
    entries: Seq<DeviceEntryView>,
    name: PlaylistNameView,
    track: AudioInfoView,
)
    ensures
        lists_playlist(device_playlists(entries), name) <==> gives_playlist(entries, name),
        lists_track(device_playlists(entries), name, track) <==> gives_track(entries, name, track),
{
    let named = named_playlists(entries);
    let root = root_entries(entries);
    let loose = audio_in(root);
    let lists = device_playlists(entries);
    lemma_audio_in_is_empty(root);
    lemma_audio_in(root, track);
    assert forall|i: int| 0 <= i < entries.len() implies root[i] == entries[i].entry by {}
    assert forall|p: int| 0 <= p < named.len() implies (#[trigger] named[p]).name is Named
        && lists[p] == named[p] by {
        lemma_named_playlists(entries, named[p]);
    }
    match name {
        PlaylistNameView::Uncategorized => {
            if lists_playlist(lists, name) {
                let p = choose|p: int| 0 <= p < lists.len() && (#[trigger] lists[p]).name == name;
                if p < named.len() {
                    assert(named[p].name is Named);
                }
                let i = choose|i: int| 0 <= i < root.len() && is_supported_audio(#[trigger] root[i]);
                assert(is_supported_audio(entries[i].entry));
            }
            if gives_playlist(entries, name) {
                let i = choose|i: int|
                    0 <= i < entries.len() && is_supported_audio((#[trigger] entries[i]).entry);
                assert(is_supported_audio(root[i]));
                assert(lists[lists.len() - 1].name == name);
            }
            if lists_track(lists, name, track) {
                let p = choose|p: int|
                    0 <= p < lists.len() && (#[trigger] lists[p]).name == name
                        && lists[p].audio.contains(track);
                if p < named.len() {
                    assert(named[p].name is Named);
                }
                let i = choose|i: int| 0 <= i < root.len() && yields(#[trigger] root[i], track);
                assert(yields(entries[i].entry, track));
            }
            if gives_track(entries, name, track) {
                let i = choose|i: int|
                    0 <= i < entries.len() && yields((#[trigger] entries[i]).entry, track);
                assert(yields(root[i], track));
                assert(is_supported_audio(root[i]));
                assert(lists[lists.len() - 1].name == name);
            }
        },
        PlaylistNameView::Named(n) => {
            if lists_playlist(lists, name) {
                let p = choose|p: int| 0 <= p < lists.len() && (#[trigger] lists[p]).name == name;
                assert(p < named.len());
                assert(named.contains(named[p]));
                lemma_named_playlists(entries, named[p]);
            }
            if gives_playlist(entries, name) {
                let i = choose|i: int|
                    0 <= i < entries.len() && is_playlist_folder((#[trigger] entries[i]).entry)
                        && entries[i].entry.name == n;
                let list = PlaylistView { name, audio: audio_in(entries[i].children) };
                lemma_named_playlists(entries, list);
                let p = choose|p: int| 0 <= p < named.len() && named[p] == list;
                assert(lists[p].name == name);
            }
            if lists_track(lists, name, track) {
                let p = choose|p: int|
                    0 <= p < lists.len() && (#[trigger] lists[p]).name == name
                        && lists[p].audio.contains(track);
                assert(p < named.len());
                assert(named.contains(named[p]));
                lemma_named_playlists(entries, named[p]);
                let i = choose|i: int|
                    0 <= i < entries.len() && is_playlist_folder((#[trigger] entries[i]).entry)
                        && named[p] == (PlaylistView {
                        name: PlaylistNameView::Named(entries[i].entry.name),
                        audio: audio_in(entries[i].children),
                    });
                lemma_audio_in(entries[i].children, track);
            }
            if gives_track(entries, name, track) {
                let i = choose|i: int|
                    0 <= i < entries.len() && is_playlist_folder((#[trigger] entries[i]).entry)
                        && entries[i].entry.name == n && some_yields(entries[i].children, track);
                let list = PlaylistView { name, audio: audio_in(entries[i].children) };
                lemma_audio_in(entries[i].children, track);
                lemma_named_playlists(entries, list);
                let p = choose|p: int| 0 <= p < named.len() && named[p] == list;
                assert(lists[p].name == name && lists[p].audio.contains(track));
            }
        },
    }
}

/// Whether a directory gives a track depends only on which entries it
/// holds.
proof fn lemma_some_yields_same(
    a: Seq<FolderEntryView>,
    b: Seq<FolderEntryView>,
    track: AudioInfoView,
)
    requires
        a.to_set() == b.to_set(),
        some_yields(a, track),
    ensures
        some_yields(b, track),
{
    let i = choose|i: int| 0 <= i < a.len() && yields(#[trigger] a[i], track);
    assert(a.contains(a[i]));
    assert(a.to_set().contains(a[i]));
    assert(b.to_set().contains(a[i]));
    assert(b.contains(a[i]));
    let j = choose|j: int| 0 <= j < b.len() && b[j] == a[i];
    assert(yields(b[j], track));
}

/// What one root directory gives, another with the same content gives
/// too.
proof fn lemma_gives_same(
    a: Seq<DeviceEntryView>,
    b: Seq<DeviceEntryView>,
    name: PlaylistNameView,
    track: AudioInfoView,
)
    requires
        same_content(a, b),
    ensures
        gives_playlist(a, name) ==> gives_playlist(b, name),
        gives_track(a, name, track) ==> gives_track(b, name, track),
{
    match name {
        PlaylistNameView::Named(n) => {
            if gives_playlist(a, name) {
                let i = choose|i: int|
                    0 <= i < a.len() && is_playlist_folder((#[trigger] a[i]).entry)
                        && a[i].entry.name == n;
                assert(is_held_in(a[i], b));
                let j = choose|j: int|
                    0 <= j < b.len() && (#[trigger] b[j]).entry == a[i].entry
                        && b[j].children.to_set() == a[i].children.to_set();
                assert(is_playlist_folder(b[j].entry));
            }
            if gives_track(a, name, track) {
                let i = choose|i: int|
                    0 <= i < a.len() && is_playlist_folder((#[trigger] a[i]).entry)
                        && a[i].entry.name == n && some_yields(a[i].children, track);
                assert(is_held_in(a[i], b));
                let j = choose|j: int|
                    0 <= j < b.len() && (#[trigger] b[j]).entry == a[i].entry
                        && b[j].children.to_set() == a[i].children.to_set();
                lemma_some_yields_same(a[i].children, b[j].children, track);
                assert(is_playlist_folder(b[j].entry));
            }
        },
        PlaylistNameView::Uncategorized => {
            if gives_playlist(a, name) {
                let i = choose|i: int|
                    0 <= i < a.len() && is_supported_audio((#[trigger] a[i]).entry);
                assert(is_held_in(a[i], b));
                let j = choose|j: int|
                    0 <= j < b.len() && (#[trigger] b[j]).entry == a[i].entry
                        && b[j].children.to_set() == a[i].children.to_set();
                assert(is_supported_audio(b[j].entry));
            }
            if gives_track(a, name, track) {
                let i = choose|i: int| 0 <= i < a.len() && yields((#[trigger] a[i]).entry, track);
                assert(is_held_in(a[i], b));
                let j = choose|j: int|
                    0 <= j < b.len() && (#[trigger] b[j]).entry == a[i].entry
                        && b[j].children.to_set() == a[i].children.to_set();
                assert(yields(b[j].entry, track));
            }
        },
    }
}

/// Enumeration is stable: two readings of a device that hold the same, in
/// whatever order, give playlists of the same names, and under each name
/// the same tracks.
pub proof fn lemma_enumeration_is_stable(
    a: Seq<DeviceEntryView>,
    b: Seq<DeviceEntryView>,
    name: PlaylistNameView,
    track: AudioInfoView,
)
    requires
        same_content(a, b),
    ensures
        lists_playlist(device_playlists(a), name) <==> lists_playlist(device_playlists(b), name),
        lists_track(device_playlists(a), name, track) <==> lists_track(
            device_playlists(b),
            name,
            track,
        ),
{
    lemma_device_playlists(a, name, track);
    lemma_device_playlists(b, name, track);
    lemma_gives_same(a, b, name, track);
    lemma_gives_same(b, a, name, track);
}

} // verus!
