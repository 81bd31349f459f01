//! From source to cache to target: taking a download into the cache, and
//! bringing cached tracks onto a device, one at a time or a playlist at
//! once.

use crate::audio::{
    key_of, text_view, AudioError, AudioErrorView, AudioInfo, AudioInfoView, AudioKeyView,
    AudioLocation, AudioLocationView, PlaylistName, PlaylistNameView,
};
use crate::cache::{
    located_view, location_in, resolved_playlist, with_track, LocalCache, OverlayView,
};
use crate::device::{import_of, AttachedDevice};
use crate::source::{acquire_of, downloaded_file, Acquire, Download, Outcome, YtDlpSource};
use crate::target::{AudioTarget, FileCopy, FileCopyView};
use crate::views::{lemma_views_push, result_view, views};
use vstd::prelude::*;
use vstd::string::StringExecFns;

verus! {

/// The copies of a batch, in the order in which they are to be made, and
/// the error at which the batch stops after them, if it does.
#[derive(Debug)]
pub struct Batch {
    pub copies: Vec<FileCopy>,
    pub failure: Option<AudioError>,
}

/// A batch as a value.
pub struct BatchView {
    pub copies: Seq<FileCopyView>,
    pub failure: Option<AudioErrorView>,
}

impl View for Batch {
    type V = BatchView;

    open spec fn view(&self) -> BatchView {
        BatchView {
            copies: views(self.copies@),
            failure: match self.failure {
                Some(e) => Some(e@),
                None => None,
            },
        }
    }
}

/// The copy that brings the track that `info` describes from a cache with
/// `index` onto a device rooted at `root`: that of the cached file, where
/// the cache holds the track.
pub open spec fn import_from(
    index: Map<AudioKeyView, Seq<char>>,
    root: Seq<char>,
    info: AudioInfoView,
    playlist: Option<PlaylistNameView>,
) -> Result<FileCopyView, AudioErrorView> {
    match location_in(index, info) {
        Err(e) => Err(e),
        Ok(location) => import_of(root, location, playlist),
    }
}

/// The batch that brings `tracks`, each with its location, onto a device
/// rooted at `root` under the playlist named `name`: the copy of each in
/// turn, up to the first that the device refuses.
pub open spec fn batch_of(
    root: Seq<char>,
    name: Seq<char>,
    tracks: Seq<(AudioInfoView, AudioLocationView)>,
) -> BatchView
    decreases tracks.len(),
{
    if tracks.len() == 0 {
        BatchView { copies: seq![], failure: None }
    } else {
        let before = batch_of(root, name, tracks.drop_last());
        if before.failure is Some {
            before
        } else {
            match import_of(root, tracks.last().1, Some(PlaylistNameView::Named(name))) {
                Ok(copy) => BatchView { copies: before.copies.push(copy), failure: None },
                Err(e) => BatchView { copies: before.copies, failure: Some(e) },
            }
        }
    }
}

/// The batch that brings the playlist named `name` of a cache onto a
/// device rooted at `root`. Where the cache lacks the playlist or does not
/// hold one of its tracks, nothing is copied.
pub open spec fn playlist_batch(
    o: OverlayView,
    index: Map<AudioKeyView, Seq<char>>,
    root: Seq<char>,
    name: Seq<char>,
) -> BatchView {
    match resolved_playlist(o, index, name) {
        Err(e) => BatchView { copies: seq![], failure: Some(e) },
        Ok(tracks) => batch_of(root, name, tracks),
    }
}

/// Once a batch has stopped, more tracks change nothing.
proof fn lemma_batch_stops(
    root: Seq<char>,
    name: Seq<char>,
    tracks: Seq<(AudioInfoView, AudioLocationView)>,
    k: int,
)
    requires
        0 <= k <= tracks.len(),
        batch_of(root, name, tracks.take(k)).failure is Some,
    ensures
        batch_of(root, name, tracks) == batch_of(root, name, tracks.take(k)),
    decreases tracks.len(),
{
    if k == tracks.len() {
        assert(tracks.take(k) == tracks);
    } else {
        assert(tracks.drop_last().take(k) == tracks.take(k));
        lemma_batch_stops(root, name, tracks.drop_last(), k);
    }
}

/// What is to be run next to download the track that `info` describes
/// into the cache.
pub fn download(source: &YtDlpSource, cache: &LocalCache, info: &AudioInfo) -> (r: Result<
    Acquire,
    AudioError,
>)
    ensures
        result_view(r) == acquire_of(info@, cache.folder()),
{
    source.fetch(info, cache.audio_dir())
}

/// Takes a download that has run into the cache: where it left a file, the
/// file is indexed under the key of `info` and, with a playlist, `info`
/// becomes the last track of it. Returns where the audio lies and whether
/// the overlay is to be written out. A failed download leaves the cache as
/// it was.
pub fn complete_download(
    source: &YtDlpSource,
    cache: &mut LocalCache,
    info: &AudioInfo,
    download: &Download,
    outcome: &Outcome,
    written: Option<String>,
    playlist: Option<&str>,
) -> (r: Result<(AudioLocation, bool), AudioError>)
    ensures
        match downloaded_file(download@, outcome@, text_view(written)) {
            Err(e) => {
                &&& r matches Err(failure)
                &&& failure@ == e
                &&& final(cache).index() == old(cache).index()
                &&& final(cache).overlay() == old(cache).overlay()
            },
            Ok(path) => {
                &&& r matches Ok((location, persist))
                &&& location@ == AudioLocationView::LocalPath(path)
                &&& persist == playlist is Some
                &&& final(cache).index() == match key_of(info@) {
                    Some(key) => old(cache).index().insert(key, path),
                    None => old(cache).index(),
                }
                &&& final(cache).overlay() == match playlist {
                    Some(name) => with_track(old(cache).overlay(), name@, info@),
                    None => old(cache).overlay(),
                }
            },
        },
        old(cache).wf() ==> final(cache).wf(),
        final(cache).folder() == old(cache).folder(),
        final(cache).overlay_file() == old(cache).overlay_file(),
        final(cache).listing() == old(cache).listing(),
{
    match source.fetch_result(download, outcome, written) {
        Ok(location) => {
            let persist = cache.add_to_cache(info, &location, playlist);
            Ok((location, persist))
        },
        Err(e) => Err(e),
    }
}

/// The copy that brings the track that `info` describes from the cache
/// onto the device, under `playlist`.
pub fn import(
    cache: &LocalCache,
    device: &AttachedDevice,
    info: &AudioInfo,
    playlist: Option<&PlaylistName>,
) -> (r: Result<FileCopy, AudioError>)
    ensures
        result_view(r) == import_from(
            cache.index(),
            device.root(),
            info@,
            match playlist {
                Some(name) => Some(name@),
                None => None,
            },
        ),
{
    match cache.search(info) {
        Ok(location) => device.import(&location, info, playlist),
        Err(e) => Err(e),
    }
}

/// The batch that brings the playlist named `name` from the cache onto the
/// device, as a playlist of the same name.
pub fn import_playlist(cache: &LocalCache, device: &AttachedDevice, name: &str) -> (r: Batch)
    ensures
        r@ == playlist_batch(cache.overlay(), cache.index(), device.root(), name@),
{
    let tracks = match cache.search_playlist(name) {
        Ok(tracks) => tracks,
        Err(e) => {
            let copies: Vec<FileCopy> = Vec::new();
            assert(views(copies@) =~= Seq::<FileCopyView>::empty());
            return Batch { copies, failure: Some(e) };
        },
    };
    let ghost all = located_view(tracks@);
    let list = PlaylistName::Named(String::from_str(name));
    let mut copies: Vec<FileCopy> = Vec::new();
    let mut i: usize = 0;
    assert(views(copies@) =~= Seq::<FileCopyView>::empty());
    while i < tracks.len()
        invariant
            i <= tracks.len(),
            all == located_view(tracks@),
            list@ == PlaylistNameView::Named(name@),
            resolved_playlist(cache.overlay(), cache.index(), name@) == Ok::<
                Seq<(AudioInfoView, AudioLocationView)>,
                AudioErrorView,
            >(all),
            batch_of(device.root(), name@, all.take(i as int)) == (BatchView {
                copies: views(copies@),
                failure: None,
            }),
        decreases tracks.len() - i,
    {
        proof {
            assert(all.take(i + 1).drop_last() == all.take(i as int));
            assert(all.take(i + 1).last() == (tracks[i as int].0@, tracks[i as int].1@));
        }
        match device.import(&tracks[i].1, tracks[i].0, Some(&list)) {
            Ok(copy) => {
                proof {
                    lemma_views_push(copies@, copy);
                }
                copies.push(copy);
            },
            Err(e) => {
                proof {
                    assert(batch_of(device.root(), name@, all.take(i + 1)).failure == Some(e@));
                    lemma_batch_stops(device.root(), name@, all, i + 1);
                }
                return Batch { copies, failure: Some(e) };
            },
        }
        i = i + 1;
    }
    assert(all.take(tracks.len() as int) == all);
    Batch { copies, failure: None }
}

} // verus!
