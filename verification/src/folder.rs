//! What a directory holds, as it was read: names and kinds, and the audio
//! files among them.

use crate::audio::{parsed_name, AudioInfo, AudioInfoView};
use crate::path::{extension, file_extension};
use crate::text::{begins_with, lowered, starts_with, to_lower};
use crate::views::{lemma_views_push, views};
use vstd::prelude::*;
use vstd::string::StringExecFns;

verus! {

/// What kind of thing a directory entry is.
#[derive(Clone, Copy, Debug)]
pub enum EntryKind {
    /// A regular file, or a link that leads to one.
    File,
    /// A directory.
    Directory,
    /// Anything else.
    Other,
}

/// One entry of a directory: its name and its kind.
#[derive(Debug)]
pub struct FolderEntry {
    pub name: String,
    pub kind: EntryKind,
}

/// A directory entry as a value.
pub struct FolderEntryView {
    pub name: Seq<char>,
    pub kind: EntryKind,
}

impl View for FolderEntry {
    type V = FolderEntryView;

    open spec fn view(&self) -> FolderEntryView {
        FolderEntryView { name: self.name@, kind: self.kind }
    }
}

impl Clone for FolderEntry {
    fn clone(&self) -> (r: Self)
        ensures
            r == *self,
            r@ == self@,
    {
        FolderEntry { name: self.name.clone(), kind: self.kind }
    }
}

/// What the names of the side files begin with that macOS writes beside
/// the files it copies.
pub open spec fn sidecar_prefix() -> Seq<char> {
    seq!['.', '_']
}

/// Whether `ext`, taken without regard to case, is the extension of an
/// audio format that players read.
pub open spec fn is_audio_extension(ext: Seq<char>) -> bool {
    let e = lowered(ext);
    ||| e == "mp3"@
    ||| e == "flac"@
    ||| e == "wma"@
    ||| e == "wav"@
    ||| e == "aac"@
    ||| e == "m4a"@
    ||| e == "ape"@
}

/// Whether an entry is an audio file that players read: a file that is no
/// side file and has the extension of an audio format.
pub open spec fn is_supported_audio(entry: FolderEntryView) -> bool {
    &&& entry.kind is File
    &&& !begins_with(entry.name, sidecar_prefix())
    &&& match file_extension(entry.name) {
        Some(ext) => is_audio_extension(ext),
        None => false,
    }
}

/// The descriptions of the supported audio files among `entries`, in the
/// order of the entries.
pub open spec fn audio_in(entries: Seq<FolderEntryView>) -> Seq<AudioInfoView>
    decreases entries.len(),
{
    if entries.len() == 0 {
        seq![]
    } else {
        let before = audio_in(entries.drop_last());
        if is_supported_audio(entries.last()) {
            before.push(parsed_name(entries.last().name))
        } else {
            before
        }
    }
}

/// Whether `name` is the name of a side file.
pub fn is_sidecar(name: &str) -> (r: bool)
    ensures
        r == begins_with(name@, sidecar_prefix()),
{
    proof {
        reveal_strlit("._");
        assert("._"@ =~= sidecar_prefix());
    }
    starts_with(name, "._")
}

/// Whether `ext`, taken without regard to case, is the extension of an
/// audio format that players read.
pub fn has_audio_extension(ext: &str) -> (r: bool)
    ensures
        r == is_audio_extension(ext@),
{
    let e = to_lower(ext);
    e == String::from_str("mp3") || e == String::from_str("flac") || e == String::from_str("wma")
        || e == String::from_str("wav") || e == String::from_str("aac") || e == String::from_str(
        "m4a",
    ) || e == String::from_str("ape")
}

/// Whether `entry` is an audio file that players read.
pub fn is_supported_audio_file(entry: &FolderEntry) -> (r: bool)
    ensures
        r == is_supported_audio(entry@),
{
    match entry.kind {
        EntryKind::File => {},
        _ => {
            return false;
        },
    }
    if is_sidecar(entry.name.as_str()) {
        return false;
    }
    match extension(entry.name.as_str()) {
        Some(ext) => has_audio_extension(ext.as_str()),
        None => false,
    }
}

/// The descriptions of the supported audio files among `entries`, in the
/// order of the entries.
pub fn list_audio_in_folder(entries: &Vec<FolderEntry>) -> (r: Vec<AudioInfo>)
    ensures
        views(r@) == audio_in(views(entries@)),
{
    let mut found: Vec<AudioInfo> = Vec::new();
    let mut i: usize = 0;
    assert(views(entries@.take(0)) =~= Seq::<FolderEntryView>::empty());
    assert(views(found@) =~= Seq::<AudioInfoView>::empty());
    while i < entries.len()
        invariant
            i <= entries.len(),
            views(found@) == audio_in(views(entries@.take(i as int))),
        decreases entries.len() - i,
    {
        proof {
            let next = entries@.take(i + 1);
            assert(next.drop_last() == entries@.take(i as int));
            assert(views(next).drop_last() =~= views(next.drop_last()));
            assert(views(next).last() == entries[i as int]@);
        }
        if is_supported_audio_file(&entries[i]) {
            let info = AudioInfo::from_filename(entries[i].name.as_str());
            proof {
                lemma_views_push(found@, info);
            }
            found.push(info);
        }
        i = i + 1;
    }
    assert(entries@.take(entries.len() as int) == entries@);
    found
}

} // verus!
