//! Taking audio in: the capability of a target, and the copy that an import
//! asks for.

use crate::audio::{AudioError, AudioInfo, AudioLocation, PlaylistName};
use vstd::prelude::*;

verus! {

/// A file to be copied, byte for byte. The directory of `to` is made first
/// where it is missing; the file at `from` stays.
#[derive(Debug)]
pub struct FileCopy {
    pub from: String,
    pub to: String,
}

/// A copy as a value.
pub struct FileCopyView {
    pub from: Seq<char>,
    pub to: Seq<char>,
}

impl View for FileCopy {
    type V = FileCopyView;

    open spec fn view(&self) -> FileCopyView {
        FileCopyView { from: self.from@, to: self.to@ }
    }
}

/// Something that audio can be imported to.
pub trait AudioTarget {
    /// A name by which a person knows it.
    fn name(&self) -> &str;

    /// Where the target holds the track that `info` describes.
    fn contains(&self, info: &AudioInfo) -> Result<&AudioLocation, AudioError>;

    /// The copy that brings the file at `source` into the target, under
    /// `playlist` or, without one, among the uncategorized audio. Only a
    /// local file can be imported.
    fn import(
        &self,
        source: &AudioLocation,
        info: &AudioInfo,
        playlist: Option<&PlaylistName>,
    ) -> Result<FileCopy, AudioError>;
}

} // verus!
