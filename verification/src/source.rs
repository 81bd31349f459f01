//! Getting audio: the capability of a source, and what a fetch asks for.

use crate::audio::{
    hyphen_delimiter, key_of, parsed_name, text_view, AudioError, AudioErrorView, AudioInfo,
    AudioInfoView, AudioLocation, AudioLocationView,
};
use crate::folder::{
    is_supported_audio, is_supported_audio_file, EntryKind, FolderEntry, FolderEntryView,
};
use crate::path::{
    base_name, file_name, file_stem, join, joined, lemma_base_name_of_joined,
    lemma_sanitized_is_plain, sanitize_filename, sanitized,
};
use crate::target::{FileCopy, FileCopyView};
use crate::text::{
    first_match, join_with, joined_with, last_index_of, lemma_last_index_of, split_whitespace,
    trim, trimmed, words,
};
use crate::views::{result_view, views};
use vstd::prelude::*;
use vstd::string::StringExecFns;

verus! {

/// What is left to do so that fetched audio lies where it was asked for.
#[derive(Debug)]
pub enum Fetch {
    /// Nothing: the audio lies at this location.
    Ready(AudioLocation),
    /// This copy: the audio then lies at its `to`.
    Copy(FileCopy),
}

/// What is left of a fetch, as a value.
pub enum FetchView {
    Ready(AudioLocationView),
    Copy(FileCopyView),
}

impl View for Fetch {
    type V = FetchView;

    open spec fn view(&self) -> FetchView {
        match self {
            Fetch::Ready(location) => FetchView::Ready(location@),
            Fetch::Copy(copy) => FetchView::Copy(copy@),
        }
    }
}

/// Something that audio can be fetched from.
pub trait AudioSource {
    /// A name by which a person knows it.
    fn name(&self) -> &str;

    /// The description `info`, with what the source can add to it; fails
    /// with `MissingInfo` where `info` lacks what the source looks audio
    /// up by.
    fn search(&self, info: &AudioInfo) -> Result<AudioInfo, AudioError>;

    /// What brings the track that `info` describes into the directory
    /// `dest`.
    fn fetch(&self, info: &AudioInfo, dest: String) -> Result<Fetch, AudioError>;
}

/// A program to run, with its arguments.
#[derive(Debug)]
pub struct Command {
    pub program: String,
    pub args: Vec<String>,
}

/// A command as a value.
pub struct CommandView {
    pub program: Seq<char>,
    pub args: Seq<Seq<char>>,
}

impl View for Command {
    type V = CommandView;

    open spec fn view(&self) -> CommandView {
        CommandView { program: self.program@, args: views(self.args@) }
    }
}

/// How the run of a command ended.
#[derive(Debug)]
pub enum Outcome {
    /// The program could not be started; the text is the cause.
    Failed(String),
    /// The program ran and ended: whether it reports success, its exit
    /// status as text, and what it wrote to its standard output.
    Exited { success: bool, status: String, output: String },
}

/// The outcome of a run as a value.
pub enum OutcomeView {
    Failed(Seq<char>),
    Exited { success: bool, status: Seq<char>, output: Seq<char> },
}

impl View for Outcome {
    type V = OutcomeView;

    open spec fn view(&self) -> OutcomeView {
        match self {
            Outcome::Failed(cause) => OutcomeView::Failed(cause@),
            Outcome::Exited { success, status, output } => OutcomeView::Exited {
                success: *success,
                status: status@,
                output: output@,
            },
        }
    }
}

/// A download to run: the command, the pattern that names its output
/// file, and the path of that file where it is known beforehand.
#[derive(Debug)]
pub struct Download {
    pub command: Command,
    pub output: String,
    pub expected: Option<String>,
}

/// A download as a value.
pub struct DownloadView {
    pub command: CommandView,
    pub output: Seq<char>,
    pub expected: Option<Seq<char>>,
}

impl View for Download {
    type V = DownloadView;

    open spec fn view(&self) -> DownloadView {
        DownloadView {
            command: self.command@,
            output: self.output@,
            expected: text_view(self.expected),
        }
    }
}

/// What the downloader has to run next to fetch a track.
#[derive(Debug)]
pub enum Acquire {
    /// The search for the track's URL: the fetch goes on with the
    /// description that the search gives.
    Search(Command),
    /// The download itself.
    Download(Download),
}

/// The next step of the downloader as a value.
pub enum AcquireView {
    Search(CommandView),
    Download(DownloadView),
}

impl View for Acquire {
    type V = AcquireView;

    open spec fn view(&self) -> AcquireView {
        match self {
            Acquire::Search(command) => AcquireView::Search(command@),
            Acquire::Download(download) => AcquireView::Download(download@),
        }
    }
}

/// The query for a track: the words of its artist, then those of its
/// title, with one space between each two.
pub open spec fn search_query(artist: Seq<char>, title: Seq<char>) -> Seq<char> {
    joined_with(words(artist) + words(title), seq![' '])
}

/// The command that asks the downloader for the best hit of `query`.
pub open spec fn search_command(query: Seq<char>) -> CommandView {
    CommandView {
        program: "yt-dlp"@,
        args: seq!["--get-id"@, "--default-search"@, "ytsearch1"@, query],
    }
}

/// Why a run that ended with `status` counts as failed.
pub open spec fn exit_reason(status: Seq<char>) -> Seq<char> {
    "ytb-dl exited with status: "@ + status
}

/// Why a download that wrote no file at `output` counts as failed.
pub open spec fn missing_file_reason(output: Seq<char>) -> Seq<char> {
    "ytb-dl failed to write output file: "@ + output
}

/// The URL that a search found: that of the video whose id the search
/// wrote out. A search that could not be started fails with its cause, one
/// that ended without success with its status.
pub open spec fn searched_url(outcome: OutcomeView) -> Result<Seq<char>, AudioErrorView> {
    match outcome {
        OutcomeView::Failed(cause) => Err(AudioErrorView::Io(cause)),
        OutcomeView::Exited { success, status, output } => if success {
            Ok("https://www.youtube.com/watch?v="@ + trimmed(output))
        } else {
            Err(AudioErrorView::ExportFailed(exit_reason(status)))
        },
    }
}

/// The description that a search for `info` gives: `info` with the URL that
/// was found. A description without artist or title cannot be searched.
pub open spec fn searched_info(info: AudioInfoView, outcome: OutcomeView) -> Result<
    AudioInfoView,
    AudioErrorView,
> {
    if info.artist is None || info.title is None {
        Err(AudioErrorView::MissingInfo)
    } else {
        match searched_url(outcome) {
            Ok(url) => Ok(AudioInfoView { youtube_url: Some(url), ..info }),
            Err(e) => Err(e),
        }
    }
}

/// The stem of the file that a download of `info` is to write: artist and
/// title, both sanitized, with the hyphen delimiter between them. Without
/// artist or title the downloader names the file itself.
pub open spec fn download_stem(info: AudioInfoView) -> Option<Seq<char>> {
    match (info.artist, info.title) {
        (Some(artist), Some(title)) => Some(
            sanitized(artist) + hyphen_delimiter() + sanitized(title),
        ),
        _ => None,
    }
}

/// The pattern that names the output file of a download of `info` into
/// `dir`, for the downloader to fill in.
pub open spec fn output_pattern(info: AudioInfoView, dir: Seq<char>) -> Seq<char> {
    match download_stem(info) {
        Some(stem) => joined(dir, stem + ".%(ext)s"@),
        None => joined(dir, "%(title)s.%(ext)s"@),
    }
}

/// The path of the file that a download of `info` into `dir` writes, where
/// the library names the file.
pub open spec fn expected_file(info: AudioInfoView, dir: Seq<char>) -> Option<Seq<char>> {
    match download_stem(info) {
        Some(stem) => Some(joined(dir, stem + ".mp3"@)),
        None => None,
    }
}

/// The command that downloads the audio behind `url` as an mp3 file named
/// by `output`.
pub open spec fn download_command(url: Seq<char>, output: Seq<char>) -> CommandView {
    CommandView {
        program: "yt-dlp"@,
        args: seq![
            "-x"@,
            "--audio-format"@,
            "mp3"@,
            "--extractor-args"@,
            "youtube:player_client=android"@,
            "-o"@,
            output,
            url,
        ],
    }
}

/// The download of the track that `info` describes from `url` into `dir`.
pub open spec fn download_of(info: AudioInfoView, url: Seq<char>, dir: Seq<char>) -> DownloadView {
    DownloadView {
        command: download_command(url, output_pattern(info, dir)),
        output: output_pattern(info, dir),
        expected: expected_file(info, dir),
    }
}

/// The file that a download left, given how its run ended and the file
/// that was found written: a run that could not be started, that ended
/// without success, or after which no file was found, has failed.
pub open spec fn downloaded_file(
    download: DownloadView,
    outcome: OutcomeView,
    written: Option<Seq<char>>,
) -> Result<Seq<char>, AudioErrorView> {
    match outcome {
        OutcomeView::Failed(cause) => Err(AudioErrorView::ExportFailed(cause)),
        OutcomeView::Exited { success, status, output } => if !success {
            Err(AudioErrorView::ExportFailed(exit_reason(status)))
        } else {
            match written {
                Some(path) => Ok(path),
                None => Err(AudioErrorView::ExportFailed(missing_file_reason(download.output))),
            }
        },
    }
}

/// Whether one of `entries` is a file named `name`.
pub open spec fn holds_file(entries: Seq<FolderEntryView>, name: Seq<char>) -> bool {
    exists|i: int|
        0 <= i < entries.len() && (#[trigger] entries[i]).name == name && entries[i].kind is File
}

/// Whether one of `entries` is named `name`.
pub open spec fn holds_name(entries: Seq<FolderEntryView>, name: Seq<char>) -> bool {
    exists|i: int| 0 <= i < entries.len() && (#[trigger] entries[i]).name == name
}

/// The name of the first audio file among `after` that is not named among
/// `before`.
pub open spec fn first_new_audio(
    before: Seq<FolderEntryView>,
    after: Seq<FolderEntryView>,
) -> Option<Seq<char>>
    decreases after.len(),
{
    if after.len() == 0 {
        None
    } else if is_supported_audio(after[0]) && !holds_name(before, after[0].name) {
        Some(after[0].name)
    } else {
        first_new_audio(before, after.drop_first())
    }
}

/// The file that a download into `dir` left there, given what `dir` held
/// before the run and what it holds after it: the expected file where the
/// library named it and it is there, else nothing; where the downloader
/// named the file, the first audio file that is new in `dir`.
pub open spec fn written_by(
    download: DownloadView,
    dir: Seq<char>,
    before: Seq<FolderEntryView>,
    after: Seq<FolderEntryView>,
) -> Option<Seq<char>> {
    match download.expected {
        Some(path) => if holds_file(after, base_name(path)) {
            Some(path)
        } else {
            None
        },
        None => match first_new_audio(before, after) {
            Some(name) => Some(joined(dir, name)),
            None => None,
        },
    }
}

/// Whether one of `entries` is named `name`, and whether one of that name
/// is a file.
fn find_name(entries: &Vec<FolderEntry>, name: &String) -> (r: (bool, bool))
    ensures
        r.0 == holds_name(views(entries@), name@),
        r.1 == holds_file(views(entries@), name@),
{
    let ghost all = views(entries@);
    let mut named = false;
    let mut file = false;
    let mut i: usize = 0;
    while i < entries.len()
        invariant
            i <= entries.len(),
            all == views(entries@),
            named == holds_name(all.take(i as int), name@),
            file == holds_file(all.take(i as int), name@),
        decreases entries.len() - i,
    {
        proof {
            let now = all.take(i as int);
            let next = all.take(i + 1);
            assert(next[i as int] == entries[i as int]@);
            assert forall|j: int| 0 <= j < now.len() implies now[j] == next[j] by {}
            if holds_name(now, name@) {
                let j = choose|j: int| 0 <= j < now.len() && (#[trigger] now[j]).name == name@;
                assert(next[j].name == name@);
            }
            if holds_file(now, name@) {
                let j = choose|j: int|
                    0 <= j < now.len() && (#[trigger] now[j]).name == name@ && now[j].kind is File;
                assert(next[j].name == name@ && next[j].kind is File);
            }
            if holds_name(next, name@) && entries[i as int].name@ != name@ {
                let j = choose|j: int| 0 <= j < next.len() && (#[trigger] next[j]).name == name@;
                assert(now[j].name == name@);
            }
            if holds_file(next, name@) && !(entries[i as int].name@ == name@
                && entries[i as int].kind is File) {
                let j = choose|j: int|
                    0 <= j < next.len() && (#[trigger] next[j]).name == name@
                        && next[j].kind is File;
                assert(now[j].name == name@ && now[j].kind is File);
            }
        }
        if entries[i].name == *name {
            named = true;
            match entries[i].kind {
                EntryKind::File => {
                    file = true;
                },
                _ => {},
            }
        }
        i = i + 1;
    }
    assert(all.take(entries.len() as int) == all);
    (named, file)
}

/// The name of the first audio file among `after` that is not named among
/// `before`.
fn find_new_audio(before: &Vec<FolderEntry>, after: &Vec<FolderEntry>) -> (r: Option<String>)
    ensures
        text_view(r) == first_new_audio(views(before@), views(after@)),
{
    let ghost all = views(after@);
    let mut i: usize = 0;
    assert(all.skip(0) == all);
    while i < after.len()
        invariant
            i <= after.len(),
            all == views(after@),
            first_new_audio(views(before@), all.skip(i as int)) == first_new_audio(
                views(before@),
                all,
            ),
        decreases after.len() - i,
    {
        proof {
            assert(all.skip(i as int)[0] == after[i as int]@);
            assert(all.skip(i as int).drop_first() == all.skip(i + 1));
        }
        if is_supported_audio_file(&after[i]) {
            let (named, _) = find_name(before, &after[i].name);
            if !named {
                return Some(after[i].name.clone());
            }
        }
        i = i + 1;
    }
    None
}

/// What the downloader runs next to fetch `info` into `dir`: the download
/// where the URL is known, else the search for it, which needs artist and
/// title.
pub open spec fn acquire_of(info: AudioInfoView, dir: Seq<char>) -> Result<
    AcquireView,
    AudioErrorView,
> {
    match info.youtube_url {
        Some(url) => Ok(AcquireView::Download(download_of(info, url, dir))),
        None => match (info.artist, info.title) {
            (Some(artist), Some(title)) => Ok(
                AcquireView::Search(search_command(search_query(artist, title))),
            ),
            _ => Err(AudioErrorView::MissingInfo),
        },
    }
}

/// How a fetch of `info` into `dir` goes on after its search has run: with
/// the description that the search gave, and the download of its track from
/// the URL that was found.
pub open spec fn found_download(info: AudioInfoView, outcome: OutcomeView, dir: Seq<char>) -> Result<
    (AudioInfoView, DownloadView),
    AudioErrorView,
> {
    match searched_info(info, outcome) {
        Err(e) => Err(e),
        Ok(found) => Ok((found, download_of(found, found.youtube_url->0, dir))),
    }
}

/// A download names its file so that the name gives the track back. Where
/// artist and title hold no reserved character and no white space at their
/// ends, and the delimiter between them is the first in the stem, the name
/// of the expected file parses to that artist and that title, and so to the
/// key of the description.
pub proof fn lemma_download_parses_back(info: AudioInfoView, dir: Seq<char>)
    requires
        info.artist is Some,
        info.title is Some,
        sanitized(info.artist->0) == info.artist->0,
        sanitized(info.title->0) == info.title->0,
        trimmed(info.artist->0) == info.artist->0,
        trimmed(info.title->0) == info.title->0,
        first_match(info.artist->0 + hyphen_delimiter() + info.title->0, hyphen_delimiter())
            == Some(info.artist->0.len() as int),
        dir.len() > 0,
    ensures
        expected_file(info, dir) is Some,
        parsed_name(expected_file(info, dir)->0).artist == info.artist,
        parsed_name(expected_file(info, dir)->0).title == info.title,
        key_of(parsed_name(expected_file(info, dir)->0)) == key_of(info),
{
    let a = info.artist->0;
    let t = info.title->0;
    let h = hyphen_delimiter();
    let stem = a + h + t;
    let file = stem + ".mp3"@;
    reveal_strlit(".mp3");
    lemma_sanitized_is_plain(a);
    lemma_sanitized_is_plain(t);
    assert(download_stem(info) == Some(stem));
    assert forall|i: int| 0 <= i < file.len() implies file[i] != '/' by {
        if i < a.len() {
            assert(sanitized(a)[i] == a[i]);
        } else if i < a.len() + h.len() {
            assert(file[i] == h[i - a.len()]);
        } else if i < stem.len() {
            assert(file[i] == t[i - a.len() - h.len()]);
            assert(sanitized(t)[i - a.len() - h.len()] == t[i - a.len() - h.len()]);
        } else {
            assert(file[i] == ".mp3"@[i - stem.len()]);
        }
    }
    assert(!file.contains('/'));
    lemma_base_name_of_joined(dir, file);
    lemma_last_index_of(file, '.');
    let n = stem.len() as int;
    assert(file[n] == '.');
    assert(file[n + 1] == 'm');
    assert(file[n + 2] == 'p');
    assert(file[n + 3] == '3');
    assert(last_index_of(file, '.') == Some(n)) by {
        let found = last_index_of(file, '.');
        assert(found is Some);
        if found->0 < n {
            assert(file[n] != '.');
        }
    }
    assert(file_stem(file) =~= stem);
    assert(stem.subrange(0, a.len() as int) =~= a);
    assert(stem.subrange((a.len() + h.len()) as int, n) =~= t);
}

/// The source that runs the downloader `yt-dlp`. It decides what is run
/// and reads how the run ended; running it is left to its user.
#[derive(Debug)]
pub struct YtDlpSource {
    pub name: String,
}

impl YtDlpSource {
    /// The name of the source.
    pub fn name(&self) -> (r: &str)
        ensures
            r@ == self.name@,
    {
        self.name.as_str()
    }

    /// The command that searches for the track of `artist` named `title`.
    pub fn search_audio(&self, artist: &str, title: &str) -> (r: Command)
        ensures
            r@ == search_command(search_query(artist@, title@)),
    {
        let mut parts = split_whitespace(artist);
        let mut more = split_whitespace(title);
        let ghost first = views(parts@);
        let ghost second = views(more@);
        parts.append(&mut more);
        proof {
            assert(views(parts@) =~= first + second);
            reveal_strlit(" ");
            assert(" "@ =~= seq![' ']);
        }
        let query = join_with(&parts, " ");
        let args = vec![
            String::from_str("--get-id"),
            String::from_str("--default-search"),
            String::from_str("ytsearch1"),
            query,
        ];
        assert(views(args@) =~= search_command(search_query(artist@, title@)).args);
        Command { program: String::from_str("yt-dlp"), args }
    }

    /// The URL that a search found, from how its run ended.
    pub fn search_audio_result(&self, outcome: &Outcome) -> (r: Result<String, AudioError>)
        ensures
            result_view(r) == searched_url(outcome@),
    {
        match outcome {
            Outcome::Failed(cause) => Err(AudioError::Io(cause.clone())),
            Outcome::Exited { success, status, output } => {
                if *success {
                    let id = trim(output.as_str());
                    Ok(String::from_str("https://www.youtube.com/watch?v=").concat(id.as_str()))
                } else {
                    Err(
                        AudioError::ExportFailed(
                            String::from_str("ytb-dl exited with status: ").concat(
                                status.as_str(),
                            ),
                        ),
                    )
                }
            },
        }
    }

    /// The command that searches for the track that `info` describes,
    /// which has to name artist and title.
    pub fn search(&self, info: &AudioInfo) -> (r: Result<Command, AudioError>)
        ensures
            result_view(r) == match (info@.artist, info@.title) {
                (Some(artist), Some(title)) => Ok::<CommandView, AudioErrorView>(
                    search_command(search_query(artist, title)),
                ),
                _ => Err::<CommandView, AudioErrorView>(AudioErrorView::MissingInfo),
            },
    {
        match (&info.artist, &info.title) {
            (Some(artist), Some(title)) => Ok(self.search_audio(artist.as_str(), title.as_str())),
            _ => Err(AudioError::MissingInfo),
        }
    }

    /// The description that the search for `info` gives, from how its run
    /// ended: `info` with the URL that was found.
    pub fn search_result(&self, info: &AudioInfo, outcome: &Outcome) -> (r: Result<
        AudioInfo,
        AudioError,
    >)
        ensures
            result_view(r) == searched_info(info@, outcome@),
    {
        if info.artist.is_none() || info.title.is_none() {
            return Err(AudioError::MissingInfo);
        }
        match self.search_audio_result(outcome) {
            Ok(url) => {
                let mut found = info.clone();
                found.youtube_url = Some(url);
                Ok(found)
            },
            Err(e) => Err(e),
        }
    }

    /// The download of the track that `info` describes from `url` into
    /// the directory `output_dir`.
    pub fn download_audio(&self, info: &AudioInfo, url: &str, output_dir: &str) -> (r: Download)
        ensures
            r@ == download_of(info@, url@, output_dir@),
    {
        let stem = match (&info.artist, &info.title) {
            (Some(artist), Some(title)) => {
                proof {
                    reveal_strlit(" - ");
                    assert(" - "@ =~= hyphen_delimiter());
                }
                let mut stem = sanitize_filename(artist.as_str());
                stem.append(" - ");
                stem.append(sanitize_filename(title.as_str()).as_str());
                Some(stem)
            },
            _ => None,
        };
        let (output, expected) = match stem {
            Some(stem) => {
                let pattern = stem.clone().concat(".%(ext)s");
                let file = stem.concat(".mp3");
                (join(output_dir, pattern.as_str()), Some(join(output_dir, file.as_str())))
            },
            None => (join(output_dir, "%(title)s.%(ext)s"), None),
        };
        let args = vec![
            String::from_str("-x"),
            String::from_str("--audio-format"),
            String::from_str("mp3"),
            String::from_str("--extractor-args"),
            String::from_str("youtube:player_client=android"),
            String::from_str("-o"),
            output.clone(),
            String::from_str(url),
        ];
        assert(views(args@) =~= download_command(url@, output@).args);
        Download { command: Command { program: String::from_str("yt-dlp"), args }, output, expected }
    }

    /// The file that the download left in the directory `dir`, given what
    /// `dir` held before the run and what it holds after it.
    pub fn written_file(
        &self,
        download: &Download,
        dir: &str,
        before: &Vec<FolderEntry>,
        after: &Vec<FolderEntry>,
    ) -> (r: Option<String>)
        ensures
            text_view(r) == written_by(download@, dir@, views(before@), views(after@)),
    {
        match &download.expected {
            Some(path) => {
                let name = file_name(path.as_str());
                let (_, file) = find_name(after, &name);
                if file {
                    Some(path.clone())
                } else {
                    None
                }
            },
            None => match find_new_audio(before, after) {
                Some(name) => Some(join(dir, name.as_str())),
                None => None,
            },
        }
    }

    /// The file that a download left, from how its run ended and from the
    /// file that was found written afterwards, if one was.
    pub fn download_audio_result(
        &self,
        download: &Download,
        outcome: &Outcome,
        written: Option<String>,
    ) -> (r: Result<String, AudioError>)
        ensures
            result_view(r) == downloaded_file(download@, outcome@, text_view(written)),
    {
        match outcome {
            Outcome::Failed(cause) => Err(AudioError::ExportFailed(cause.clone())),
            Outcome::Exited { success, status, output } => {
                if !*success {
                    return Err(
                        AudioError::ExportFailed(
                            String::from_str("ytb-dl exited with status: ").concat(
                                status.as_str(),
                            ),
                        ),
                    );
                }
                match written {
                    Some(path) => Ok(path),
                    None => Err(
                        AudioError::ExportFailed(
                            String::from_str("ytb-dl failed to write output file: ").concat(
                                download.output.as_str(),
                            ),
                        ),
                    ),
                }
            },
        }
    }

    /// What is to be run next to fetch the track that `info` describes
    /// into the directory `dest`.
    pub fn fetch(&self, info: &AudioInfo, dest: &str) -> (r: Result<Acquire, AudioError>)
        ensures
            result_view(r) == acquire_of(info@, dest@),
    {
        match &info.youtube_url {
            Some(url) => Ok(Acquire::Download(self.download_audio(info, url.as_str(), dest))),
            None => match self.search(info) {
                Ok(command) => Ok(Acquire::Search(command)),
                Err(e) => Err(e),
            },
        }
    }

    /// How a fetch goes on after its search has run: with the description
    /// that the search gave, and the download of its track into `dest`.
    pub fn fetch_found(&self, info: &AudioInfo, outcome: &Outcome, dest: &str) -> (r: Result<
        (AudioInfo, Download),
        AudioError,
    >)
        ensures
            match r {
                Ok((found, download)) => found_download(info@, outcome@, dest@) == Ok::<
                    (AudioInfoView, DownloadView),
                    AudioErrorView,
                >((found@, download@)),
                Err(e) => found_download(info@, outcome@, dest@) == Err::<
                    (AudioInfoView, DownloadView),
                    AudioErrorView,
                >(e@),
            },
    {
        if info.artist.is_none() || info.title.is_none() {
            return Err(AudioError::MissingInfo);
        }
        match self.search_audio_result(outcome) {
            Ok(url) => {
                let download = self.download_audio(info, url.as_str(), dest);
                let mut found = info.clone();
                found.youtube_url = Some(url);
                Ok((found, download))
            },
            Err(e) => Err(e),
        }
    }

    /// Where the fetched audio lies, from how the download's run ended and
    /// from the file that was found written afterwards, if one was.
    pub fn fetch_result(
        &self,
        download: &Download,
        outcome: &Outcome,
        written: Option<String>,
    ) -> (r: Result<AudioLocation, AudioError>)
        ensures
            result_view(r) == match downloaded_file(download@, outcome@, text_view(written)) {
                Ok(path) => Ok::<AudioLocationView, AudioErrorView>(
                    AudioLocationView::LocalPath(path),
                ),
                Err(e) => Err::<AudioLocationView, AudioErrorView>(e),
            },
    {
        match self.download_audio_result(download, outcome, written) {
            Ok(path) => Ok(AudioLocation::LocalPath(path)),
            Err(e) => Err(e),
        }
    }
}

} // verus!
