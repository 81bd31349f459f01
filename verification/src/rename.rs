//! Clean names for cached files: titles without the notes that video
//! platforms add to them, and file names made of artist and title.

use crate::audio::{artist_and_title, dash_delimiter, hyphen_delimiter};
use crate::path::{
    base_name, extension, file_extension, file_name, file_stem, sanitize_filename, sanitized, stem,
};
use crate::text::{
    chars_of, drop_spaces, find_from, first_match, first_match_from, lemma_first_match_from,
    occurs, occurs_at, skip_spaces, split_once, text_of, trim, trimmed,
};
use crate::views::views;
use vstd::prelude::*;
use vstd::string::StringExecFns;

verus! {

/// `s` with every occurrence of `pat` taken out, from left to right.
pub open spec fn without(s: Seq<char>, pat: Seq<char>) -> Seq<char>
    decreases s.len(),
{
    match first_match(s, pat) {
        Some(i) => if pat.len() > 0 && 0 <= i && i + pat.len() <= s.len() {
            s.subrange(0, i) + without(s.subrange(i + pat.len(), s.len() as int), pat)
        } else {
            s
        },
        None => s,
    }
}

/// `s` with every occurrence of each of `pats` taken out, one pattern
/// after the other.
pub open spec fn without_all(s: Seq<char>, pats: Seq<Seq<char>>) -> Seq<char>
    decreases pats.len(),
{
    if pats.len() == 0 {
        s
    } else {
        without(without_all(s, pats.drop_last()), pats.last())
    }
}

/// `s` up to the first occurrence of `pat`, or all of it where `pat` does
/// not occur.
pub open spec fn cut_at(s: Seq<char>, pat: Seq<char>) -> Seq<char> {
    match first_match(s, pat) {
        Some(i) => s.subrange(0, i),
        None => s,
    }
}

/// The last index at or before `from` at which `pat` stands in `s`.
pub open spec fn last_match_upto(s: Seq<char>, pat: Seq<char>, from: int) -> Option<int>
    decreases from + 1,
{
    if from < 0 {
        None
    } else if occurs_at(s, pat, from) {
        Some(from)
    } else {
        last_match_upto(s, pat, from - 1)
    }
}

/// The last index at which `pat` stands in `s`.
pub open spec fn last_match(s: Seq<char>, pat: Seq<char>) -> Option<int> {
    last_match_upto(s, pat, s.len() - pat.len())
}

/// `s` without a note in square brackets at its end: where `s` ends with
/// `]`, what stands before the last ` [`.
pub open spec fn without_trailing_bracket(s: Seq<char>) -> Seq<char> {
    if s.len() > 0 && s.last() == ']' {
        match last_match(s, seq![' ', '[']) {
            Some(i) => s.subrange(0, i),
            None => s,
        }
    } else {
        s
    }
}

/// The notes that are taken out of a title wherever they stand.
pub open spec fn title_notes() -> Seq<Seq<char>> {
    seq![
        " (Official Video)"@,
        " (Official Audio)"@,
        " (Official Music Video)"@,
        " [Official Video]"@,
        " [Official Audio]"@,
        " (Visualizer)"@,
        " (Lyrics)"@,
        " (Audio)"@,
        " (Extended)"@,
    ]
}

/// The plain title in `title`: without the notes, without what follows a
/// ` ft. ` or a ` feat. `, without a bracketed note at its end, and without
/// white space around it.
pub open spec fn normalized_title(title: Seq<char>) -> Seq<char> {
    let plain = without_all(title, title_notes());
    let alone = cut_at(cut_at(plain, " ft. "@), " feat. "@);
    trimmed(without_trailing_bracket(alone))
}

/// The clean name for the file named `filename`: artist and title from its
/// stem, the title normalized, both sanitized, with the extension kept. A
/// name without extension or without a delimiter in its stem has none.
pub open spec fn renamed(filename: Seq<char>) -> Option<Seq<char>> {
    let name = base_name(filename);
    match (file_extension(name), artist_and_title(file_stem(name))) {
        (Some(ext), Some((artist, title))) => Some(
            sanitized(trimmed(artist)) + hyphen_delimiter() + sanitized(
                normalized_title(trimmed(title)),
            ) + seq!['.'] + ext,
        ),
        _ => None,
    }
}

/// Where `pat` first stands in `s` at or after `from` is where it first
/// stands in what `s` holds from `from` on.
pub proof fn lemma_first_match_skip(s: Seq<char>, pat: Seq<char>, from: int)
    requires
        0 <= from <= s.len(),
    ensures
        match first_match_from(s, pat, from) {
            Some(i) => first_match(s.skip(from), pat) == Some(i - from),
            None => first_match(s.skip(from), pat) is None,
        },
{
    let t = s.skip(from);
    lemma_first_match_from(s, pat, from);
    lemma_first_match_from(t, pat, 0);
    assert forall|j: int| occurs_at(t, pat, j) <==> occurs_at(s, pat, j + from) && j >= 0 by {
        if 0 <= j && j + pat.len() <= t.len() {
            assert(t.subrange(j, j + pat.len()) == s.subrange(j + from, j + from + pat.len()));
        }
    }
    match first_match_from(s, pat, from) {
        Some(i) => {
            assert(occurs_at(t, pat, i - from));
            match first_match_from(t, pat, 0) {
                Some(k) => {
                    assert(occurs_at(s, pat, k + from));
                    if k < i - from {
                        assert(!occurs_at(s, pat, k + from));
                    }
                    if k > i - from {
                        assert(!occurs_at(t, pat, i - from));
                    }
                },
                None => {
                    assert(!occurs_at(t, pat, i - from));
                },
            }
        },
        None => {
            match first_match_from(t, pat, 0) {
                Some(k) => {
                    assert(occurs_at(s, pat, k + from));
                    assert(!occurs_at(s, pat, k + from));
                },
                None => {},
            }
        },
    }
}

/// The characters `v[from..to]`, added to the end of `out`.
fn extend_from(out: &mut Vec<char>, v: &Vec<char>, from: usize, to: usize)
    requires
        from <= to <= v.len(),
    ensures
        final(out)@ == old(out)@ + v@.subrange(from as int, to as int),
{
    let ghost before = out@;
    let mut i: usize = from;
    assert(before + v@.subrange(from as int, from as int) =~= before);
    while i < to
        invariant
            from <= i <= to <= v.len(),
            out@ == before + v@.subrange(from as int, i as int),
        decreases to - i,
    {
        out.push(v[i]);
        assert(before + v@.subrange(from as int, i + 1) =~= (before + v@.subrange(
            from as int,
            i as int,
        )).push(v[i as int]));
        i = i + 1;
    }
}

/// `v` with every occurrence of `pat` taken out, from left to right.
pub fn remove_all(v: &Vec<char>, pat: &Vec<char>) -> (r: Vec<char>)
    ensures
        r@ == without(v@, pat@),
{
    let mut out: Vec<char> = Vec::new();
    let end = v.len();
    if pat.len() == 0 {
        extend_from(&mut out, v, 0, end);
        assert(v@.subrange(0, end as int) == v@);
        assert(out@ =~= v@);
        return out;
    }
    let mut pos: usize = 0;
    assert(v@.skip(0) == v@);
    assert(out@ + without(v@, pat@) =~= without(v@, pat@));
    loop
        invariant_except_break
            without(v@, pat@) == out@ + without(v@.skip(pos as int), pat@),
        invariant
            pos <= end,
            end == v.len(),
            pat.len() > 0,
        ensures
            out@ == without(v@, pat@),
        decreases end - pos,
    {
        let found = find_from(v, pat, pos);
        let ghost rest = v@.skip(pos as int);
        let ghost had = out@;
        proof {
            lemma_first_match_skip(v@, pat@, pos as int);
            lemma_first_match_from(v@, pat@, pos as int);
        }
        match found {
            Some(i) => {
                assert(occurs_at(v@, pat@, i as int));
                assert(i + pat.len() <= end);
                extend_from(&mut out, v, pos, i);
                proof {
                    assert(rest.subrange(0, i - pos) == v@.subrange(pos as int, i as int));
                    assert(rest.subrange(i - pos + pat.len(), rest.len() as int) == v@.skip(
                        i + pat.len(),
                    ));
                    assert(had + (v@.subrange(pos as int, i as int) + without(
                        v@.skip(i + pat.len()),
                        pat@,
                    )) =~= out@ + without(v@.skip(i + pat.len()), pat@));
                }
                pos = i + pat.len();
            },
            None => {
                extend_from(&mut out, v, pos, end);
                assert(v@.subrange(pos as int, end as int) == rest);
                break;
            },
        }
    }
    out
}

/// `v` up to the first occurrence of `pat`.
pub fn cut_before(v: Vec<char>, pat: &Vec<char>) -> (r: Vec<char>)
    ensures
        r@ == cut_at(v@, pat@),
{
    let found = find_from(&v, pat, 0);
    proof {
        lemma_first_match_from(v@, pat@, 0);
    }
    match found {
        Some(i) => {
            assert(occurs_at(v@, pat@, i as int));
            let mut out: Vec<char> = Vec::new();
            extend_from(&mut out, &v, 0, i);
            assert(out@ =~= v@.subrange(0, i as int));
            out
        },
        None => v,
    }
}

/// The last index at which `pat` stands in `v`.
pub fn rfind(v: &Vec<char>, pat: &Vec<char>) -> (r: Option<usize>)
    ensures
        match r {
            Some(i) => last_match(v@, pat@) == Some(i as int) && i + pat.len() <= v.len(),
            None => last_match(v@, pat@) is None,
        },
{
    if pat.len() > v.len() {
        return None;
    }
    let mut i: usize = v.len() - pat.len();
    loop
        invariant
            i + pat.len() <= v.len(),
            last_match_upto(v@, pat@, i as int) == last_match(v@, pat@),
        decreases i,
    {
        if occurs(v, pat, i) {
            return Some(i);
        }
        if i == 0 {
            assert(last_match_upto(v@, pat@, -1) is None);
            return None;
        }
        i = i - 1;
    }
}

/// `v` without a note in square brackets at its end.
pub fn cut_trailing_bracket(v: Vec<char>) -> (r: Vec<char>)
    ensures
        r@ == without_trailing_bracket(v@),
{
    if v.len() == 0 || v[v.len() - 1] != ']' {
        return v;
    }
    let open = vec![' ', '['];
    assert(open@ =~= seq![' ', '[']);
    match rfind(&v, &open) {
        Some(i) => {
            let mut out: Vec<char> = Vec::new();
            extend_from(&mut out, &v, 0, i);
            assert(out@ =~= v@.subrange(0, i as int));
            out
        },
        None => v,
    }
}

/// The plain title in `title`.
pub fn normalize_title(title: &str) -> (r: String)
    ensures
        r@ == normalized_title(title@),
{
    let notes = vec![
        " (Official Video)",
        " (Official Audio)",
        " (Official Music Video)",
        " [Official Video]",
        " [Official Audio]",
        " (Visualizer)",
        " (Lyrics)",
        " (Audio)",
        " (Extended)",
    ];
    assert(views(notes@) =~= title_notes());
    let ghost all = views(notes@);
    let mut plain = chars_of(title);
    let mut i: usize = 0;
    while i < notes.len()
        invariant
            i <= notes.len(),
            all == views(notes@),
            plain@ == without_all(title@, all.take(i as int)),
        decreases notes.len() - i,
    {
        proof {
            assert(all.take(i + 1).drop_last() == all.take(i as int));
            assert(all.take(i + 1).last() == notes[i as int]@);
        }
        let note = chars_of(notes[i]);
        plain = remove_all(&plain, &note);
        i = i + 1;
    }
    assert(all.take(notes.len() as int) == all);
    let alone = cut_before(cut_before(plain, &chars_of(" ft. ")), &chars_of(" feat. "));
    let bare = cut_trailing_bracket(alone);
    let from = skip_spaces(&bare, 0, bare.len());
    let to = drop_spaces(&bare, from, bare.len());
    assert(bare@.subrange(0, bare.len() as int) == bare@);
    text_of(&bare, from, to)
}

/// The clean name for the file named `filename`, where it has one.
pub fn parse_and_rename(filename: &str) -> (r: Option<String>)
    ensures
        match r {
            Some(name) => renamed(filename@) == Some(name@),
            None => renamed(filename@) is None,
        },
{
    let name = file_name(filename);
    let ext = match extension(name.as_str()) {
        Some(ext) => ext,
        None => {
            return None;
        },
    };
    let stem = stem(name.as_str());
    proof {
        reveal_strlit(" - ");
        reveal_strlit(" \u{2013} ");
        reveal_strlit(".");
        assert(" - "@ =~= hyphen_delimiter());
        assert(" \u{2013} "@ =~= dash_delimiter());
        assert("."@ =~= seq!['.']);
    }
    let halves = match split_once(stem.as_str(), " - ") {
        Some(halves) => Some(halves),
        None => split_once(stem.as_str(), " \u{2013} "),
    };
    match halves {
        Some((artist, title)) => {
            let mut clean = sanitize_filename(trim(artist.as_str()).as_str());
            clean.append(" - ");
            clean.append(
                sanitize_filename(normalize_title(trim(title.as_str()).as_str()).as_str()).as_str(),
            );
            clean.append(".");
            clean.append(ext.as_str());
            Some(clean)
        },
        None => None,
    }
}

} // verus!
