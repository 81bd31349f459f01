//! Paths as text, with `/` between their components: the last component,
//! its stem and extension, and the path of a name under a directory.

use crate::text::{chars_of, last_index_of, lemma_last_index_of, push_char, rfind_char, text_of};
use vstd::prelude::*;
use vstd::string::StringExecFns;

verus! {

/// The last component of `path`: what follows its last `/`, or all of it
/// where it holds none.
pub open spec fn base_name(path: Seq<char>) -> Seq<char> {
    match last_index_of(path, '/') {
        Some(i) => path.subrange(i + 1, path.len() as int),
        None => path,
    }
}

/// The index of the dot that parts the stem of `name` from its extension:
/// its last dot, unless that is its first character.
pub open spec fn extension_dot(name: Seq<char>) -> Option<int> {
    match last_index_of(name, '.') {
        Some(i) => if i > 0 {
            Some(i)
        } else {
            None
        },
        None => None,
    }
}

/// `name` without its extension: what stands before its last dot. A name
/// with no dot, or with none but its first character, is its own stem.
pub open spec fn file_stem(name: Seq<char>) -> Seq<char> {
    match extension_dot(name) {
        Some(i) => name.subrange(0, i),
        None => name,
    }
}

/// The extension of `name`: what follows its last dot, where it has one
/// that is not its first character.
pub open spec fn file_extension(name: Seq<char>) -> Option<Seq<char>> {
    match extension_dot(name) {
        Some(i) => Some(name.subrange(i + 1, name.len() as int)),
        None => None,
    }
}

/// The path of `name` under the directory `base`. A `name` that begins
/// with `/` stands for itself; otherwise one `/` parts the two, unless
/// `base` is empty or ends with one.
pub open spec fn joined(base: Seq<char>, name: Seq<char>) -> Seq<char> {
    if name.len() > 0 && name[0] == '/' {
        name
    } else if base.len() == 0 || base.last() == '/' {
        base + name
    } else {
        base.push('/') + name
    }
}

/// The last component of `path`.
pub fn file_name(path: &str) -> (r: String)
    ensures
        r@ == base_name(path@),
{
    let v = chars_of(path);
    match rfind_char(&v, '/') {
        Some(i) => text_of(&v, i + 1, v.len()),
        None => {
            assert(v@.subrange(0, v.len() as int) == v@);
            text_of(&v, 0, v.len())
        },
    }
}

/// The index of the dot that parts the stem of `v` from its extension.
fn find_extension_dot(v: &Vec<char>) -> (r: Option<usize>)
    ensures
        match r {
            Some(i) => extension_dot(v@) == Some(i as int) && 0 < i < v.len(),
            None => extension_dot(v@) is None,
        },
{
    match rfind_char(v, '.') {
        Some(i) => if i > 0 {
            Some(i)
        } else {
            None
        },
        None => None,
    }
}

/// `name` without its extension.
pub fn stem(name: &str) -> (r: String)
    ensures
        r@ == file_stem(name@),
{
    let v = chars_of(name);
    match find_extension_dot(&v) {
        Some(i) => text_of(&v, 0, i),
        None => {
            assert(v@.subrange(0, v.len() as int) == v@);
            text_of(&v, 0, v.len())
        },
    }
}

/// The extension of `name`, where it has one.
pub fn extension(name: &str) -> (r: Option<String>)
    ensures
        match r {
            Some(e) => file_extension(name@) == Some(e@),
            None => file_extension(name@) is None,
        },
{
    let v = chars_of(name);
    match find_extension_dot(&v) {
        Some(i) => Some(text_of(&v, i + 1, v.len())),
        None => None,
    }
}

/// The path of `name` under the directory `base`.
pub fn join(base: &str, name: &str) -> (r: String)
    ensures
        r@ == joined(base@, name@),
{
    let b = chars_of(base);
    let n = chars_of(name);
    if n.len() > 0 && n[0] == '/' {
        return String::from_str(name);
    }
    let mut r = String::from_str(base);
    if b.len() > 0 && b[b.len() - 1] != '/' {
        push_char(&mut r, '/');
    }
    r.append(name);
    r
}

/// Whether `c` may not stand in a file name on some file system: one of
/// `/ \ : * ? " < > |`.
pub open spec fn is_reserved(c: char) -> bool {
    ||| c == '/'
    ||| c == '\\'
    ||| c == ':'
    ||| c == '*'
    ||| c == '?'
    ||| c == '"'
    ||| c == '<'
    ||| c == '>'
    ||| c == '|'
}

/// `s` with `_` in place of each reserved character.
pub open spec fn sanitized(s: Seq<char>) -> Seq<char> {
    Seq::new(
        s.len(),
        |i: int|
            if is_reserved(s[i]) {
                '_'
            } else {
                s[i]
            },
    )
}

/// `s` with `_` in place of each character that may not stand in a file
/// name.
pub fn sanitize_filename(s: &str) -> (r: String)
    ensures
        r@ == sanitized(s@),
{
    let v = chars_of(s);
    let mut r = String::new();
    let mut i: usize = 0;
    while i < v.len()
        invariant
            i <= v.len(),
            r@ == sanitized(v@.take(i as int)),
        decreases v.len() - i,
    {
        let c = v[i];
        let reserved = c == '/' || c == '\\' || c == ':' || c == '*' || c == '?' || c == '"' || c
            == '<' || c == '>' || c == '|';
        assert(sanitized(v@.take(i + 1)) == sanitized(v@.take(i as int)).push(
            if is_reserved(c) {
                '_'
            } else {
                c
            },
        ));
        if reserved {
            push_char(&mut r, '_');
        } else {
            push_char(&mut r, c);
        }
        i = i + 1;
    }
    assert(v@.take(v.len() as int) == v@);
    r
}

/// A sanitized text holds no reserved character, and so no `/`.
pub proof fn lemma_sanitized_is_plain(s: Seq<char>)
    ensures
        sanitized(s).len() == s.len(),
        forall|i: int| 0 <= i < s.len() ==> !is_reserved(#[trigger] sanitized(s)[i]),
        !sanitized(s).contains('/'),
{
}

/// The last component of a path holds no `/`, and is its own last
/// component.
pub proof fn lemma_base_name_is_plain(path: Seq<char>)
    ensures
        !base_name(path).contains('/'),
        base_name(base_name(path)) == base_name(path),
{
    lemma_last_index_of(path, '/');
    let b = base_name(path);
    assert forall|j: int| 0 <= j < b.len() implies b[j] != '/' by {
        match last_index_of(path, '/') {
            Some(i) => {
                assert(b[j] == path[i + 1 + j]);
            },
            None => {},
        }
    }
    lemma_last_index_of(b, '/');
    match last_index_of(b, '/') {
        Some(k) => {
            assert(b[k] == '/');
        },
        None => {},
    }
}

/// A path joined from a directory and a name without `/` has that name as
/// its last component.
pub proof fn lemma_base_name_of_joined(base: Seq<char>, name: Seq<char>)
    requires
        !name.contains('/'),
        base.len() > 0,
    ensures
        base_name(joined(base, name)) == name,
{
    let p = joined(base, name);
    lemma_last_index_of(p, '/');
    let lead = (p.len() - name.len()) as int;
    assert(name.len() == 0 || name[0] != '/') by {
        if name.len() > 0 {
            assert(name.contains(name[0]));
        }
    }
    assert(lead > 0 && p[lead - 1] == '/');
    assert forall|j: int| lead <= j < p.len() implies p[j] != '/' by {
        assert(p[j] == name[j - lead]);
        assert(name.contains(name[j - lead]));
    }
    match last_index_of(p, '/') {
        Some(i) => {
            assert(i == lead - 1) by {
                if i < lead - 1 {
                    assert(p[lead - 1] != '/');
                }
            }
            assert(p.subrange(i + 1, p.len() as int) =~= name);
        },
        None => {
            assert(p[lead - 1] != '/');
        },
    }
}

} // verus!
