//! Looking audio up: the table from keys to what is held under them, and
//! the capability of listing one's audio by playlist.

use crate::audio::{AudioError, AudioKey, AudioKeyView, Playlist};
use vstd::prelude::*;

verus! {

/// The map that a list of entries stands for: each key with what its first
/// entry holds.
spec fn table_of<V: View>(entries: Seq<(AudioKey, V)>) -> Map<AudioKeyView, V::V>
    decreases entries.len(),
{
    if entries.len() == 0 {
        Map::empty()
    } else {
        table_of(entries.drop_first()).insert(entries[0].0@, entries[0].1@)
    }
}

/// Whether no entry of `entries` before index `i` has the key `k`.
spec fn absent_before<V>(entries: Seq<(AudioKey, V)>, k: AudioKeyView, i: int) -> bool {
    forall|j: int| 0 <= j < i && j < entries.len() ==> (#[trigger] entries[j]).0@ != k
}

/// The table holds under a key what the first entry with that key holds.
proof fn lemma_table_first<V: View>(entries: Seq<(AudioKey, V)>, k: AudioKeyView, i: int)
    requires
        0 <= i < entries.len(),
        entries[i].0@ == k,
        absent_before(entries, k, i),
    ensures
        table_of(entries).contains_key(k),
        table_of(entries)[k] == entries[i].1@,
    decreases i,
{
    if i > 0 {
        let rest = entries.drop_first();
        assert(entries[0].0@ != k);
        assert forall|j: int| 0 <= j < i - 1 && j < rest.len() implies (#[trigger] rest[j]).0@
            != k by {
            assert(rest[j] == entries[j + 1]);
        }
        lemma_table_first(rest, k, i - 1);
    }
}

/// The table holds nothing under a key that no entry has.
proof fn lemma_table_absent<V: View>(entries: Seq<(AudioKey, V)>, k: AudioKeyView)
    requires
        absent_before(entries, k, entries.len() as int),
    ensures
        !table_of(entries).contains_key(k),
    decreases entries.len(),
{
    if entries.len() > 0 {
        let rest = entries.drop_first();
        assert(entries[0].0@ != k);
        assert forall|j: int| 0 <= j < rest.len() implies (#[trigger] rest[j]).0@ != k by {
            assert(rest[j] == entries[j + 1]);
        }
        lemma_table_absent(rest, k);
    }
}

/// A new entry in place of the first with its key puts its value under
/// that key and leaves the other keys as they were.
proof fn lemma_table_update<V: View>(entries: Seq<(AudioKey, V)>, i: int, e: (AudioKey, V))
    requires
        0 <= i < entries.len(),
        entries[i].0@ == e.0@,
        absent_before(entries, e.0@, i),
    ensures
        table_of(entries.update(i, e)) == table_of(entries).insert(e.0@, e.1@),
    decreases i,
{
    let after = entries.update(i, e);
    if i == 0 {
        assert(after.drop_first() == entries.drop_first());
        assert(table_of(after) =~= table_of(entries).insert(e.0@, e.1@));
    } else {
        let rest = entries.drop_first();
        assert(entries[0].0@ != e.0@);
        assert forall|j: int| 0 <= j < i - 1 && j < rest.len() implies (#[trigger] rest[j]).0@
            != e.0@ by {
            assert(rest[j] == entries[j + 1]);
        }
        lemma_table_update(rest, i - 1, e);
        assert(after.drop_first() == rest.update(i - 1, e));
        assert(table_of(after) =~= table_of(entries).insert(e.0@, e.1@));
    }
}

/// A new last entry with a key that no entry had puts its value under that
/// key and leaves the other keys as they were.
proof fn lemma_table_push<V: View>(entries: Seq<(AudioKey, V)>, e: (AudioKey, V))
    requires
        absent_before(entries, e.0@, entries.len() as int),
    ensures
        table_of(entries.push(e)) == table_of(entries).insert(e.0@, e.1@),
    decreases entries.len(),
{
    let after = entries.push(e);
    if entries.len() == 0 {
        assert(after.drop_first() == entries);
        assert(table_of(after) =~= table_of(entries).insert(e.0@, e.1@));
    } else {
        let rest = entries.drop_first();
        assert(entries[0].0@ != e.0@);
        assert forall|j: int| 0 <= j < rest.len() implies (#[trigger] rest[j]).0@ != e.0@ by {
            assert(rest[j] == entries[j + 1]);
        }
        lemma_table_push(rest, e);
        assert(after.drop_first() == rest.push(e));
        assert(table_of(after) =~= table_of(entries).insert(e.0@, e.1@));
    }
}

/// A table from keys to values. Its view is the map from the view of each
/// key that it holds to the view of the value held under it.
#[derive(Clone, Debug)]
pub struct KeyTable<V> {
    entries: Vec<(AudioKey, V)>,
}

impl<V: View> View for KeyTable<V> {
    type V = Map<AudioKeyView, V::V>;

    closed spec fn view(&self) -> Map<AudioKeyView, V::V> {
        table_of(self.entries@)
    }
}

impl<V: View> KeyTable<V> {
    /// The table that holds nothing.
    pub fn new() -> (r: Self)
        ensures
            r@ == Map::<AudioKeyView, V::V>::empty(),
    {
        KeyTable { entries: Vec::new() }
    }

    /// The index of the first entry under `key`.
    fn position(&self, key: &AudioKey) -> (r: Option<usize>)
        ensures
            match r {
                Some(i) => {
                    &&& i < self.entries.len()
                    &&& self.entries[i as int].0@ == key@
                    &&& absent_before(self.entries@, key@, i as int)
                },
                None => absent_before(self.entries@, key@, self.entries.len() as int),
            },
    {
        let mut i: usize = 0;
        while i < self.entries.len()
            invariant
                i <= self.entries.len(),
                absent_before(self.entries@, key@, i as int),
            decreases self.entries.len() - i,
        {
            if self.entries[i].0 == *key {
                return Some(i);
            }
            i = i + 1;
        }
        None
    }

    /// What the table holds under `key`.
    pub fn get(&self, key: &AudioKey) -> (r: Option<&V>)
        ensures
            match r {
                Some(v) => self@.contains_key(key@) && self@[key@] == v@,
                None => !self@.contains_key(key@),
            },
    {
        match self.position(key) {
            Some(i) => {
                proof {
                    lemma_table_first(self.entries@, key@, i as int);
                }
                Some(&self.entries[i].1)
            },
            None => {
                proof {
                    lemma_table_absent(self.entries@, key@);
                }
                None
            },
        }
    }

    /// Puts `value` under `key`, in place of what the table held there.
    pub fn insert(&mut self, key: AudioKey, value: V)
        ensures
            final(self)@ == old(self)@.insert(key@, value@),
    {
        match self.position(&key) {
            Some(i) => {
                proof {
                    lemma_table_update(self.entries@, i as int, (key, value));
                }
                self.entries.set(i, (key, value));
            },
            None => {
                proof {
                    lemma_table_push(self.entries@, (key, value));
                }
                self.entries.push((key, value));
            },
        }
    }
}

/// Something that can list the audio it knows, by playlist.
pub trait AudioIndex {
    /// A name by which a person knows it.
    fn name(&self) -> &str;

    /// Every playlist it knows: the named ones first, then, where some
    /// audio lies in none of them, the one for uncategorized audio.
    fn list_playlists(&self) -> Result<Vec<Playlist>, AudioError>;
}

} // verus!
