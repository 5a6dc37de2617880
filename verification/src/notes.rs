//! The note list and its model: notes keyed by a unique timestamp.

use crate::clock::now_key;
use vstd::prelude::*;

verus! {

/// A single note. The `date` field is the note's unique key, a timestamp in
/// milliseconds since the epoch.
#[derive(Clone, Debug, PartialEq, Eq, Hash)]
pub struct Note {
    pub title: String,
    pub content: String,
    pub date: i64,
}

/// The application state: the ordered list of notes, newest first.
#[derive(Clone, Debug, PartialEq, Eq, Hash)]
pub struct State {
    pub notes: Vec<Note>,
}

impl Default for State {
    /// An empty list of notes.
    fn default() -> (s: State)
        ensures
            s.notes@.len() == 0,
    {
        State { notes: Vec::new() }
    }
}

/// No two notes in the list share a key.
pub open spec fn keys_unique(notes: Seq<Note>) -> bool {
    forall|i: int, j: int|
        0 <= i < j < notes.len() ==> notes[i].date != notes[j].date
}

/// Some note in the list has the key.
pub open spec fn has_key(notes: Seq<Note>, key: i64) -> bool {
    exists|i: int| 0 <= i < notes.len() && notes[i].date == key
}

/// The position of the note with the key (meaningful when `has_key` holds
/// and the keys are unique).
pub open spec fn index_of_key(notes: Seq<Note>, key: i64) -> int {
    choose|i: int| 0 <= i < notes.len() && notes[i].date == key
}

/// The selection after the note with key `deleted` is removed, before the
/// removal is committed to the list.
///
/// When the deleted note is not the selected one, or is not in the list at
/// all, the selection is unchanged. When it is the selected one: if it was
/// the only note, nothing remains selected; if it was the last element, the
/// one before it is selected; otherwise the one after it.
pub open spec fn adjusted_selection(
    notes: Seq<Note>,
    deleted: i64,
    selection: Option<i64>,
) -> Option<i64> {
    if selection != Some(deleted) {
        selection
    } else if !has_key(notes, deleted) {
        selection
    } else if notes.len() == 1 {
        None
    } else if index_of_key(notes, deleted) == notes.len() - 1 {
        Some(notes[notes.len() - 2].date)
    } else {
        Some(notes[index_of_key(notes, deleted) + 1].date)
    }
}

/// Removing one note keeps the remaining keys unique.
pub proof fn lemma_remove_preserves_unique(notes: Seq<Note>, i: int)
    requires
        keys_unique(notes),
        0 <= i < notes.len(),
    ensures
        keys_unique(notes.remove(i)),
{
    let r = notes.remove(i);
    assert forall|a: int, b: int| 0 <= a < b < r.len() implies r[a].date != r[b].date by {
        let oa = if a < i { a } else { a + 1 };
        let ob = if b < i { b } else { b + 1 };
        assert(r[a] == notes[oa]);
        assert(r[b] == notes[ob]);
    }
}

/// A key other than the one at the removed position is still in the list
/// after the removal.
pub proof fn lemma_remove_keeps_other_keys(notes: Seq<Note>, i: int, key: i64)
    requires
        0 <= i < notes.len(),
        has_key(notes, key),
        notes[i].date != key,
    ensures
        has_key(notes.remove(i), key),
{
    let j = choose|j: int| 0 <= j < notes.len() && notes[j].date == key;
    if j < i {
        assert(notes.remove(i)[j].date == key);
    } else {
        assert(notes.remove(i)[j - 1].date == key);
    }
}

impl State {
    /// Whether no two notes in the list share a key — the condition the
    /// other operations require.
    pub fn keys_are_unique(&self) -> (r: bool)
        ensures
            r == keys_unique(self.notes@),
    {
        let n = self.notes.len();
        let mut i: usize = 0;
        while i < n
            invariant
                n == self.notes@.len(),
                i <= n,
                forall|a: int, b: int|
                    0 <= a < b < n && a < i ==> self.notes@[a].date != self.notes@[b].date,
            decreases n - i,
        {
            let mut j: usize = i + 1;
            while j < n
                invariant
                    n == self.notes@.len(),
                    i < n,
                    i < j <= n,
                    forall|a: int, b: int|
                        0 <= a < b < n && a < i ==> self.notes@[a].date != self.notes@[b].date,
                    forall|b: int| i < b < j ==> self.notes@[i as int].date != self.notes@[b].date,
                decreases n - j,
            {
                if self.notes[i].date == self.notes[j].date {
                    return false;
                }
                j += 1;
            }
            i += 1;
        }
        true
    }

    /// The position of the note with the given key, or `None` when no note
    /// has it.
    pub fn position_of(&self, key: i64) -> (r: Option<usize>)
        requires
            keys_unique(self.notes@),
        ensures
            match r {
                Some(i) => has_key(self.notes@, key)
                    && i < self.notes@.len()
                    && self.notes@[i as int].date == key
                    && i as int == index_of_key(self.notes@, key),
                None => !has_key(self.notes@, key),
            },
    {
        let n = self.notes.len();
        let mut i: usize = 0;
        while i < n
            invariant
                keys_unique(self.notes@),
                n == self.notes@.len(),
                i <= n,
                forall|k: int| 0 <= k < i ==> self.notes@[k].date != key,
            decreases n - i,
        {
            if self.notes[i].date == key {
                proof {
                    let j = index_of_key(self.notes@, key);
                    assert(0 <= j < self.notes@.len() && self.notes@[j].date == key);
                }
                return Some(i);
            }
            i += 1;
        }
        None
    }

    /// Decide what the selection becomes once the note with key `deleted` is
    /// removed, without touching the list itself.
    pub fn adjust_selection(&self, deleted: i64, selection: Option<i64>) -> (r: Option<i64>)
        requires
            keys_unique(self.notes@),
        ensures
            r == adjusted_selection(self.notes@, deleted, selection),
    {
        let selected_matches = match selection {
            Some(k) => k == deleted,
            None => false,
        };
        if !selected_matches {
            return selection;
        }
        match self.position_of(deleted) {
            None => selection,
            Some(i) => {
                let n = self.notes.len();
                if n == 1 {
                    None
                } else if i == n - 1 {
                    Some(self.notes[n - 2].date)
                } else {
                    Some(self.notes[i + 1].date)
                }
            },
        }
    }

    /// Delete the note with the given key: the selection is adjusted first,
    /// then the note is removed. A key that is not in the list removes
    /// nothing and leaves the selection unchanged. A selection that named an
    /// existing key before the call names an existing key, or nothing, after
    /// it.
    pub fn delete_note(&mut self, key: i64, selection: Option<i64>) -> (r: Option<i64>)
        requires
            keys_unique(old(self).notes@),
        ensures
            r == adjusted_selection(old(self).notes@, key, selection),
            has_key(old(self).notes@, key) ==> final(self).notes@ == old(self).notes@.remove(
                index_of_key(old(self).notes@, key),
            ),
            !has_key(old(self).notes@, key) ==> final(self).notes@ == old(self).notes@,
            keys_unique(final(self).notes@),
            (match selection {
                Some(s) => has_key(old(self).notes@, s),
                None => true,
            }) ==> (match r {
                Some(s) => has_key(final(self).notes@, s),
                None => true,
            }),
    {
        let r = self.adjust_selection(key, selection);
        match self.position_of(key) {
            Some(i) => {
                proof {
                    lemma_remove_preserves_unique(self.notes@, i as int);
                    let notes = self.notes@;
                    match r {
                        Some(s) => {
                            if s != key && has_key(notes, s) {
                                let j = choose|j: int|
                                    0 <= j < notes.len() && notes[j].date == s;
                                assert(notes[j].date != notes[i as int].date);
                                lemma_remove_keeps_other_keys(notes, i as int, s);
                            }
                            if selection == Some(key) {
                                if notes.len() > 1 {
                                    if i as int == notes.len() - 1 {
                                        assert(notes.remove(i as int)[notes.len() - 2].date
                                            == s);
                                    } else {
                                        assert(notes.remove(i as int)[i as int].date == s);
                                    }
                                }
                            }
                        },
                        None => {},
                    }
                }
                self.notes.remove(i);
            },
            None => {},
        }
        r
    }

    /// Add a note with a fresh key at the front of the list and select it.
    pub fn add_note(&mut self, date: i64, title: String, content: String) -> (sel: i64)
        requires
            keys_unique(old(self).notes@),
            !has_key(old(self).notes@, date),
        ensures
            final(self).notes@ == old(self).notes@.insert(
                0,
                (Note { title: title, content: content, date: date }),
            ),
            sel == date,
            keys_unique(final(self).notes@),
            has_key(final(self).notes@, sel),
    {
        self.notes.insert(0, Note { title, content, date });
        proof {
            let notes = self.notes@;
            assert forall|a: int, b: int| 0 <= a < b < notes.len() implies notes[a].date
                != notes[b].date by {
                if a == 0 {
                    assert(notes[b] == old(self).notes@[b - 1]);
                } else {
                    assert(notes[a] == old(self).notes@[a - 1]);
                    assert(notes[b] == old(self).notes@[b - 1]);
                }
            }
            assert(self.notes@[0].date == date);
        }
        date
    }

    /// Add a note keyed by the current clock reading and select it. When the
    /// clock hands back a key the list already holds, nothing changes and
    /// `None` says so; otherwise the new note stands at the front and its key
    /// is returned. On an empty list no key can collide, so a note is always
    /// added there.
    pub fn add_note_now(&mut self, title: String, content: String) -> (r: Option<i64>)
        requires
            keys_unique(old(self).notes@),
        ensures
            keys_unique(final(self).notes@),
            r is None ==> old(self).notes@.len() > 0,
            match r {
                Some(k) => !has_key(old(self).notes@, k) && final(self).notes@ == old(
                    self,
                ).notes@.insert(0, (Note { title: title, content: content, date: k })),
                None => final(self).notes@ == old(self).notes@,
            },
    {
        let key = now_key();
        match self.position_of(key) {
            Some(_) => None,
            None => Some(self.add_note(key, title, content)),
        }
    }

    /// Give the selected note a new title. Exactly the entry whose key the
    /// selection names changes, and only its title; every other entry is
    /// untouched. With no selection, or a selected key that is not in the
    /// list, nothing changes.
    pub fn edit_title(&mut self, selection: Option<i64>, text: String)
        requires
            keys_unique(old(self).notes@),
        ensures
            keys_unique(final(self).notes@),
            final(self).notes@.len() == old(self).notes@.len(),
            match selection {
                None => final(self).notes@ == old(self).notes@,
                Some(k) => if has_key(old(self).notes@, k) {
                    let i = index_of_key(old(self).notes@, k);
                    &&& final(self).notes@[i].title == text
                    &&& final(self).notes@[i].content == old(self).notes@[i].content
                    &&& final(self).notes@[i].date == old(self).notes@[i].date
                    &&& forall|j: int|
                        0 <= j < old(self).notes@.len() && j != i ==> final(self).notes@[j]
                            == old(self).notes@[j]
                } else {
                    final(self).notes@ == old(self).notes@
                },
            },
    {
        let sel = match selection {
            Some(k) => self.position_of(k),
            None => None,
        };
        match sel {
            Some(i) => {
                let note = self.notes.remove(i);
                let edited = Note { title: text, content: note.content, date: note.date };
                self.notes.insert(i, edited);
                proof {
                    assert(self.notes@ =~= old(self).notes@.update(i as int, edited));
                }
            },
            None => {},
        }
    }

    /// Give the selected note a new content. The same rules hold as for
    /// `edit_title`, with the content in place of the title.
    pub fn edit_content(&mut self, selection: Option<i64>, text: String)
        requires
            keys_unique(old(self).notes@),
        ensures
            keys_unique(final(self).notes@),
            final(self).notes@.len() == old(self).notes@.len(),
            match selection {
                None => final(self).notes@ == old(self).notes@,
                Some(k) => if has_key(old(self).notes@, k) {
                    let i = index_of_key(old(self).notes@, k);
                    &&& final(self).notes@[i].content == text
                    &&& final(self).notes@[i].title == old(self).notes@[i].title
                    &&& final(self).notes@[i].date == old(self).notes@[i].date
                    &&& forall|j: int|
                        0 <= j < old(self).notes@.len() && j != i ==> final(self).notes@[j]
                            == old(self).notes@[j]
                } else {
                    final(self).notes@ == old(self).notes@
                },
            },
    {
        let sel = match selection {
            Some(k) => self.position_of(k),
            None => None,
        };
        match sel {
            Some(i) => {
                let note = self.notes.remove(i);
                let edited = Note { title: note.title, content: text, date: note.date };
                self.notes.insert(i, edited);
                proof {
                    assert(self.notes@ =~= old(self).notes@.update(i as int, edited));
                }
            },
            None => {},
        }
    }
}

} // verus!
