//! The selection-transfer rules, stated and proved over the model.

use crate::notes::{adjusted_selection, has_key, index_of_key, keys_unique, Note};
use vstd::prelude::*;

verus! {

/// When the keys are unique, the position of a note's key is that note's
/// position.
pub proof fn lemma_key_position(notes: Seq<Note>, i: int)
    requires
        keys_unique(notes),
        0 <= i < notes.len(),
    ensures
        has_key(notes, notes[i].date),
        index_of_key(notes, notes[i].date) == i,
{
    assert(has_key(notes, notes[i].date));
    let j = index_of_key(notes, notes[i].date);
    assert(notes[j].date == notes[i].date);
}

/// Deleting the selected note from a list that holds only that note leaves
/// nothing selected.
pub proof fn lemma_delete_sole_note(notes: Seq<Note>, key: i64)
    requires
        notes.len() == 1,
        notes[0].date == key,
    ensures
        adjusted_selection(notes, key, Some(key)) is None,
{
    assert(has_key(notes, key));
}

/// Deleting the selected note from the end of a list of two or more selects
/// the note before it.
pub proof fn lemma_delete_selected_last(notes: Seq<Note>, key: i64)
    requires
        keys_unique(notes),
        notes.len() >= 2,
        notes[notes.len() - 1].date == key,
    ensures
        adjusted_selection(notes, key, Some(key)) == Some(notes[notes.len() - 2].date),
{
    lemma_key_position(notes, notes.len() - 1);
}

/// Deleting the selected note from any position but the last, in a list of
/// two or more, selects the note after it.
pub proof fn lemma_delete_selected_inner(notes: Seq<Note>, i: int, key: i64)
    requires
        keys_unique(notes),
        notes.len() >= 2,
        0 <= i < notes.len() - 1,
        notes[i].date == key,
    ensures
        adjusted_selection(notes, key, Some(key)) == Some(notes[i + 1].date),
{
    lemma_key_position(notes, i);
}

/// Deleting a note that is not the selected one never changes the selection.
pub proof fn lemma_delete_unselected(notes: Seq<Note>, key: i64, selection: Option<i64>)
    requires
        selection != Some(key),
    ensures
        adjusted_selection(notes, key, selection) == selection,
{
}

} // verus!
