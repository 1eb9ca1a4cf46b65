//! Where the editors were left.

use vstd::prelude::*;
use crate::table::Table;

verus! {

/// Where the cursor of an editor was left.
#[derive(Debug, Clone, Copy, PartialEq, Eq)]
pub struct EditorState {
    pub selection: (usize, usize),
}

/// The editor of a pinned note: whether it is folded, and where its cursor
/// was left.
#[derive(Debug, Clone, Copy, PartialEq, Eq)]
pub struct PinnedEditorState {
    pub folded: bool,
    pub note_state: EditorState,
}

/// The editors of the pinned notes and of the open notes, by note path.
pub struct EditorStates {
    pinned: Table<PinnedEditorState>,
    notes: Table<EditorState>,
}

impl EditorStates {
    /// The state of the editors of the pinned notes.
    pub closed spec fn pinned_states(&self) -> Seq<(Seq<char>, PinnedEditorState)> {
        self.pinned@
    }

    /// The state of the editors of the open notes.
    pub closed spec fn note_states(&self) -> Seq<(Seq<char>, EditorState)> {
        self.notes@
    }

    /// The states of no editor.
    pub fn new() -> (states: Self)
        ensures
            states.pinned_states().len() == 0,
            states.note_states().len() == 0,
    {
        EditorStates { pinned: Table::new(), notes: Table::new() }
    }

    /// Where the editor of the pinned note at `path` was left.
    pub fn pinned(&self, path: &str) -> (r: Option<PinnedEditorState>)
        ensures
            r == crate::table::value_of(self.pinned_states(), path@),
    {
        match self.pinned.get(path) {
            Some(state) => Some(*state),
            None => None,
        }
    }

    /// Where the editor of the note at `path` was left.
    pub fn note(&self, path: &str) -> (r: Option<EditorState>)
        ensures
            r == crate::table::value_of(self.note_states(), path@),
    {
        match self.notes.get(path) {
            Some(state) => Some(*state),
            None => None,
        }
    }

    /// Records where the editor of the pinned note at `path` is.
    pub fn set_pinned(&mut self, path: &str, state: PinnedEditorState)
        ensures
            final(self).pinned_states() == crate::table::with_entry(
                old(self).pinned_states(),
                path@,
                state,
            ),
            final(self).note_states() == old(self).note_states(),
    {
        self.pinned.insert(path.to_owned(), state);
    }

    /// Records where the editor of the note at `path` is.
    pub fn set_note(&mut self, path: &str, state: EditorState)
        ensures
            final(self).note_states() == crate::table::with_entry(
                old(self).note_states(),
                path@,
                state,
            ),
            final(self).pinned_states() == old(self).pinned_states(),
    {
        self.notes.insert(path.to_owned(), state);
    }
}

} // verus!
