//! Notes and what the index keeps about each.

use vstd::prelude::*;

verus! {

/// What the index keeps about a note: where the cursor was left.
#[derive(Debug, Clone, Copy, PartialEq, Eq)]
pub struct NoteMeta {
    pub selection: Option<(u32, u32)>,
}

impl NoteMeta {
    /// What the index keeps about a note that it sees for the first time.
    pub open spec fn fresh() -> NoteMeta {
        NoteMeta { selection: None }
    }
}

impl Default for NoteMeta {
    fn default() -> (meta: Self)
        ensures
            meta == NoteMeta::fresh(),
    {
        NoteMeta { selection: None }
    }
}

/// A note: its text and what the index keeps about it.
#[derive(Debug)]
pub struct Note {
    pub content: String,
    pub meta: NoteMeta,
}

impl Note {
    /// An empty note.
    pub fn new() -> (note: Self)
        ensures
            note.content@ == Seq::<char>::empty(),
            note.meta == NoteMeta::fresh(),
    {
        Note { meta: NoteMeta { selection: None }, content: String::new() }
    }
}

} // verus!
