//! The cache of one document.
//!
//! A document of the store is read when it is first asked for, and then kept.
//! Every later access uses the copy that is kept and leaves the store alone,
//! until the copy is dropped on request. The cell decides; reading and
//! writing the store is done by whoever holds the cell, step by step: it asks
//! the cell what is next, does it, and tells the cell what came of it.

use vstd::prelude::*;

verus! {

/// How a document is accessed.
#[derive(Debug, Clone, Copy, PartialEq, Eq, Structural)]
pub enum Access {
    /// Its copy is looked at.
    Read,
    /// Its copy is changed, and the change goes to the store.
    Write,
}

/// What is done next for an access.
#[derive(Debug, Clone, Copy, PartialEq, Eq, Structural)]
pub enum Step {
    /// The document is read from the store and handed to the cell.
    Load,
    /// The access is applied to the copy that the cell keeps.
    Apply,
}

/// What follows when an access was applied.
#[derive(Debug, Clone, Copy, PartialEq, Eq, Structural)]
pub enum Followup {
    /// Nothing: the access is done.
    Done,
    /// The copy is written to the store before the access returns.
    Persist,
}

/// What a document is made of when the store was asked for it: the
/// document, and whether it has to be written to the store first.
pub struct Fresh<D> {
    pub document: D,
    pub persist: bool,
}

/// What is done next for an access to a cell that holds `kept`: the store is
/// asked only where nothing is kept.
pub open spec fn next_step<D>(kept: Option<D>) -> Step {
    match kept {
        Some(_) => Step::Apply,
        None => Step::Load,
    }
}

/// What a cell holds after `document` was handed in: the first document
/// stays, so that everyone sees the same one until the cell is emptied.
pub open spec fn after_load<D>(kept: Option<D>, document: D) -> Option<D> {
    match kept {
        Some(first) => Some(first),
        None => Some(document),
    }
}

/// What follows an access that was applied: a write goes to the store, a
/// read does not.
pub open spec fn followup_of(access: Access) -> Followup {
    match access {
        Access::Read => Followup::Done,
        Access::Write => Followup::Persist,
    }
}

/// The document that an access starts from when the store was asked: what
/// the store held, or the default where it held nothing. The default is
/// written back where the document asks for that.
pub open spec fn fresh_of<D>(found: Option<D>, default: D, persist_default: bool) -> Fresh<D> {
    match found {
        Some(document) => Fresh { document, persist: false },
        None => Fresh { document: default, persist: persist_default },
    }
}

/// The cache of one document: empty, or holding its copy.
pub struct Cached<D> {
    kept: Option<D>,
}

impl<D> View for Cached<D> {
    type V = Option<D>;

    closed spec fn view(&self) -> Option<D> {
        self.kept
    }
}

impl<D> Cached<D> {
    /// An empty cell.
    pub fn new() -> (cell: Self)
        ensures
            cell@ is None,
    {
        Cached { kept: None }
    }

    /// Whether the cell holds a copy.
    pub fn is_loaded(&self) -> (b: bool)
        ensures
            b == self@ is Some,
    {
        self.kept.is_some()
    }

    /// What is done next for an access.
    pub fn begin(&self) -> (step: Step)
        ensures
            step == next_step(self@),
    {
        match &self.kept {
            Some(_) => Step::Apply,
            None => Step::Load,
        }
    }

    /// Takes the document that was read from the store. A cell that holds a
    /// copy keeps it.
    pub fn loaded(&mut self, document: D)
        ensures
            final(self)@ == after_load(old(self)@, document),
            next_step(final(self)@) == Step::Apply,
    {
        if self.kept.is_none() {
            self.kept = Some(document);
        }
    }

    /// The copy, to look at.
    pub fn get(&self) -> (r: Option<&D>)
        ensures
            r == match self@ {
                Some(document) => Some(&document),
                None => None,
            },
    {
        self.kept.as_ref()
    }

    /// Takes the copy out, to change it. The cell is empty until the changed
    /// copy is put back with `put`.
    pub fn take(&mut self) -> (r: Option<D>)
        ensures
            r == old(self)@,
            final(self)@ is None,
    {
        self.kept.take()
    }

    /// Keeps `document` as the copy.
    pub fn put(&mut self, document: D)
        ensures
            final(self)@ == Some(document),
    {
        self.kept = Some(document);
    }

    /// Applies a read to the copy.
    pub fn read<T, F: FnOnce(&D) -> T>(&self, accessor: F) -> (r: Option<T>)
        requires
            self@ matches Some(document) ==> accessor.requires((&document,)),
        ensures
            match self@ {
                Some(document) => r matches Some(value) && accessor.ensures((&document,), value),
                None => r is None,
            },
    {
        match &self.kept {
            Some(document) => Some(accessor(document)),
            None => None,
        }
    }

    /// Applies a write to the copy: the mutator gets the copy and gives back
    /// the changed copy with its result. The changed copy is kept; it is to
    /// be written to the store before the access returns.
    pub fn write<T, F: FnOnce(D) -> (D, T)>(&mut self, mutator: F) -> (r: Option<T>)
        requires
            old(self)@ matches Some(document) ==> mutator.requires((document,)),
        ensures
            match old(self)@ {
                Some(document) => {
                    &&& r matches Some(value)
                    &&& final(self)@ matches Some(changed)
                    &&& mutator.ensures((document,), (changed, value))
                },
                None => r is None && final(self)@ is None,
            },
    {
        match self.kept.take() {
            Some(document) => {
                let (changed, value) = mutator(document);
                self.kept = Some(changed);
                Some(value)
            },
            None => None,
        }
    }

    /// Drops the copy: the next access asks the store.
    pub fn invalidate(&mut self)
        ensures
            final(self)@ is None,
            next_step(final(self)@) == Step::Load,
    {
        self.kept = None;
    }
}

/// What follows an access that was applied.
pub fn followup(access: Access) -> (next: Followup)
    ensures
        next == followup_of(access),
{
    match access {
        Access::Read => Followup::Done,
        Access::Write => Followup::Persist,
    }
}

/// The document that an access starts from when the store was asked.
pub fn fresh<D>(found: Option<D>, default: D, persist_default: bool) -> (r: Fresh<D>)
    ensures
        r == fresh_of(found, default, persist_default),
{
    match found {
        Some(document) => Fresh { document, persist: false },
        None => Fresh { document: default, persist: persist_default },
    }
}

/// A cell together with what the store holds of its document: the model in
/// which the steps of this file are put together.
pub struct Stored<D> {
    /// What the store holds; `None` where the document is missing.
    pub store: Option<D>,
    /// What the cell keeps.
    pub kept: Option<D>,
}

impl<D> Stored<D> {
    /// The state after an access was begun: where the cell asked for it, the
    /// store was read, a missing document was made up by the default (and
    /// written where that is asked for), and the document was handed in.
    pub open spec fn accessed(self, default: D, persist_default: bool) -> Stored<D> {
        match next_step(self.kept) {
            Step::Apply => self,
            Step::Load => {
                let fresh = fresh_of(self.store, default, persist_default);
                Stored {
                    store: if fresh.persist {
                        Some(fresh.document)
                    } else {
                        self.store
                    },
                    kept: after_load(self.kept, fresh.document),
                }
            },
        }
    }

    /// The document that an access sees.
    pub open spec fn seen(self, default: D, persist_default: bool) -> D {
        self.accessed(default, persist_default).kept->0
    }

    /// The state after a write left the copy as `changed` and was followed
    /// up.
    pub open spec fn written(self, changed: D) -> Stored<D> {
        match followup_of(Access::Write) {
            Followup::Persist => Stored { store: Some(changed), kept: Some(changed) },
            Followup::Done => Stored { store: self.store, kept: Some(changed) },
        }
    }

    /// The state after the copy was dropped.
    pub open spec fn invalidated(self) -> Stored<D> {
        Stored { store: self.store, kept: None }
    }

    /// The state after the document was changed in the store by someone
    /// else.
    pub open spec fn changed_outside(self, document: D) -> Stored<D> {
        Stored { store: Some(document), kept: self.kept }
    }
}

/// The store is read once: an access to a cell that keeps a copy changes
/// nothing, and so does the second of two accesses in a row.
pub proof fn law_single_load<D>(state: Stored<D>, default: D, persist_default: bool)
    ensures
        state.kept is Some ==> state.accessed(default, persist_default) == state,
        state.accessed(default, persist_default).kept is Some,
        state.accessed(default, persist_default).accessed(default, persist_default)
            == state.accessed(default, persist_default),
{
}

/// A copy that is kept hides what others change in the store.
pub proof fn law_copy_hides_outside_changes<D>(
    state: Stored<D>,
    document: D,
    default: D,
    persist_default: bool,
)
    requires
        state.kept is Some,
    ensures
        state.changed_outside(document).seen(default, persist_default) == state.kept->0,
{
}

/// After the copy was dropped, the next access sees what the store holds
/// then: also what others have changed in it meanwhile.
pub proof fn law_invalidate_reloads<D>(
    state: Stored<D>,
    document: D,
    default: D,
    persist_default: bool,
)
    ensures
        state.invalidated().changed_outside(document).seen(default, persist_default) == document,
        state.changed_outside(document).invalidated().seen(default, persist_default) == document,
{
}

/// A document that is missing in the store is made up by the default, which
/// is written to the store where that is asked for; a document that is there
/// is never replaced by the default.
pub proof fn law_missing_document<D>(state: Stored<D>, default: D, persist_default: bool)
    requires
        state.kept is None,
    ensures
        state.store is None ==> state.seen(default, persist_default) == default,
        state.store is None ==> state.accessed(default, persist_default).store == if persist_default {
            Some(default)
        } else {
            None
        },
        state.store is Some ==> state.seen(default, persist_default) == state.store->0,
        state.store is Some ==> state.accessed(default, persist_default).store == state.store,
{
}

/// A write goes through to the store: what was written is what every later
/// access sees, also after the copy was dropped.
pub proof fn law_write_through<D>(state: Stored<D>, changed: D, default: D, persist_default: bool)
    ensures
        state.written(changed).store == Some(changed),
        state.written(changed).seen(default, persist_default) == changed,
        state.written(changed).invalidated().seen(default, persist_default) == changed,
{
}

} // verus!
