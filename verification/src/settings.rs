//! The settings document.

use vstd::prelude::*;
use crate::locater::{token_of, Locater};
use crate::table::{keys_of, value_of, with_entry, Table};
use crate::text::{
    copy_optional, copy_texts, distinct, distinct_of, position_of, text_of, texts,
};
use crate::window_state::WindowState;

verus! {

/// The settings document.
pub struct Settings {
    /// The folder that holds the notes.
    pub notes_path: Option<String>,
    /// For the token of each locater, where its window was left.
    pub window_states: Table<WindowState>,
    /// The pinned notes that are shown folded: a set, kept as a list in
    /// which no path stands twice.
    pub minimized_pinned_paths: Option<Vec<String>>,
}

/// The paths of the pinned notes that are shown folded, as texts.
pub open spec fn minimized(settings: Settings) -> Option<Seq<Seq<char>>> {
    match settings.minimized_pinned_paths {
        Some(paths) => Some(texts(paths@)),
        None => None,
    }
}

impl Clone for Settings {
    fn clone(&self) -> (copy: Self)
        ensures
            text_of(copy.notes_path) == text_of(self.notes_path),
            copy.window_states@ == self.window_states@,
            minimized(copy) == minimized(*self),
            copy.wf() == self.wf(),
    {
        let copy = Settings {
            notes_path: copy_optional(&self.notes_path),
            window_states: self.window_states.clone(),
            minimized_pinned_paths: match &self.minimized_pinned_paths {
                Some(paths) => Some(copy_texts(paths)),
                None => None,
            },
        };
        proof {
            assert(keys_of(copy.window_states@).len() == copy.window_states@.len());
            assert(keys_of(self.window_states@).len() == self.window_states@.len());
            assert forall|i: int| 0 <= i < self.window_states@.len() implies copy.window_states@[i]
                == self.window_states@[i] by {
                assert(keys_of(copy.window_states@)[i] == copy.window_states@[i].0);
                assert(keys_of(self.window_states@)[i] == self.window_states@[i].0);
                assert(cloned(self.window_states@[i].1, copy.window_states@[i].1));
            }
            assert(copy.window_states@ =~= self.window_states@);
        }
        copy
    }
}

impl Default for Settings {
    fn default() -> (settings: Self)
        ensures
            settings.notes_path is None,
            settings.window_states@.len() == 0,
            settings.minimized_pinned_paths is None,
            settings.wf(),
    {
        Settings { notes_path: None, window_states: Table::new(), minimized_pinned_paths: None }
    }
}

impl Settings {
    /// The folded notes are a set: no path stands twice among them.
    pub open spec fn wf(&self) -> bool {
        minimized(*self) matches Some(paths) ==> paths.no_duplicates()
    }

    /// Sets the pinned notes that are shown folded. A path that is given
    /// more than once is kept once, where it first stands.
    pub fn set_minimized_pinned_paths(&mut self, paths: Option<Vec<String>>)
        ensures
            final(self).wf(),
            minimized(*final(self)) == match paths {
                Some(given) => Some(distinct_of(texts(given@))),
                None => None,
            },
            final(self).notes_path == old(self).notes_path,
            final(self).window_states == old(self).window_states,
    {
        self.minimized_pinned_paths = match paths {
            Some(given) => Some(distinct(&given)),
            None => None,
        };
    }

    /// Whether the pinned note at `path` is shown folded.
    pub fn is_minimized(&self, path: &str) -> (b: bool)
        ensures
            b == (minimized(*self) matches Some(paths) && paths.contains(path@)),
    {
        match &self.minimized_pinned_paths {
            Some(paths) => position_of(paths, path).is_some(),
            None => false,
        }
    }

    /// Where the window of `locater` was left, or the initial state.
    pub fn window_state(&self, locater: &Locater) -> (state: WindowState)
        ensures
            state == match value_of(self.window_states@, token_of(locater@)) {
                Some(kept) => kept,
                None => WindowState::initial(),
            },
    {
        let token = locater.to_token();
        match self.window_states.get(token.as_str()) {
            Some(kept) => *kept,
            None => WindowState::default(),
        }
    }

    /// Records where the window of `locater` is. Returns whether the
    /// settings have changed and are to be stored: they have unless that
    /// very state is recorded already.
    pub fn update_window_state(&mut self, locater: &Locater, window_state: WindowState) -> (changed:
        bool)
        ensures
            changed == (value_of(old(self).window_states@, token_of(locater@)) != Some(
                window_state,
            )),
            changed ==> final(self).window_states@ == with_entry(
                old(self).window_states@,
                token_of(locater@),
                window_state,
            ),
            !changed ==> final(self).window_states@ == old(self).window_states@,
            final(self).notes_path == old(self).notes_path,
            final(self).minimized_pinned_paths == old(self).minimized_pinned_paths,
            final(self).wf() == old(self).wf(),
    {
        let token = locater.to_token();
        let same = match self.window_states.get(token.as_str()) {
            Some(kept) => *kept == window_state,
            None => false,
        };
        if same {
            false
        } else {
            self.window_states.insert(token, window_state);
            true
        }
    }
}

} // verus!
