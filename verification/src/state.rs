//! What is remembered about the pinned window while a search is open.

use vstd::prelude::*;
use crate::text::{copy_optional, text_of};

verus! {

/// How the pinned window stood before a search was opened in it.
#[derive(Debug, PartialEq, Eq)]
pub enum PinnedWindowState {
    /// It had the focus.
    Focused,
    /// It had not: whether it was visible, and which application had the
    /// focus instead.
    Unfocused { visible: bool, last_focused_app_name: Option<String> },
}

/// What the pinned window was doing when a search was asked for.
#[derive(Debug, Clone, Copy, PartialEq, Eq, Structural)]
pub enum PinnedWindow {
    /// There was no pinned window.
    Missing,
    /// There was one, focused or not, visible or not.
    Open { focused: bool, visible: bool },
}

/// What is to be done with the pinned window when a search ends.
#[derive(Debug, PartialEq, Eq)]
pub struct SearchEnd {
    /// Give the focus back to the pinned window.
    pub focus_pinned: bool,
    /// Hide the pinned window.
    pub hide_pinned: bool,
    /// Give the focus back to this application.
    pub focus_app: Option<String>,
}

impl Clone for PinnedWindowState {
    fn clone(&self) -> (copy: Self)
        ensures
            copy.same_as(*self),
    {
        match self {
            PinnedWindowState::Focused => PinnedWindowState::Focused,
            PinnedWindowState::Unfocused { visible, last_focused_app_name } => {
                PinnedWindowState::Unfocused {
                    visible: *visible,
                    last_focused_app_name: copy_optional(last_focused_app_name),
                }
            },
        }
    }
}

impl PinnedWindowState {
    /// Both states say the same.
    pub open spec fn same_as(self, other: PinnedWindowState) -> bool {
        match (self, other) {
            (PinnedWindowState::Focused, PinnedWindowState::Focused) => true,
            (
                PinnedWindowState::Unfocused { visible: v1, last_focused_app_name: n1 },
                PinnedWindowState::Unfocused { visible: v2, last_focused_app_name: n2 },
            ) => v1 == v2 && text_of(n1) == text_of(n2),
            _ => false,
        }
    }

    /// The state before any search: not focused, not visible, no application
    /// remembered.
    pub fn initial() -> (state: Self)
        ensures
            state == (PinnedWindowState::Unfocused { visible: false, last_focused_app_name: None }),
    {
        PinnedWindowState::Unfocused { visible: false, last_focused_app_name: None }
    }

    /// What is remembered when a search is opened: that the pinned window had
    /// the focus, or else whether it was visible and which application had
    /// the focus. A missing window counts as not visible.
    pub fn before_search(window: PinnedWindow, frontmost_app: Option<String>) -> (state: Self)
        ensures
            state == match window {
                PinnedWindow::Open { focused: true, visible } => PinnedWindowState::Focused,
                PinnedWindow::Open { focused: false, visible } => PinnedWindowState::Unfocused {
                    visible,
                    last_focused_app_name: frontmost_app,
                },
                PinnedWindow::Missing => PinnedWindowState::Unfocused {
                    visible: false,
                    last_focused_app_name: frontmost_app,
                },
            },
    {
        match window {
            PinnedWindow::Open { focused, visible } => {
                if focused {
                    PinnedWindowState::Focused
                } else {
                    PinnedWindowState::Unfocused { visible, last_focused_app_name: frontmost_app }
                }
            },
            PinnedWindow::Missing => PinnedWindowState::Unfocused {
                visible: false,
                last_focused_app_name: frontmost_app,
            },
        }
    }

    /// What is to be done when the search ends. A window that had the focus
    /// gets it back where the search was given up. A window that had not is
    /// hidden again where it was not visible, and where the search was given
    /// up the application that had the focus gets it back.
    pub fn complete_search(&self, accepted: bool) -> (end: SearchEnd)
        ensures
            match *self {
                PinnedWindowState::Focused => {
                    &&& end.focus_pinned == !accepted
                    &&& !end.hide_pinned
                    &&& end.focus_app is None
                },
                PinnedWindowState::Unfocused { visible, last_focused_app_name } => {
                    &&& !end.focus_pinned
                    &&& end.hide_pinned == !visible
                    &&& text_of(end.focus_app) == if accepted {
                        None
                    } else {
                        text_of(last_focused_app_name)
                    }
                },
            },
    {
        match self {
            PinnedWindowState::Focused => SearchEnd {
                focus_pinned: !accepted,
                hide_pinned: false,
                focus_app: None,
            },
            PinnedWindowState::Unfocused { visible, last_focused_app_name } => SearchEnd {
                focus_pinned: false,
                hide_pinned: !*visible,
                focus_app: if accepted {
                    None
                } else {
                    copy_optional(last_focused_app_name)
                },
            },
        }
    }
}

} // verus!
