//! Events for windows that are not ready yet.
//!
//! A window that is still starting cannot take events. What is sent to it
//! meanwhile is kept, and handed over in order when the window says that it
//! is ready.

use vstd::prelude::*;
use crate::table::{lemma_with_entry, value_of, Table};

verus! {

/// An event, by its name.
#[derive(Debug, PartialEq, Eq)]
pub struct Event(pub String);

/// What is known of a window.
#[derive(Debug, PartialEq, Eq)]
pub enum WindowEventState {
    /// It is starting: the events that wait for it, oldest first.
    Starting(Vec<Event>),
    /// It takes events.
    Ready,
}

/// What is known of a window, as texts; `Unknown` for a window that was never
/// heard of.
pub enum WindowView {
    Unknown,
    Starting(Seq<Seq<char>>),
    Ready,
}

impl Clone for Event {
    fn clone(&self) -> (copy: Self)
        ensures
            copy.0@ == self.0@,
    {
        Event(self.0.clone())
    }
}

/// The names of a sequence of events.
pub open spec fn names(events: Seq<Event>) -> Seq<Seq<char>> {
    events.map_values(|e: Event| e.0@)
}

/// The view of what a table knows of a window.
pub open spec fn window_view(state: Option<WindowEventState>) -> WindowView {
    match state {
        None => WindowView::Unknown,
        Some(WindowEventState::Starting(events)) => WindowView::Starting(names(events@)),
        Some(WindowEventState::Ready) => WindowView::Ready,
    }
}

/// What a window is after it said that it is ready. A window that was ready
/// already is forgotten by that.
pub open spec fn after_ready(before: WindowView) -> WindowView {
    match before {
        WindowView::Ready => WindowView::Unknown,
        _ => WindowView::Ready,
    }
}

/// The events that are handed to a window when it says that it is ready.
pub open spec fn released(before: WindowView) -> Seq<Seq<char>> {
    match before {
        WindowView::Starting(events) => events,
        _ => Seq::empty(),
    }
}

/// What a window is after `event` was sent to it.
pub open spec fn after_send(before: WindowView, event: Seq<char>) -> WindowView {
    match before {
        WindowView::Unknown => WindowView::Starting(seq![event]),
        WindowView::Starting(events) => WindowView::Starting(events.push(event)),
        WindowView::Ready => WindowView::Ready,
    }
}

/// The windows and the events that wait for them.
pub struct EventManager {
    window_states: Table<WindowEventState>,
}

impl EventManager {
    /// What is known of the window with the label `label`.
    pub closed spec fn window(&self, label: Seq<char>) -> WindowView {
        window_view(value_of(self.window_states@, label))
    }

    /// A manager that knows no window.
    pub fn new() -> (manager: Self)
        ensures
            forall|label: Seq<char>| manager.window(label) == WindowView::Unknown,
    {
        EventManager { window_states: Table::new() }
    }

    /// The window `label` says that it is ready. Returns the events that
    /// waited for it, oldest first: they are to be sent now.
    pub fn set_ready(&mut self, label: &str) -> (missed: Vec<Event>)
        ensures
            final(self).window(label@) == after_ready(old(self).window(label@)),
            names(missed@) == released(old(self).window(label@)),
            forall|other: Seq<char>|
                other != label@ ==> final(self).window(other) == old(self).window(other),
    {
        let ghost before = self.window_states@;
        let removed = self.window_states.remove(label);
        proof {
            assert forall|other: Seq<char>| other != label@ implies value_of(
                self.window_states@,
                other,
            ) == value_of(before, other) by {
                crate::table::lemma_without_key(before, label@, other);
            }
            crate::table::lemma_without_key(before, label@, label@);
        }
        let missed = match removed {
            None => Vec::new(),
            Some(WindowEventState::Starting(events)) => events,
            Some(WindowEventState::Ready) => {
                return Vec::new();
            },
        };
        let ghost between = self.window_states@;
        self.window_states.insert(label.to_owned(), WindowEventState::Ready);
        proof {
            assert forall|other: Seq<char>| other != label@ implies value_of(
                self.window_states@,
                other,
            ) == value_of(between, other) by {
                lemma_with_entry(between, label@, WindowEventState::Ready, other);
            }
            lemma_with_entry(between, label@, WindowEventState::Ready, label@);
        }
        missed
    }

    /// Sends `event` to the window `label`. Returns the event where the
    /// window is ready: it is to be sent now. Else the event waits.
    pub fn send_event(&mut self, label: &str, event: Event) -> (now: Option<Event>)
        ensures
            final(self).window(label@) == after_send(old(self).window(label@), event.0@),
            match now {
                Some(sent) => old(self).window(label@) is Ready && sent == event,
                None => !(old(self).window(label@) is Ready),
            },
            forall|other: Seq<char>|
                other != label@ ==> final(self).window(other) == old(self).window(other),
    {
        let ghost before = self.window_states@;
        let waiting = match self.window_states.get(label) {
            None => {
                let mut events: Vec<Event> = Vec::new();
                events.push(event);
                assert(names(events@) =~= seq![event.0@]);
                events
            },
            Some(WindowEventState::Starting(events)) => {
                let mut longer = copy_events(events);
                longer.push(event);
                assert(names(longer@) =~= names(events@).push(event.0@));
                longer
            },
            Some(WindowEventState::Ready) => {
                return Some(event);
            },
        };
        let state = WindowEventState::Starting(waiting);
        self.window_states.insert(label.to_owned(), state);
        proof {
            assert forall|other: Seq<char>| other != label@ implies value_of(
                self.window_states@,
                other,
            ) == value_of(before, other) by {
                lemma_with_entry(before, label@, state, other);
            }
            lemma_with_entry(before, label@, state, label@);
        }
        None
    }

    /// Forgets the window `label`.
    pub fn remove_window(&mut self, label: &str)
        ensures
            final(self).window(label@) == WindowView::Unknown,
            forall|other: Seq<char>|
                other != label@ ==> final(self).window(other) == old(self).window(other),
    {
        let ghost before = self.window_states@;
        self.window_states.remove(label);
        proof {
            assert forall|other: Seq<char>| other != label@ implies value_of(
                self.window_states@,
                other,
            ) == value_of(before, other) by {
                crate::table::lemma_without_key(before, label@, other);
            }
            crate::table::lemma_without_key(before, label@, label@);
        }
    }
}

/// A copy of `events`.
fn copy_events(events: &Vec<Event>) -> (out: Vec<Event>)
    ensures
        names(out@) == names(events@),
{
    let mut out: Vec<Event> = Vec::new();
    let mut i: usize = 0;
    while i < events.len()
        invariant
            i <= events@.len(),
            out@.len() == i,
            forall|j: int| 0 <= j < i ==> (#[trigger] out@[j]).0@ == events@[j].0@,
        decreases events@.len() - i,
    {
        out.push(events[i].clone());
        i += 1;
    }
    assert(names(out@) =~= names(events@));
    out
}

/// A window that is starting gets every event that was sent to it, in the
/// order of the sending, when it says that it is ready; and an event sent to
/// a window that is ready waits for nothing.
pub proof fn law_no_event_is_lost(before: WindowView, first: Seq<char>, second: Seq<char>)
    requires
        !(before is Ready),
    ensures
        released(after_send(after_send(before, first), second)) == released(before).push(
            first,
        ).push(second),
        after_ready(after_send(before, first)) is Ready,
        after_send(after_ready(after_send(before, first)), second) is Ready,
{
    match before {
        WindowView::Unknown => {
            assert(seq![first].push(second) =~= Seq::<Seq<char>>::empty().push(first).push(second));
        },
        _ => {},
    }
}

} // verus!
