use brot::cache::{followup, fresh, Access, Cached, Followup, Step};
use brot::editor_state::{EditorState, EditorStates, PinnedEditorState};
use brot::message::{ServerMessage, ServerResult};
use brot::missed_events::{Event, EventManager};
use brot::state::{PinnedWindow, PinnedWindowState, SearchEnd};

fn event(name: &str) -> Event {
    Event(name.to_string())
}

#[test]
fn events_wait_until_the_window_is_ready() {
    let mut manager = EventManager::new();
    assert_eq!(manager.send_event("pinned", event("search")), None);
    assert_eq!(manager.send_event("pinned", event("focus")), None);
    assert_eq!(manager.send_event("other", event("x")), None);
    assert_eq!(manager.set_ready("pinned"), vec![event("search"), event("focus")]);
    assert_eq!(manager.send_event("pinned", event("now")), Some(event("now")));
    assert_eq!(manager.set_ready("other"), vec![event("x")]);
}

#[test]
fn a_window_that_was_never_sent_to_becomes_ready_with_nothing_missed() {
    let mut manager = EventManager::new();
    assert!(manager.set_ready("fresh").is_empty());
    assert_eq!(manager.send_event("fresh", event("a")), Some(event("a")));
}

#[test]
fn a_ready_window_that_says_ready_again_is_forgotten() {
    let mut manager = EventManager::new();
    assert!(manager.set_ready("w").is_empty());
    assert!(manager.set_ready("w").is_empty());
    assert_eq!(manager.send_event("w", event("a")), None);
    assert_eq!(manager.set_ready("w"), vec![event("a")]);
}

#[test]
fn a_removed_window_starts_over() {
    let mut manager = EventManager::new();
    manager.set_ready("w");
    manager.remove_window("w");
    assert_eq!(manager.send_event("w", event("a")), None);
    manager.remove_window("w");
    assert!(manager.set_ready("w").is_empty());
    manager.remove_window("unknown");
}

#[test]
fn pinned_window_state_before_a_search() {
    let app = Some("com.example.editor".to_string());
    assert_eq!(
        PinnedWindowState::before_search(
            PinnedWindow::Open { focused: true, visible: true },
            app.clone()
        ),
        PinnedWindowState::Focused
    );
    assert_eq!(
        PinnedWindowState::before_search(
            PinnedWindow::Open { focused: false, visible: true },
            app.clone()
        ),
        PinnedWindowState::Unfocused { visible: true, last_focused_app_name: app.clone() }
    );
    assert_eq!(
        PinnedWindowState::before_search(PinnedWindow::Missing, None),
        PinnedWindowState::Unfocused { visible: false, last_focused_app_name: None }
    );
    assert_eq!(
        PinnedWindowState::initial(),
        PinnedWindowState::Unfocused { visible: false, last_focused_app_name: None }
    );
}

#[test]
fn what_is_done_when_a_search_ends() {
    let app = Some("com.example.editor".to_string());
    let nothing = SearchEnd { focus_pinned: false, hide_pinned: false, focus_app: None };
    assert_eq!(PinnedWindowState::Focused.complete_search(true), nothing);
    assert_eq!(
        PinnedWindowState::Focused.complete_search(false),
        SearchEnd { focus_pinned: true, hide_pinned: false, focus_app: None }
    );
    let hidden = PinnedWindowState::Unfocused { visible: false, last_focused_app_name: app.clone() };
    assert_eq!(
        hidden.complete_search(true),
        SearchEnd { focus_pinned: false, hide_pinned: true, focus_app: None }
    );
    assert_eq!(
        hidden.complete_search(false),
        SearchEnd { focus_pinned: false, hide_pinned: true, focus_app: app.clone() }
    );
    let shown = PinnedWindowState::Unfocused { visible: true, last_focused_app_name: None };
    assert_eq!(shown.complete_search(false), nothing);
    assert_eq!(shown.clone(), shown);
}

#[test]
fn an_empty_cell_asks_for_a_load_and_a_filled_one_does_not() {
    let mut cell: Cached<String> = Cached::new();
    assert!(!cell.is_loaded());
    assert_eq!(cell.begin(), Step::Load);
    assert_eq!(cell.get(), None);
    assert_eq!(cell.read(|d: &String| d.len()), None);
    cell.loaded("first".to_string());
    assert_eq!(cell.begin(), Step::Apply);
    assert_eq!(cell.get(), Some(&"first".to_string()));
    cell.loaded("second".to_string());
    assert_eq!(cell.get(), Some(&"first".to_string()));
    assert_eq!(cell.read(|d: &String| d.len()), Some(5));
}

#[test]
fn a_write_changes_the_copy_and_an_invalidate_drops_it() {
    let mut cell: Cached<Vec<u32>> = Cached::new();
    assert_eq!(cell.write(|d: Vec<u32>| (d, 0)), None);
    cell.loaded(vec![1, 2]);
    let pushed = cell.write(|mut d: Vec<u32>| {
        d.push(3);
        let n = d.len();
        (d, n)
    });
    assert_eq!(pushed, Some(3));
    assert_eq!(cell.get(), Some(&vec![1, 2, 3]));
    cell.invalidate();
    assert_eq!(cell.begin(), Step::Load);
    assert_eq!(cell.get(), None);
    cell.loaded(vec![9]);
    assert_eq!(cell.take(), Some(vec![9]));
    assert!(!cell.is_loaded());
    cell.put(vec![7]);
    assert_eq!(cell.get(), Some(&vec![7]));
}

#[test]
fn only_a_write_is_followed_by_the_store() {
    assert_eq!(followup(Access::Read), Followup::Done);
    assert_eq!(followup(Access::Write), Followup::Persist);
}

#[test]
fn a_missing_document_is_made_up_by_the_default() {
    let found = fresh(Some(1u32), 0, true);
    assert_eq!((found.document, found.persist), (1, false));
    let missing = fresh(None, 0u32, true);
    assert_eq!((missing.document, missing.persist), (0, true));
    let quiet = fresh(None, 0u32, false);
    assert_eq!((quiet.document, quiet.persist), (0, false));
}

#[test]
fn editor_states_are_kept_by_path() {
    let mut states = EditorStates::new();
    assert_eq!(states.note("a.md"), None);
    let at = EditorState { selection: (1, 2) };
    states.set_note("a.md", at);
    states.set_pinned("a.md", PinnedEditorState { folded: true, note_state: at });
    assert_eq!(states.note("a.md"), Some(at));
    assert_eq!(states.pinned("a.md"), Some(PinnedEditorState { folded: true, note_state: at }));
    assert_eq!(states.pinned("b.md"), None);
}

#[test]
fn an_outcome_is_wrapped_for_the_client() {
    match ServerResult::from_outcome(Ok(ServerMessage::Refresh)) {
        ServerResult::Success { message: ServerMessage::Refresh } => {}
        _ => panic!("the answer is lost"),
    }
    match ServerResult::from_outcome(Err("invalid palette key".to_string())) {
        ServerResult::Failure { error } => assert_eq!(error, "invalid palette key"),
        _ => panic!("the error is lost"),
    }
}

#[test]
fn after_a_refresh_the_next_read_sees_what_the_store_holds() {
    let mut store = "first".to_string();
    let mut cell: Cached<String> = Cached::new();
    let mut read = |cell: &mut Cached<String>, store: &String| -> String {
        if cell.begin() == Step::Load {
            cell.loaded(store.clone());
        }
        cell.read(|d: &String| d.clone()).unwrap()
    };
    assert_eq!(read(&mut cell, &store), "first");
    store = "second".to_string();
    assert_eq!(read(&mut cell, &store), "first");
    cell.invalidate();
    assert_eq!(read(&mut cell, &store), "second");
    assert_eq!(read(&mut cell, &store), "second");
}
