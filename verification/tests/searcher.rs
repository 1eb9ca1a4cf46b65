use brot::action::PartialAction;
use brot::palette_action::PaletteAction;
use std::ops::Range;

use brot::searcher::{
    clamp_window, is_refinement, Lent, Matched, Searchable, SearcherId, SearcherManager,
};
use brot::suggester::Suggestion;

type Command = PaletteAction;

/// Searches until the matcher has finished within its time budget.
fn settled<T: Searchable>(
    manager: &mut SearcherManager<T>,
    id: SearcherId,
    query: &str,
    range: Range<u32>,
) -> Option<Vec<Matched<T>>> {
    for _ in 0..1000 {
        let found = manager.search(id, query, range.clone());
        if manager.is_running(id) != Some(true) {
            return found;
        }
    }
    panic!("the matcher did not settle");
}

fn command(name: &str, code: usize) -> Command {
    PaletteAction {
        title: name.to_string(),
        icon: None,
        shortcut: None,
        action: PartialAction { key: format!("command-{code}"), args: vec![] },
    }
}

fn commands(names: &[&str]) -> Vec<Command> {
    names.iter().enumerate().map(|(i, name)| command(name, i)).collect()
}

fn suggestions(values: &[&str]) -> Vec<Suggestion> {
    values.iter().map(|v| Suggestion { value: v.to_string() }).collect()
}

fn names(found: &[Matched<Command>]) -> Vec<String> {
    found.iter().map(|m| m.payload.title.clone()).collect()
}

#[test]
fn search_of_an_id_that_was_never_handed_out_is_unknown() {
    let mut manager: SearcherManager<Command> = SearcherManager::new();
    assert!(settled(&mut manager, SearcherId(0), "a", 0..10).is_none());
    let id = manager.new_searcher(&commands(&["alpha"]));
    assert_eq!(id, SearcherId(0));
    assert!(settled(&mut manager, SearcherId(1), "a", 0..10).is_none());
    assert!(settled(&mut manager, SearcherId(7), "a", 0..10).is_none());
    assert!(settled(&mut manager, id, "a", 0..10).is_some());
}

#[test]
fn ids_are_handed_out_in_order_and_never_again() {
    let mut manager: SearcherManager<Command> = SearcherManager::new();
    let first = manager.new_searcher(&commands(&["alpha"]));
    let second = manager.new_searcher(&commands(&["beta"]));
    assert_eq!(first, SearcherId(0));
    assert_eq!(second, SearcherId(1));
    manager.delete_searcher(first);
    let third = manager.new_searcher(&commands(&["gamma"]));
    assert_eq!(third, SearcherId(2));
    assert!(settled(&mut manager, first, "", 0..10).is_none());
}

#[test]
fn search_after_delete_is_unknown_and_delete_is_idempotent() {
    let mut manager: SearcherManager<Command> = SearcherManager::new();
    let kept = manager.new_searcher(&commands(&["alpha", "beta"]));
    let id = manager.new_searcher(&commands(&["gamma"]));
    assert!(settled(&mut manager, id, "g", 0..10).is_some());
    manager.delete_searcher(id);
    assert!(settled(&mut manager, id, "g", 0..10).is_none());
    manager.delete_searcher(id);
    assert!(settled(&mut manager, id, "g", 0..10).is_none());
    manager.delete_searcher(SearcherId(99));
    let found = settled(&mut manager, kept, "", 0..10).unwrap();
    assert_eq!(names(&found), vec!["alpha", "beta"]);
}

#[test]
fn sessions_do_not_share_candidates() {
    let mut manager: SearcherManager<Command> = SearcherManager::new();
    let first = manager.new_searcher(&commands(&["alpha", "beta"]));
    let second = manager.new_searcher(&commands(&["gamma"]));
    assert_eq!(names(&settled(&mut manager, first, "", 0..10).unwrap()), vec!["alpha", "beta"]);
    assert_eq!(names(&settled(&mut manager, second, "", 0..10).unwrap()), vec!["gamma"]);
    assert!(settled(&mut manager, second, "alpha", 0..10).unwrap().is_empty());
}

#[test]
fn empty_query_returns_all_candidates_in_insertion_order() {
    let mut manager: SearcherManager<Command> = SearcherManager::new();
    let id = manager.new_searcher(&commands(&["delta", "alpha", "charlie", "bravo"]));
    let found = settled(&mut manager, id, "", 0..10).unwrap();
    assert_eq!(names(&found), vec!["delta", "alpha", "charlie", "bravo"]);
    assert!(found.iter().all(|m| m.indices.is_empty()));
    assert_eq!(found[1].payload, command("alpha", 1));
}

#[test]
fn range_far_past_the_matches_is_empty() {
    let mut manager: SearcherManager<Command> = SearcherManager::new();
    let id = manager.new_searcher(&commands(&["one", "two", "three"]));
    assert_eq!(settled(&mut manager, id, "", 0..10).unwrap().len(), 3);
    let found = settled(&mut manager, id, "", 1000000..1000010).unwrap();
    assert!(found.is_empty());
}

#[test]
fn range_is_clamped_on_both_ends() {
    let mut manager: SearcherManager<Command> = SearcherManager::new();
    let id = manager.new_searcher(&commands(&["one", "two", "three", "four"]));
    assert_eq!(names(&settled(&mut manager, id, "", 1..3).unwrap()), vec!["two", "three"]);
    assert_eq!(names(&settled(&mut manager, id, "", 2..100).unwrap()), vec!["three", "four"]);
    assert_eq!(names(&settled(&mut manager, id, "", 4..100).unwrap()), Vec::<String>::new());
    assert_eq!(names(&settled(&mut manager, id, "", 0..0).unwrap()), Vec::<String>::new());
}

#[test]
fn reversed_range_is_empty() {
    let mut manager: SearcherManager<Command> = SearcherManager::new();
    let id = manager.new_searcher(&commands(&["one", "two", "three", "four"]));
    assert!(settled(&mut manager, id, "", 3..1).unwrap().is_empty());
}

#[test]
fn clamp_window_gives_the_stated_bounds() {
    assert_eq!(clamp_window(1000000, 1000010, 3), (3, 3));
    assert_eq!(clamp_window(0, 5, 3), (0, 3));
    assert_eq!(clamp_window(1, 2, 3), (1, 2));
    assert_eq!(clamp_window(2, 1, 3), (2, 2));
    assert_eq!(clamp_window(0, 5, 0), (0, 0));
    assert_eq!(clamp_window(7, 2, 3), (3, 3));
}

#[test]
fn is_refinement_asks_for_a_prefix() {
    assert!(!is_refinement(&None, "abc"));
    assert!(is_refinement(&Some("ab".to_string()), "abc"));
    assert!(is_refinement(&Some("abc".to_string()), "abc"));
    assert!(is_refinement(&Some(String::new()), "abc"));
    assert!(!is_refinement(&Some("abd".to_string()), "abc"));
    assert!(!is_refinement(&Some("abcd".to_string()), "abc"));
    assert!(!is_refinement(&Some("é".to_string()), "e"));
}

#[test]
fn query_filters_and_marks_the_matched_positions() {
    let mut manager: SearcherManager<Command> = SearcherManager::new();
    let id = manager.new_searcher(&commands(&["open note", "close window", "xaxb"]));
    let found = settled(&mut manager, id, "ab", 0..10).unwrap();
    assert_eq!(names(&found), vec!["xaxb"]);
    assert_eq!(found[0].indices, vec![1, 3]);
    let found = settled(&mut manager, id, "note", 0..10).unwrap();
    assert_eq!(names(&found), vec!["open note"]);
    assert_eq!(found[0].indices, vec![5, 6, 7, 8]);
    assert_eq!(found[0].payload, command("open note", 0));
}

#[test]
fn best_match_comes_first() {
    let mut manager: SearcherManager<Command> = SearcherManager::new();
    let id = manager.new_searcher(&commands(&["a long line that ends in note", "note"]));
    let found = settled(&mut manager, id, "note", 0..10).unwrap();
    assert_eq!(names(&found), vec!["note", "a long line that ends in note"]);
}

#[test]
fn smart_case_respects_upper_case_in_the_query() {
    let mut manager: SearcherManager<Command> = SearcherManager::new();
    let id = manager.new_searcher(&commands(&["Readme", "readme"]));
    assert_eq!(settled(&mut manager, id, "readme", 0..10).unwrap().len(), 2);
    assert_eq!(names(&settled(&mut manager, id, "Readme", 0..10).unwrap()), vec!["Readme"]);
}

#[test]
fn refining_a_query_gives_what_the_query_alone_gives() {
    let words = [
        "apple", "apply", "maple", "ample", "pineapple", "grape", "apricot", "papaya", "alp",
        "leap", "plea", "appeal",
    ];
    let mut stepwise: SearcherManager<Command> = SearcherManager::new();
    let a = stepwise.new_searcher(&commands(&words));
    let mut direct: SearcherManager<Command> = SearcherManager::new();
    let b = direct.new_searcher(&commands(&words));
    for first in ["", "a", "ap", "app"] {
        settled(&mut stepwise, a, first, 0..100).unwrap();
    }
    let refined = settled(&mut stepwise, a, "appl", 0..100).unwrap();
    let alone = settled(&mut direct, b, "appl", 0..100).unwrap();
    assert!(!alone.is_empty());
    assert_eq!(names(&refined), names(&alone));
    let marks = |found: &[Matched<Command>]| -> Vec<Vec<u32>> {
        found.iter().map(|m| m.indices.clone()).collect()
    };
    assert_eq!(marks(&refined), marks(&alone));
}

#[test]
fn a_query_that_is_no_refinement_falls_back_to_a_full_scan() {
    let words = ["apple", "maple", "grape", "banana"];
    let mut manager: SearcherManager<Command> = SearcherManager::new();
    let id = manager.new_searcher(&commands(&words));
    assert_eq!(names(&settled(&mut manager, id, "apple", 0..10).unwrap()), vec!["apple"]);
    assert_eq!(names(&settled(&mut manager, id, "ban", 0..10).unwrap()), vec!["banana"]);
    assert_eq!(names(&settled(&mut manager, id, "ap", 0..10).unwrap()).len(), 3);
}

#[test]
fn the_same_query_twice_gives_the_same_answer() {
    let mut manager: SearcherManager<Suggestion> = SearcherManager::new();
    let id = manager.new_searcher(&suggestions(&["-work", "-work--urgent", "-home"]));
    let first: Vec<String> =
        settled(&mut manager, id, "work", 0..5).unwrap().into_iter().map(|m| m.payload.value).collect();
    let second: Vec<String> =
        settled(&mut manager, id, "work", 0..5).unwrap().into_iter().map(|m| m.payload.value).collect();
    assert_eq!(first, vec!["-work", "-work--urgent"]);
    assert_eq!(first, second);
}

#[test]
fn a_session_keeps_its_snapshot_of_the_candidates() {
    let mut source = commands(&["alpha", "beta"]);
    let mut manager: SearcherManager<Command> = SearcherManager::new();
    let id = manager.new_searcher(&source);
    source.push(command("gamma", 9));
    source[0].title = "changed".to_string();
    assert_eq!(names(&settled(&mut manager, id, "", 0..10).unwrap()), vec!["alpha", "beta"]);
}

#[test]
fn a_session_over_no_candidates_finds_nothing() {
    let mut manager: SearcherManager<Command> = SearcherManager::new();
    let id = manager.new_searcher(&[]);
    assert!(settled(&mut manager, id, "", 0..10).unwrap().is_empty());
    assert!(settled(&mut manager, id, "x", 0..10).unwrap().is_empty());
}

fn take<T: Searchable>(manager: &mut SearcherManager<T>, id: SearcherId) -> brot::searcher::Searcher<T> {
    match manager.take_out(id) {
        Lent::Session(session) => session,
        _ => panic!("the session is not here"),
    }
}

#[test]
fn a_session_that_is_taken_out_is_searched_and_put_back() {
    let mut manager: SearcherManager<Command> = SearcherManager::new();
    let first = manager.new_searcher(&commands(&["alpha", "beta"]));
    let second = manager.new_searcher(&commands(&["gamma"]));
    let mut session = take(&mut manager, first);
    assert!(matches!(manager.take_out(first), Lent::Busy));
    assert!(matches!(manager.take_out(SearcherId(9)), Lent::Unknown));
    assert_eq!(names(&settled(&mut manager, second, "", 0..10).unwrap()), vec!["gamma"]);
    let mut found = session.search("be", 0..10);
    while session.is_running() {
        found = session.search("be", 0..10);
    }
    assert_eq!(names(&found), vec!["beta"]);
    assert!(manager.put_back(first, session));
    assert_eq!(names(&settled(&mut manager, first, "bet", 0..10).unwrap()), vec!["beta"]);
    assert!(matches!(manager.take_out(first), Lent::Session(_)));
}

#[test]
fn a_session_that_is_deleted_while_taken_out_does_not_come_back() {
    let mut manager: SearcherManager<Command> = SearcherManager::new();
    let id = manager.new_searcher(&commands(&["alpha"]));
    let session = take(&mut manager, id);
    manager.delete_searcher(id);
    assert!(matches!(manager.take_out(id), Lent::Unknown));
    assert!(!manager.put_back(id, session));
    assert!(settled(&mut manager, id, "", 0..10).is_none());
    assert!(matches!(manager.take_out(id), Lent::Unknown));
}

#[test]
fn a_session_that_was_not_taken_out_is_not_put_back() {
    let mut manager: SearcherManager<Command> = SearcherManager::new();
    let id = manager.new_searcher(&commands(&["alpha"]));
    let mut other: SearcherManager<Command> = SearcherManager::new();
    let stray_id = other.new_searcher(&commands(&["stray"]));
    let stray = take(&mut other, stray_id);
    assert!(!manager.put_back(id, stray));
    assert_eq!(names(&settled(&mut manager, id, "", 0..10).unwrap()), vec!["alpha"]);
}

#[test]
fn no_candidate_comes_twice_in_an_answer() {
    let mut manager: SearcherManager<Command> = SearcherManager::new();
    let id = manager.new_searcher(&commands(&["aa", "ab", "ba", "a", "aaa"]));
    let found = settled(&mut manager, id, "a", 0..10).unwrap();
    let mut keys: Vec<String> = found.iter().map(|m| m.payload.action.key.clone()).collect();
    assert_eq!(keys.len(), 5);
    keys.sort();
    keys.dedup();
    assert_eq!(keys.len(), 5);
}
