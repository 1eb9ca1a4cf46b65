use brot::action::{Actions, PartialAction, PartialActionFilter, PartialActionGenerator};
use brot::palette::{create_palette, delete_palette, search_palette, Palettes};
use brot::palette_action::{
    apply_filters, find_shortcut, generate_for_note, generate_palette_actions,
    get_all_palette_actions, get_palette_actions, is_per_note, needs_notes, resolve_args,
    split_title_icon, MatchedPaletteAction, PaletteAction, PaletteError,
};
use brot::searcher::{Matched, SearcherId};
use brot::table::Table;

fn strings(v: &[&str]) -> Vec<String> {
    v.iter().map(|s| s.to_string()).collect()
}

fn action(key: &str, args: &[&str]) -> PartialAction {
    PartialAction { key: key.to_string(), args: strings(args) }
}

fn generator(key: &str, args: &[&str]) -> PartialActionGenerator {
    PartialActionGenerator { key: key.to_string(), args: strings(args) }
}

fn filter(key: &str, args: &[Option<&str>]) -> PartialActionFilter {
    PartialActionFilter {
        key: key.to_string(),
        args: args.iter().map(|a| a.map(|s| s.to_string())).collect(),
    }
}

fn notes(paths: &[&str]) -> Vec<(String, String)> {
    paths.iter().map(|p| (p.to_string(), brot::title::path_to_title(p))).collect()
}

fn catalog() -> Actions {
    let mut shortcuts: Table<PartialAction> = Table::new();
    shortcuts.insert("cmd+n".to_string(), action("new_note", &[]));
    shortcuts.insert("cmd+o".to_string(), action("open", &["b.md"]));
    shortcuts.insert("cmd+shift+o".to_string(), action("open", &["b.md"]));
    let mut main: Table<PartialActionGenerator> = Table::new();
    main.insert("!plus New note".to_string(), generator("new_note", &[]));
    main.insert("Open $note_path".to_string(), generator("open", &["$note_path"]));
    main.insert("Settings".to_string(), generator("window", &["settings"]));
    let mut windows: Table<PartialActionGenerator> = Table::new();
    windows.insert(
        "!window Show $note_locater".to_string(),
        generator("window", &["$note_locater", "floating"]),
    );
    let mut palettes: Table<Table<PartialActionGenerator>> = Table::new();
    palettes.insert("main".to_string(), main);
    palettes.insert("windows".to_string(), windows);
    Actions { shortcuts, palettes }
}

/// Searches until the matcher has finished within its time budget.
fn settled(
    palettes: &mut Palettes,
    id: SearcherId,
    query: &str,
    range: std::ops::Range<u32>,
) -> Option<Vec<Matched<PaletteAction>>> {
    for _ in 0..1000 {
        let found = search_palette(palettes, id, query, range.clone());
        if palettes.is_running(id) != Some(true) {
            return found;
        }
    }
    panic!("the matcher did not settle");
}

fn titles(found: &[PaletteAction]) -> Vec<String> {
    found.iter().map(|a| a.title.clone()).collect()
}

#[test]
fn split_title_icon_splits_at_the_first_space() {
    assert_eq!(split_title_icon("!plus New note"), ("New note".to_string(), Some("plus".to_string())));
    assert_eq!(split_title_icon("New note"), ("New note".to_string(), None));
    assert_eq!(split_title_icon("!plus"), ("".to_string(), Some("plus".to_string())));
    assert_eq!(split_title_icon("! title"), ("title".to_string(), Some("".to_string())));
    assert_eq!(split_title_icon("!"), ("".to_string(), Some("".to_string())));
    assert_eq!(split_title_icon(""), ("".to_string(), None));
    assert_eq!(split_title_icon("a !b"), ("a !b".to_string(), None));
}

#[test]
fn filter_matches_on_key_and_given_arguments() {
    let open_b = action("open", &["b.md", "x"]);
    assert!(filter("open", &[]).matches(&open_b));
    assert!(filter("open", &[Some("b.md")]).matches(&open_b));
    assert!(filter("open", &[None, Some("x")]).matches(&open_b));
    assert!(!filter("open", &[Some("a.md")]).matches(&open_b));
    assert!(!filter("open", &[None, Some("y")]).matches(&open_b));
    assert!(!filter("close", &[]).matches(&open_b));
    assert!(!filter("open", &[Some("b.md"), Some("x"), Some("beyond")]).matches(&open_b));
    assert!(filter("open", &[Some("b.md"), Some("x"), None]).matches(&open_b));
    assert!(!filter("open", &[Some("anything")]).matches(&action("open", &[])));
    assert!(filter("open", &[None]).matches(&action("open", &[])));
}

#[test]
fn a_filter_with_a_text_beyond_the_arguments_does_not_match() {
    assert!(!filter("k", &[Some("a"), Some("b")]).matches(&action("k", &["a"])));
    assert!(filter("k", &[Some("a")]).matches(&action("k", &["a"])));
    assert!(filter("k", &[Some("a"), None]).matches(&action("k", &["a"])));
}

#[test]
fn same_as_compares_key_and_arguments() {
    assert!(action("open", &["a"]).same_as(&action("open", &["a"])));
    assert!(!action("open", &["a"]).same_as(&action("open", &["b"])));
    assert!(!action("open", &["a"]).same_as(&action("open", &["a", "b"])));
    assert!(!action("open", &["a"]).same_as(&action("close", &["a"])));
}

#[test]
fn placeholder_expansion_for_one_note() {
    let shortcuts: Table<PartialAction> = Table::new();
    let found = generate_palette_actions(
        &shortcuts,
        "Open $note_path".to_string(),
        None,
        generator("open", &["$note_path"]),
        &vec![("a.md".to_string(), "a".to_string())],
    );
    assert_eq!(found.len(), 1);
    assert_eq!(found[0].title, "Open a");
    assert_eq!(found[0].action, action("open", &["a.md"]));
    assert_eq!(found[0].icon, None);
    assert_eq!(found[0].shortcut, None);
}

#[test]
fn note_locater_placeholder_gets_the_note_prefix() {
    let shortcuts: Table<PartialAction> = Table::new();
    let found = generate_palette_actions(
        &shortcuts,
        "Show $note_locater".to_string(),
        Some("window".to_string()),
        generator("window", &["fixed", "$note_locater", "$note_locater"]),
        &notes(&["a.md", "my_note.md"]),
    );
    assert_eq!(titles(&found), vec!["Show a", "Show my note"]);
    assert_eq!(found[0].action, action("window", &["fixed", "note:a.md", "$note_locater"]));
    assert_eq!(found[1].action, action("window", &["fixed", "note:my_note.md", "$note_locater"]));
    assert_eq!(found[1].icon, Some("window".to_string()));
}

#[test]
fn a_line_without_placeholder_is_one_entry() {
    let shortcuts: Table<PartialAction> = Table::new();
    let found = generate_palette_actions(
        &shortcuts,
        "Settings".to_string(),
        None,
        generator("window", &["settings"]),
        &notes(&["a.md", "b.md"]),
    );
    assert_eq!(titles(&found), vec!["Settings"]);
    assert_eq!(found[0].action, action("window", &["settings"]));
}

#[test]
fn a_placeholder_in_the_arguments_alone_expands_too() {
    let shortcuts: Table<PartialAction> = Table::new();
    let found = generate_palette_actions(
        &shortcuts,
        "Open".to_string(),
        None,
        generator("open", &["$note_path"]),
        &notes(&["a.md", "b.md"]),
    );
    assert_eq!(titles(&found), vec!["Open", "Open"]);
    assert_eq!(found[0].action, action("open", &["a.md"]));
    assert_eq!(found[1].action, action("open", &["b.md"]));
}

#[test]
fn a_placeholder_line_with_no_notes_is_empty() {
    let shortcuts: Table<PartialAction> = Table::new();
    let found = generate_palette_actions(
        &shortcuts,
        "Open $note_path".to_string(),
        None,
        generator("open", &["$note_path"]),
        &vec![],
    );
    assert!(found.is_empty());
}

#[test]
fn the_title_placeholder_is_replaced_wherever_it_stands() {
    let shortcuts: Table<PartialAction> = Table::new();
    let found = generate_palette_actions(
        &shortcuts,
        "$note_path: open $note_path".to_string(),
        None,
        generator("open", &[]),
        &notes(&["a.md"]),
    );
    assert_eq!(titles(&found), vec!["a: open a"]);
    assert_eq!(found[0].action, action("open", &[]));
}

#[test]
fn resolve_args_replaces_the_first_placeholder_only() {
    let args = strings(&["x", "$note_path", "$note_path"]);
    assert_eq!(resolve_args(&args, "$note_path", "a.md"), strings(&["x", "a.md", "$note_path"]));
    assert_eq!(resolve_args(&args, "$note_locater", "a.md"), args);
}

#[test]
fn shortcut_is_looked_up_by_the_resolved_action() {
    let actions = catalog();
    assert_eq!(find_shortcut(&actions.shortcuts, &action("new_note", &[])), Some("cmd+n".to_string()));
    assert_eq!(find_shortcut(&actions.shortcuts, &action("open", &["b.md"])), Some("cmd+o".to_string()));
    assert_eq!(find_shortcut(&actions.shortcuts, &action("open", &["a.md"])), None);
    let found = get_all_palette_actions(&actions, "main", &notes(&["a.md", "b.md"])).unwrap();
    let shortcuts: Vec<Option<String>> = found.iter().map(|a| a.shortcut.clone()).collect();
    assert_eq!(
        shortcuts,
        vec![Some("cmd+n".to_string()), None, Some("cmd+o".to_string()), None]
    );
}

#[test]
fn all_palette_actions_come_line_by_line() {
    let actions = catalog();
    let found = get_all_palette_actions(&actions, "main", &notes(&["a.md", "b.md"])).unwrap();
    assert_eq!(titles(&found), vec!["New note", "Open a", "Open b", "Settings"]);
    assert_eq!(found[0].icon, Some("plus".to_string()));
    assert_eq!(found[1].icon, None);
    assert_eq!(found[2].action, action("open", &["b.md"]));
    let found = get_all_palette_actions(&actions, "windows", &notes(&["a.md"])).unwrap();
    assert_eq!(titles(&found), vec!["Show a"]);
    assert_eq!(found[0].icon, Some("window".to_string()));
    assert_eq!(found[0].action, action("window", &["note:a.md", "floating"]));
}

#[test]
fn an_unknown_palette_key_is_an_error() {
    let actions = catalog();
    assert_eq!(
        get_all_palette_actions(&actions, "missing", &notes(&["a.md"])),
        Err(PaletteError::InvalidPaletteKey)
    );
    assert_eq!(
        get_palette_actions(&actions, "", vec![], &notes(&["a.md"])),
        Err(PaletteError::InvalidPaletteKey)
    );
    assert_eq!(PaletteError::InvalidPaletteKey.message(), "invalid palette key");
}

#[test]
fn filters_rule_entries_out() {
    let actions = catalog();
    let all = notes(&["a.md", "b.md"]);
    let found =
        get_palette_actions(&actions, "main", vec![filter("open", &[Some("a.md")])], &all).unwrap();
    assert_eq!(titles(&found), vec!["New note", "Open b", "Settings"]);
    let found = get_palette_actions(&actions, "main", vec![filter("open", &[None])], &all).unwrap();
    assert_eq!(titles(&found), vec!["New note", "Settings"]);
    let found = get_palette_actions(
        &actions,
        "main",
        vec![filter("new_note", &[]), filter("window", &[Some("settings")])],
        &all,
    )
    .unwrap();
    assert_eq!(titles(&found), vec!["Open a", "Open b"]);
    let found = get_palette_actions(&actions, "main", vec![], &all).unwrap();
    assert_eq!(found.len(), 4);
    let unfiltered = get_all_palette_actions(&actions, "main", &all).unwrap();
    assert_eq!(apply_filters(&unfiltered, &vec![filter("open", &[])]).len(), 2);
}

#[test]
fn a_palette_is_searched_by_title() {
    let actions = catalog();
    let mut palettes = Palettes::new();
    let id = create_palette(&mut palettes, &actions, &notes(&["a.md", "b.md"]), "main", vec![])
        .unwrap();
    assert_eq!(id, SearcherId(0));
    let found = settled(&mut palettes, id, "open", 0..10).unwrap();
    let found_titles: Vec<String> = found.iter().map(|m| m.payload.title.clone()).collect();
    assert_eq!(found_titles, vec!["Open a", "Open b"]);
    assert_eq!(found[0].indices, vec![0, 1, 2, 3]);
    let found = settled(&mut palettes, id, "", 1..3).unwrap();
    let found_titles: Vec<String> = found.iter().map(|m| m.payload.title.clone()).collect();
    assert_eq!(found_titles, vec!["Open a", "Open b"]);
    delete_palette(&mut palettes, id);
    assert!(settled(&mut palettes, id, "open", 0..10).is_none());
}

#[test]
fn creating_a_palette_under_an_unknown_key_changes_nothing() {
    let actions = catalog();
    let mut palettes = Palettes::new();
    assert_eq!(
        create_palette(&mut palettes, &actions, &notes(&["a.md"]), "nope", vec![]),
        Err(PaletteError::InvalidPaletteKey)
    );
    let id = create_palette(&mut palettes, &actions, &notes(&["a.md"]), "main", vec![]).unwrap();
    assert_eq!(id, SearcherId(0));
}

#[test]
fn matched_palette_action_keeps_indices_and_entry() {
    let entry = PaletteAction {
        title: "Open a".to_string(),
        icon: None,
        shortcut: None,
        action: action("open", &["a.md"]),
    };
    let matched = Matched { indices: vec![0, 5], payload: entry.clone() };
    assert_eq!(
        MatchedPaletteAction::from_matched(matched),
        MatchedPaletteAction { indices: vec![0, 5], palette_action: entry }
    );
}

#[test]
fn a_listing_keeps_the_entries_that_hold_every_word() {
    let actions = catalog();
    let all = notes(&["first_note.md", "second_note.md", "other.md"]);
    let list = |search: &str| -> Vec<String> {
        titles(&brot::command::get_palette_actions(&actions, "main", search, vec![], &all).unwrap())
    };
    assert_eq!(list("").len(), 5);
    assert_eq!(list("  "), list(""));
    assert_eq!(list("Open"), vec!["Open first note", "Open second note", "Open other"]);
    assert_eq!(list("note Open"), vec!["Open first note", "Open second note"]);
    assert_eq!(list("open"), Vec::<String>::new());
    assert_eq!(list("Open note first"), vec!["Open first note"]);
    assert_eq!(
        brot::command::get_palette_actions(&actions, "none", "", vec![], &all),
        Err(PaletteError::InvalidPaletteKey)
    );
    let filtered = brot::command::get_palette_actions(
        &actions,
        "main",
        "Open",
        vec![filter("open", &[Some("other.md")])],
        &all,
    )
    .unwrap();
    assert_eq!(titles(&filtered), vec!["Open first note", "Open second note"]);
}

#[test]
fn a_listing_ends_after_ten_entries() {
    let actions = catalog();
    let paths: Vec<String> = (0..25).map(|i| format!("n{i}.md")).collect();
    let refs: Vec<&str> = paths.iter().map(|p| p.as_str()).collect();
    let all = notes(&refs);
    let found = brot::command::get_palette_actions(&actions, "main", "Open", vec![], &all).unwrap();
    assert_eq!(found.len(), 10);
    assert_eq!(found[0].title, "Open n0");
    assert_eq!(found[9].title, "Open n9");
}

#[test]
fn title_and_arguments_are_resolved_each_on_its_own() {
    let shortcuts: Table<PartialAction> = Table::new();
    let found = generate_palette_actions(
        &shortcuts,
        "Open $note_path".to_string(),
        None,
        generator("open", &["$note_locater"]),
        &notes(&["a.md", "my_note.md"]),
    );
    assert_eq!(titles(&found), vec!["Open a", "Open my note"]);
    assert_eq!(found[0].action, action("open", &["note:a.md"]));
    assert_eq!(found[1].action, action("open", &["note:my_note.md"]));
    let found = generate_palette_actions(
        &shortcuts,
        "Show $note_locater".to_string(),
        None,
        generator("show", &["$note_path", "$note_locater", "x"]),
        &notes(&["a.md"]),
    );
    assert_eq!(titles(&found), vec!["Show a"]);
    assert_eq!(found[0].action, action("show", &["a.md", "note:a.md", "x"]));
}

#[test]
fn a_title_with_both_placeholders_has_both_replaced() {
    let shortcuts: Table<PartialAction> = Table::new();
    let entry = generate_for_note(
        &shortcuts,
        "$note_path as $note_locater, $note_pat",
        &None,
        &generator("open", &[]),
        "a.md",
        "a",
    );
    assert_eq!(entry.title, "a as a, $note_pat");
    assert_eq!(entry.action, action("open", &[]));
}

#[test]
fn what_was_put_into_a_title_is_not_looked_at_again() {
    let shortcuts: Table<PartialAction> = Table::new();
    let entry = generate_for_note(
        &shortcuts,
        "$note_$note_locater",
        &None,
        &generator("open", &[]),
        "x.md",
        "path",
    );
    assert_eq!(entry.title, "$note_path");
}

#[test]
fn a_line_stands_for_the_notes_where_it_mentions_a_placeholder() {
    assert!(is_per_note("Open $note_path", &strings(&[])));
    assert!(is_per_note("Show $note_locater", &strings(&[])));
    assert!(is_per_note("Open", &strings(&["x", "$note_path"])));
    assert!(is_per_note("Open", &strings(&["$note_locater"])));
    assert!(!is_per_note("Open", &strings(&["note_path", "$note_paths"])));
    assert!(!is_per_note("Open $note_pat", &strings(&[])));
    assert!(!is_per_note("", &strings(&[])));
}

#[test]
fn the_notes_are_needed_only_for_a_palette_with_a_line_for_them() {
    let mut actions = catalog();
    assert!(needs_notes(&actions, "main"));
    assert!(needs_notes(&actions, "windows"));
    assert!(!needs_notes(&actions, "missing"));
    let mut plain: Table<PartialActionGenerator> = Table::new();
    plain.insert("!gear Settings".to_string(), generator("window", &["settings"]));
    plain.insert("New".to_string(), generator("new_note", &[]));
    actions.palettes.insert("plain".to_string(), plain);
    assert!(!needs_notes(&actions, "plain"));
    let with = get_all_palette_actions(&actions, "plain", &notes(&["a.md", "b.md"])).unwrap();
    let without = get_all_palette_actions(&actions, "plain", &vec![]).unwrap();
    assert_eq!(with, without);
    assert_eq!(titles(&with), vec!["Settings", "New"]);
}
