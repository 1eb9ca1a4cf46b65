use brot::locater::{Locater, LocaterError};
use brot::settings::Settings;
use brot::window_state::WindowState;

fn note(path: &str) -> Locater {
    Locater::Note { path: path.to_string() }
}

fn pairs(v: &[(&str, &str)]) -> Vec<(String, String)> {
    v.iter().map(|(k, v)| (k.to_string(), v.to_string())).collect()
}

#[test]
fn into_path_gives_the_address() {
    assert_eq!(Locater::Settings.into_path(), "/settings");
    assert_eq!(Locater::Pinned.into_path(), "/");
    assert_eq!(Locater::New.into_path(), "/new");
    assert_eq!(note("my_note.md").into_path(), "/note?p=my_note.md");
    assert_eq!(note("").into_path(), "/note?p=");
}

#[test]
fn from_url_reads_path_and_query() {
    assert_eq!(Locater::from_url("/settings", &[]), Some(Locater::Settings));
    assert_eq!(Locater::from_url("/new", &[]), Some(Locater::New));
    assert_eq!(Locater::from_url("/", &[]), Some(Locater::Pinned));
    assert_eq!(Locater::from_url("/note", &pairs(&[("p", "a.md")])), Some(note("a.md")));
    assert_eq!(
        Locater::from_url("/note", &pairs(&[("q", "x"), ("p", "a.md"), ("p", "b.md")])),
        Some(note("a.md"))
    );
    assert_eq!(Locater::from_url("/note", &pairs(&[("q", "x")])), None);
    assert_eq!(Locater::from_url("/note", &[]), None);
    assert_eq!(Locater::from_url("/other", &pairs(&[("p", "a.md")])), None);
    assert_eq!(Locater::from_url("", &[]), None);
    assert_eq!(Locater::from_url("/settings/", &[]), None);
}

#[test]
fn tokens_are_written_and_read_back() {
    for locater in [Locater::Pinned, Locater::Settings, Locater::New, note("a.md"), note("")] {
        let token = locater.to_token();
        assert_eq!(Locater::from_token(&token), Ok(locater));
    }
    assert_eq!(note("a.md").to_token(), "note:a.md");
    assert_eq!(Locater::Pinned.to_token(), "pinned");
    assert_eq!(Locater::Settings.to_token(), "settings");
    assert_eq!(Locater::New.to_token(), "new");
    assert_eq!(Locater::from_token("note:pinned"), Ok(note("pinned")));
}

#[test]
fn a_token_of_no_form_is_an_error() {
    let error = Locater::from_token("bogus").unwrap_err();
    assert_eq!(error, LocaterError::Invalid("bogus".to_string()));
    assert_eq!(error.message(), "Invalid Locater string: bogus");
    assert!(Locater::from_token("").is_err());
    assert!(Locater::from_token("note").is_err());
    assert!(Locater::from_token("Pinned").is_err());
    assert!(Locater::from_token("pinned ").is_err());
}

#[test]
fn default_window_state_is_six_hundred_by_twelve_hundred() {
    assert_eq!(
        WindowState::default(),
        WindowState { width: 600, height: 1200, x: 0, y: 0, floating: false }
    );
}

#[test]
fn default_settings_are_empty() {
    let settings = Settings::default();
    assert_eq!(settings.notes_path, None);
    assert_eq!(settings.window_states.len(), 0);
    assert_eq!(settings.minimized_pinned_paths, None);
    assert_eq!(settings.window_state(&Locater::Pinned), WindowState::default());
}

#[test]
fn window_state_is_stored_only_where_it_differs() {
    let mut settings = Settings::default();
    let first = WindowState { width: 800, height: 600, x: 10, y: -20, floating: true };
    assert!(settings.update_window_state(&note("a.md"), first));
    assert!(!settings.update_window_state(&note("a.md"), first));
    assert!(settings.update_window_state(&Locater::Pinned, first));
    let moved = WindowState { x: 11, ..first };
    assert!(settings.update_window_state(&note("a.md"), moved));
    assert_eq!(settings.window_state(&note("a.md")), moved);
    assert_eq!(settings.window_state(&Locater::Pinned), first);
    assert_eq!(settings.window_state(&Locater::New), WindowState::default());
    assert_eq!(settings.window_states.keys(), vec!["note:a.md", "pinned"]);
}

#[test]
fn the_folded_notes_are_a_set() {
    let mut settings = Settings::default();
    assert!(!settings.is_minimized("a.md"));
    settings.set_minimized_pinned_paths(Some(vec![
        "a.md".to_string(),
        "b.md".to_string(),
        "a.md".to_string(),
        "c.md".to_string(),
        "b.md".to_string(),
    ]));
    assert_eq!(
        settings.minimized_pinned_paths,
        Some(vec!["a.md".to_string(), "b.md".to_string(), "c.md".to_string()])
    );
    assert!(settings.is_minimized("b.md"));
    assert!(!settings.is_minimized("d.md"));
    assert_eq!(settings.clone().minimized_pinned_paths, settings.minimized_pinned_paths);
    settings.set_minimized_pinned_paths(None);
    assert_eq!(settings.minimized_pinned_paths, None);
    settings.set_minimized_pinned_paths(Some(vec![]));
    assert_eq!(settings.minimized_pinned_paths, Some(vec![]));
}
