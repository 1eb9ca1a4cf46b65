use brot::cache::Access;
use brot::message::{
    check_pin, handle_index, handle_palettes, handle_suggesters, try_handle_index, ClientMessage,
    IndexError, Route, ServerMessage,
};
use brot::meta::{Meta, MetaHolder, TagConfig};
use brot::note::Note;
use brot::palette::Palettes;
use brot::palette_action::PaletteAction;
use brot::action::PartialAction;
use brot::pattern::Patterns;
use brot::searcher::{SearcherId, SearcherManager};
use brot::settings::Settings;
use brot::suggester::{SuggesterSource, Suggestion};

fn strings(v: &[&str]) -> Vec<String> {
    v.iter().map(|s| s.to_string()).collect()
}

fn holder(pinned: &[&str]) -> MetaHolder {
    let mut meta = Meta::default();
    meta.pinned = strings(pinned);
    meta.tag_configs.insert(
        "work".to_string(),
        TagConfig { abbreviation: Some("w".to_string()), hue_bits: None },
    );
    MetaHolder::new(meta, &Patterns::new().unwrap())
}

fn entry(title: &str) -> PaletteAction {
    PaletteAction {
        title: title.to_string(),
        icon: None,
        shortcut: None,
        action: PartialAction { key: title.to_string(), args: vec![] },
    }
}

#[test]
fn every_request_has_its_route() {
    let id = SearcherId(0);
    let text = || "x".to_string();
    assert_eq!(ClientMessage::GetSettings.route(), Route::Settings);
    assert_eq!(
        ClientMessage::UpdateSettings { settings: Settings::default() }.route(),
        Route::Settings
    );
    assert_eq!(ClientMessage::GetNote { path: text() }.route(), Route::Notes);
    assert_eq!(ClientMessage::UpdateNote { path: text(), note: Note::new() }.route(), Route::Notes);
    assert_eq!(
        ClientMessage::UpdatePath { current_path: text(), new_title: text() }.route(),
        Route::Notes
    );
    assert_eq!(ClientMessage::CreateNote { title: text() }.route(), Route::Notes);
    assert_eq!(
        ClientMessage::CreatePalette { palette_key: text(), filters: vec![] }.route(),
        Route::OpenPalette
    );
    assert_eq!(ClientMessage::DeletePalette { id }.route(), Route::Palettes);
    assert_eq!(
        ClientMessage::SearchPalette { id, search: text(), start: 0, end: 1 }.route(),
        Route::Palettes
    );
    assert_eq!(
        ClientMessage::CreateSuggester { suggester_source: SuggesterSource::Tag }.route(),
        Route::OpenSuggester
    );
    assert_eq!(ClientMessage::SearchSuggester { id, search: text() }.route(), Route::Suggesters);
    assert_eq!(ClientMessage::DeleteSuggester { id }.route(), Route::Suggesters);
    assert_eq!(ClientMessage::AddPinned { path: text(), position: 0 }.route(), Route::Index);
    assert_eq!(ClientMessage::RemovePinned { path: text() }.route(), Route::Index);
    assert_eq!(ClientMessage::GetPinned.route(), Route::Index);
    assert_eq!(ClientMessage::GetTagConfigs.route(), Route::Index);
    assert_eq!(ClientMessage::GetActions.route(), Route::Catalog);
    assert_eq!(ClientMessage::Refresh.route(), Route::Refresh);
}

#[test]
fn pinning_twice_stores_once() {
    let mut holder = holder(&["a.md", "b.md"]);
    let first = handle_index(
        &mut holder,
        ClientMessage::AddPinned { path: "x.md".to_string(), position: 1 },
    )
    .unwrap();
    assert!(matches!(first.message, ServerMessage::AddPinned));
    assert_eq!(first.access, Access::Write);
    let second = handle_index(
        &mut holder,
        ClientMessage::AddPinned { path: "x.md".to_string(), position: 0 },
    )
    .unwrap();
    assert!(matches!(second.message, ServerMessage::AddPinned));
    assert_eq!(second.access, Access::Read);
    assert_eq!(holder.meta().pinned, strings(&["a.md", "x.md", "b.md"]));
}

#[test]
fn the_pinned_list_is_read_and_unpinned_from() {
    let mut holder = holder(&["a.md", "b.md"]);
    let read = handle_index(&mut holder, ClientMessage::GetPinned).unwrap();
    assert_eq!(read.access, Access::Read);
    match read.message {
        ServerMessage::GetPinned(pinned) => assert_eq!(pinned, strings(&["a.md", "b.md"])),
        _ => panic!("another answer"),
    }
    let removed =
        handle_index(&mut holder, ClientMessage::RemovePinned { path: "a.md".to_string() }).unwrap();
    assert!(matches!(removed.message, ServerMessage::RemovePinned));
    assert_eq!(removed.access, Access::Write);
    assert_eq!(holder.meta().pinned, strings(&["b.md"]));
}

#[test]
fn the_tag_configurations_are_read() {
    let mut holder = holder(&[]);
    let read = handle_index(&mut holder, ClientMessage::GetTagConfigs).unwrap();
    assert_eq!(read.access, Access::Read);
    match read.message {
        ServerMessage::GetTagConfigs(configs) => {
            assert_eq!(configs.keys(), strings(&["work"]));
            assert_eq!(configs.get("work").unwrap().abbreviation, Some("w".to_string()));
        }
        _ => panic!("another answer"),
    }
}

#[test]
fn a_request_for_something_else_is_not_handled() {
    let mut holder = holder(&["a.md"]);
    assert!(handle_index(&mut holder, ClientMessage::Refresh).is_none());
    assert!(handle_index(&mut holder, ClientMessage::GetActions).is_none());
    assert_eq!(holder.meta().pinned, strings(&["a.md"]));
    let mut palettes = Palettes::new();
    assert!(handle_palettes(&mut palettes, ClientMessage::GetPinned).is_none());
    assert!(handle_palettes(&mut palettes, ClientMessage::DeleteSuggester { id: SearcherId(0) })
        .is_none());
    let mut suggesters: SearcherManager<Suggestion> = SearcherManager::new();
    assert!(handle_suggesters(&mut suggesters, ClientMessage::GetPinned).is_none());
    assert!(handle_suggesters(&mut suggesters, ClientMessage::DeletePalette { id: SearcherId(0) })
        .is_none());
}

#[test]
fn palettes_are_searched_and_deleted_by_request() {
    let mut palettes = Palettes::new();
    let id = palettes.new_searcher(&[entry("Open a"), entry("Close")]);
    let search = |palettes: &mut Palettes, query: &str| loop {
        let answer = handle_palettes(
            palettes,
            ClientMessage::SearchPalette { id, search: query.to_string(), start: 0, end: 10 },
        );
        if palettes.is_running(id) != Some(true) {
            break answer;
        }
    };
    match search(&mut palettes, "open") {
        Some(ServerMessage::SearchPalette(Some(found))) => {
            assert_eq!(found.len(), 1);
            assert_eq!(found[0].payload, entry("Open a"));
        }
        _ => panic!("another answer"),
    }
    assert!(matches!(
        handle_palettes(&mut palettes, ClientMessage::DeletePalette { id }),
        Some(ServerMessage::DeletePalette)
    ));
    assert!(matches!(search(&mut palettes, "open"), Some(ServerMessage::SearchPalette(None))));
}

#[test]
fn suggesters_are_searched_in_their_window_and_deleted_by_request() {
    let mut suggesters: SearcherManager<Suggestion> = SearcherManager::new();
    let all: Vec<Suggestion> =
        (0..8).map(|i| Suggestion { value: format!("-tag{i}") }).collect();
    let id = suggesters.new_searcher(&all);
    let search = |suggesters: &mut SearcherManager<Suggestion>| loop {
        let answer = handle_suggesters(
            suggesters,
            ClientMessage::SearchSuggester { id, search: "tag".to_string() },
        );
        if suggesters.is_running(id) != Some(true) {
            break answer;
        }
    };
    match search(&mut suggesters) {
        Some(ServerMessage::SearchSuggester(Some(found))) => assert_eq!(found.len(), 5),
        _ => panic!("another answer"),
    }
    assert!(matches!(
        handle_suggesters(&mut suggesters, ClientMessage::DeleteSuggester { id }),
        Some(ServerMessage::DeleteSuggester)
    ));
    assert!(matches!(search(&mut suggesters), Some(ServerMessage::SearchSuggester(None))));
}

#[test]
fn a_request_to_pin_past_the_end_is_an_error() {
    let mut holder = holder(&["a.md"]);
    let past = || ClientMessage::AddPinned { path: "x.md".to_string(), position: 2 };
    assert!(!check_pin(&holder, &past()));
    let error = match try_handle_index(&mut holder, past()) {
        Err(error) => error,
        Ok(_) => panic!("the request was carried out"),
    };
    assert_eq!(error, IndexError::PositionPastTheEnd);
    assert_eq!(error.message(), "the position lies past the end of the pinned list");
    assert_eq!(holder.meta().pinned, strings(&["a.md"]));
    let pinned = || ClientMessage::AddPinned { path: "a.md".to_string(), position: 9 };
    assert!(check_pin(&holder, &pinned()));
    let answer = try_handle_index(&mut holder, pinned()).ok().flatten().unwrap();
    assert_eq!(answer.access, Access::Read);
    let within = ClientMessage::AddPinned { path: "x.md".to_string(), position: 1 };
    let answer = try_handle_index(&mut holder, within).ok().flatten().unwrap();
    assert_eq!(answer.access, Access::Write);
    assert_eq!(holder.meta().pinned, strings(&["a.md", "x.md"]));
    assert!(matches!(try_handle_index(&mut holder, ClientMessage::Refresh), Ok(None)));
    assert!(check_pin(&holder, &ClientMessage::GetPinned));
}
