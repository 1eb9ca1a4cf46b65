use brot::pattern::{Patterns, TAG_SEPARATOR, UNSAFE_CHARACTERS};
use brot::title::{path_to_title, title_to_path};

#[test]
fn path_to_title_reads_underscores_as_spaces() {
    assert_eq!(path_to_title("my_first_note.md"), "my first note");
}

#[test]
fn path_to_title_keeps_a_path_without_extension() {
    assert_eq!(path_to_title("plain_name"), "plain name");
    assert_eq!(path_to_title("md"), "md");
    assert_eq!(path_to_title(""), "");
}

#[test]
fn title_to_path_replaces_unsafe_runs() {
    let patterns = Patterns::new().unwrap();
    assert_eq!(title_to_path("my first  note", &patterns), "my_first_note.md");
    assert_eq!(title_to_path("a/b: c?", &patterns), "a_b_c.md");
    assert_eq!(title_to_path("  padded  ", &patterns), "padded.md");
}

#[test]
fn patterns_are_made_where_both_expressions_compiled() {
    let unsafe_characters = || regex::Regex::new(UNSAFE_CHARACTERS).ok();
    let tag_separator = || regex::Regex::new(TAG_SEPARATOR).ok();
    let patterns = Patterns::from_compiled(unsafe_characters(), tag_separator()).unwrap();
    assert_eq!(title_to_path("a b", &patterns), "a_b.md");
    assert_eq!(patterns.split_levels("a--b"), vec!["a", "b"]);
    assert!(Patterns::from_compiled(None, tag_separator()).is_none());
    assert!(Patterns::from_compiled(unsafe_characters(), None).is_none());
    assert!(Patterns::from_compiled(None, None).is_none());
    assert!(Patterns::new().is_some());
}
