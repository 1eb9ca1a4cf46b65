use brot::action::{
    ActionEntry, ActionError, FieldValue, PartialAction, PartialActionGenerator, EXPECTING,
};

fn strings(v: &[&str]) -> Vec<String> {
    v.iter().map(|s| s.to_string()).collect()
}

fn text(s: &str) -> FieldValue {
    FieldValue::Text(s.to_string())
}

fn list(v: &[&str]) -> FieldValue {
    FieldValue::List(strings(v))
}

fn record(fields: Vec<(&str, FieldValue)>) -> ActionEntry {
    ActionEntry::Record(fields.into_iter().map(|(n, v)| (n.to_string(), v)).collect())
}

fn action(key: &str, args: &[&str]) -> PartialAction {
    PartialAction { key: key.to_string(), args: strings(args) }
}

#[test]
fn an_action_in_short_is_its_key() {
    assert_eq!(
        PartialAction::from_entry(ActionEntry::Text("new_note".to_string())),
        Ok(action("new_note", &[]))
    );
    assert_eq!(PartialAction::from_entry(ActionEntry::Text(String::new())), Ok(action("", &[])));
}

#[test]
fn an_action_in_full_has_key_and_arguments() {
    assert_eq!(
        PartialAction::from_entry(record(vec![
            ("key", text("open")),
            ("args", list(&["$note_path", "x"]))
        ])),
        Ok(action("open", &["$note_path", "x"]))
    );
    assert_eq!(
        PartialAction::from_entry(record(vec![("args", list(&["a"])), ("key", text("open"))])),
        Ok(action("open", &["a"]))
    );
    assert_eq!(
        PartialAction::from_entry(record(vec![("key", text("open"))])),
        Ok(action("open", &[]))
    );
}

#[test]
fn a_record_without_key_is_an_error() {
    let error = PartialAction::from_entry(record(vec![("args", list(&["a"]))])).unwrap_err();
    assert_eq!(error, ActionError::MissingField("key".to_string()));
    assert_eq!(error.message(), "missing field `key`");
    assert_eq!(
        PartialAction::from_entry(record(vec![])),
        Err(ActionError::MissingField("key".to_string()))
    );
}

#[test]
fn a_field_that_occurs_twice_is_an_error() {
    let error = PartialAction::from_entry(record(vec![
        ("key", text("open")),
        ("key", text("close")),
    ]))
    .unwrap_err();
    assert_eq!(error, ActionError::DuplicateField("key".to_string()));
    assert_eq!(error.message(), "duplicate field `key`");
    assert_eq!(
        PartialAction::from_entry(record(vec![
            ("args", list(&[])),
            ("key", text("open")),
            ("args", FieldValue::Other),
        ])),
        Err(ActionError::DuplicateField("args".to_string()))
    );
}

#[test]
fn a_field_of_another_name_is_an_error() {
    let error = PartialAction::from_entry(record(vec![
        ("key", text("open")),
        ("arg", list(&["a"])),
    ]))
    .unwrap_err();
    assert_eq!(error, ActionError::UnknownField("arg".to_string()));
    assert_eq!(error.message(), "unknown field `arg`, expected `key` or `args`");
}

#[test]
fn a_value_of_the_wrong_kind_is_an_error() {
    let error =
        PartialAction::from_entry(record(vec![("key", list(&["open"]))])).unwrap_err();
    assert_eq!(error, ActionError::InvalidValue("key".to_string()));
    assert_eq!(error.message(), "invalid value of field `key`");
    assert_eq!(
        PartialAction::from_entry(record(vec![("key", text("open")), ("args", text("a"))])),
        Err(ActionError::InvalidValue("args".to_string()))
    );
    assert_eq!(
        PartialAction::from_entry(record(vec![("key", FieldValue::Other)])),
        Err(ActionError::InvalidValue("key".to_string()))
    );
}

#[test]
fn the_first_faulty_field_decides_the_error() {
    assert_eq!(
        PartialAction::from_entry(record(vec![
            ("bogus", text("x")),
            ("key", text("a")),
            ("key", text("b")),
        ])),
        Err(ActionError::UnknownField("bogus".to_string()))
    );
    assert_eq!(
        PartialAction::from_entry(record(vec![("args", text("x")), ("bogus", text("x"))])),
        Err(ActionError::InvalidValue("args".to_string()))
    );
}

#[test]
fn an_entry_of_another_kind_is_an_error() {
    let error = PartialAction::from_entry(ActionEntry::Other).unwrap_err();
    assert_eq!(error, ActionError::InvalidEntry);
    assert_eq!(error.message(), format!("invalid type, expected {EXPECTING}"));
}

#[test]
fn the_action_of_a_palette_line_is_read_the_same_way() {
    assert_eq!(
        PartialActionGenerator::from_entry(ActionEntry::Text("open".to_string())),
        Ok(PartialActionGenerator { key: "open".to_string(), args: vec![] })
    );
    assert_eq!(
        PartialActionGenerator::from_entry(record(vec![
            ("key", text("open")),
            ("args", list(&["$note_path"]))
        ])),
        Ok(PartialActionGenerator { key: "open".to_string(), args: strings(&["$note_path"]) })
    );
    assert_eq!(
        PartialActionGenerator::from_entry(record(vec![("args", list(&[]))])),
        Err(ActionError::MissingField("key".to_string()))
    );
}

#[test]
fn cloning_an_action_keeps_key_and_arguments() {
    let open = action("open", &["a", "b"]);
    assert_eq!(open.clone(), open);
}
