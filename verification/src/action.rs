//! The action catalog: what a shortcut or a palette entry does.
//!
//! An action is a command key with its arguments. The catalog document may
//! write an action in short, as the bare key, or in full, as a record with
//! the fields `key` and `args`.

use vstd::prelude::*;
use crate::table::{has_key, index_of_key, keys_of, value_of, Table};
use crate::text::{copy_texts, joined, texts};

verus! {

/// A command key and its arguments, as texts.
pub struct ActionView {
    pub key: Seq<char>,
    pub args: Seq<Seq<char>>,
}

/// A filter on actions, as texts: an argument that is `None` admits any.
pub struct FilterView {
    pub key: Seq<char>,
    pub args: Seq<Option<Seq<char>>>,
}

/// An action: a command key and its arguments.
#[derive(Debug, PartialEq, Eq, Hash)]
pub struct PartialAction {
    pub key: String,
    pub args: Vec<String>,
}

/// The action of a palette entry. Its arguments may hold placeholders that
/// are resolved for each note when the palette is opened.
#[derive(Debug, PartialEq, Eq)]
pub struct PartialActionGenerator {
    pub key: String,
    pub args: Vec<String>,
}

/// A filter on actions: a command key, and for each argument position
/// either a text that the argument must equal or `None` for any.
#[derive(Debug, PartialEq, Eq)]
pub struct PartialActionFilter {
    pub key: String,
    pub args: Vec<Option<String>>,
}

/// The action catalog.
pub struct Actions {
    /// For each shortcut, what it does.
    pub shortcuts: Table<PartialAction>,
    /// For each palette, its entries: for each title, what choosing it does.
    pub palettes: Table<Table<PartialActionGenerator>>,
}

impl Default for Actions {
    /// The catalog without shortcuts and without palettes.
    fn default() -> (actions: Self)
        ensures
            actions.shortcuts@.len() == 0,
            actions.palettes@.len() == 0,
    {
        Actions { shortcuts: Table::new(), palettes: Table::new() }
    }
}

/// The entries of a table of actions, as texts.
pub open spec fn action_views(entries: Seq<(Seq<char>, PartialAction)>) -> Seq<
    (Seq<char>, ActionView),
> {
    entries.map_values(|e: (Seq<char>, PartialAction)| (e.0, e.1@))
}

/// The lines of a palette, as texts.
pub open spec fn line_views(lines: Seq<(Seq<char>, PartialActionGenerator)>) -> Seq<
    (Seq<char>, ActionView),
> {
    lines.map_values(|l: (Seq<char>, PartialActionGenerator)| (l.0, l.1@))
}

/// The palettes of a catalog, as texts.
pub open spec fn palette_views(palettes: Seq<(Seq<char>, Table<PartialActionGenerator>)>) -> Seq<
    (Seq<char>, Seq<(Seq<char>, ActionView)>),
> {
    palettes.map_values(|p: (Seq<char>, Table<PartialActionGenerator>)| (p.0, line_views(p.1@)))
}

impl Clone for Actions {
    fn clone(&self) -> (copy: Self)
        ensures
            action_views(copy.shortcuts@) == action_views(self.shortcuts@),
            palette_views(copy.palettes@) == palette_views(self.palettes@),
    {
        let copy = Actions { shortcuts: self.shortcuts.clone(), palettes: self.palettes.clone() };
        proof {
            assert(keys_of(copy.shortcuts@).len() == copy.shortcuts@.len());
            assert(keys_of(self.shortcuts@).len() == self.shortcuts@.len());
            assert forall|i: int| 0 <= i < self.shortcuts@.len() implies action_views(
                copy.shortcuts@,
            )[i] == action_views(self.shortcuts@)[i] by {
                assert(keys_of(copy.shortcuts@)[i] == copy.shortcuts@[i].0);
                assert(keys_of(self.shortcuts@)[i] == self.shortcuts@[i].0);
                assert(cloned(self.shortcuts@[i].1, copy.shortcuts@[i].1));
            }
            assert(action_views(copy.shortcuts@) =~= action_views(self.shortcuts@));
            assert(keys_of(copy.palettes@).len() == copy.palettes@.len());
            assert(keys_of(self.palettes@).len() == self.palettes@.len());
            assert forall|i: int| 0 <= i < self.palettes@.len() implies palette_views(
                copy.palettes@,
            )[i] == palette_views(self.palettes@)[i] by {
                assert(keys_of(copy.palettes@)[i] == copy.palettes@[i].0);
                assert(keys_of(self.palettes@)[i] == self.palettes@[i].0);
                let before = self.palettes@[i].1;
                let after = copy.palettes@[i].1;
                assert(cloned(before, after));
                assert(keys_of(after@).len() == after@.len());
                assert(keys_of(before@).len() == before@.len());
                assert forall|j: int| 0 <= j < before@.len() implies line_views(after@)[j]
                    == line_views(before@)[j] by {
                    assert(keys_of(after@)[j] == after@[j].0);
                    assert(keys_of(before@)[j] == before@[j].0);
                    assert(cloned(before@[j].1, after@[j].1));
                }
                assert(line_views(after@) =~= line_views(before@));
            }
            assert(palette_views(copy.palettes@) =~= palette_views(self.palettes@));
        }
        copy
    }
}

impl View for PartialAction {
    type V = ActionView;

    open spec fn view(&self) -> ActionView {
        ActionView { key: self.key@, args: texts(self.args@) }
    }
}

impl View for PartialActionGenerator {
    type V = ActionView;

    open spec fn view(&self) -> ActionView {
        ActionView { key: self.key@, args: texts(self.args@) }
    }
}

impl View for PartialActionFilter {
    type V = FilterView;

    open spec fn view(&self) -> FilterView {
        FilterView {
            key: self.key@,
            args: self.args@.map_values(
                |a: Option<String>|
                    match a {
                        Some(text) => Some(text@),
                        None => None,
                    },
            ),
        }
    }
}

impl Clone for PartialAction {
    fn clone(&self) -> (copy: Self)
        ensures
            copy@ == self@,
    {
        PartialAction { key: self.key.clone(), args: copy_texts(&self.args) }
    }
}

impl Clone for PartialActionGenerator {
    fn clone(&self) -> (copy: Self)
        ensures
            copy@ == self@,
    {
        PartialActionGenerator { key: self.key.clone(), args: copy_texts(&self.args) }
    }
}

impl PartialAction {
    /// Whether `self` and `other` have the same key and the same arguments.
    pub fn same_as(&self, other: &PartialAction) -> (b: bool)
        ensures
            b == (self@ == other@),
    {
        if self.key != other.key || self.args.len() != other.args.len() {
            assert(self@.args.len() == self.args@.len());
            assert(other@.args.len() == other.args@.len());
            return false;
        }
        let mut i: usize = 0;
        while i < self.args.len()
            invariant
                i <= self.args@.len(),
                self.args@.len() == other.args@.len(),
                forall|j: int| 0 <= j < i ==> self.args@[j]@ == other.args@[j]@,
            decreases self.args@.len() - i,
        {
            if self.args[i] != other.args[i] {
                assert(self@.args[i as int] != other@.args[i as int]);
                return false;
            }
            i += 1;
        }
        assert(self@.args =~= other@.args);
        true
    }
}

/// Whether `filter` matches `action`: the keys are equal, and every position
/// at which the filter names a text is a position of the action that holds
/// that text. A position at which the filter names no text admits anything,
/// also no argument at all.
pub open spec fn filter_matches(filter: FilterView, action: ActionView) -> bool {
    &&& filter.key == action.key
    &&& forall|i: int|
        0 <= i < filter.args.len() ==> (#[trigger] filter.args[i] matches Some(wanted) ==> i
            < action.args.len() && wanted == action.args[i])
}

impl PartialActionFilter {
    /// Whether this filter matches `action`.
    pub fn matches(&self, action: &PartialAction) -> (b: bool)
        ensures
            b == filter_matches(self@, action@),
    {
        if self.key != action.key {
            return false;
        }
        let mut i: usize = 0;
        while i < self.args.len()
            invariant
                i <= self.args@.len(),
                self.key@ == action.key@,
                forall|j: int|
                    0 <= j < i ==> (#[trigger] self@.args[j] matches Some(wanted) ==> j
                        < action@.args.len() && wanted == action@.args[j]),
            decreases self.args@.len() - i,
        {
            match &self.args[i] {
                Some(wanted) => {
                    assert(self@.args[i as int] == Some(wanted@));
                    if i >= action.args.len() {
                        assert(action@.args.len() == action.args@.len());
                        return false;
                    }
                    if *wanted != action.args[i] {
                        assert(action@.args[i as int] == action.args@[i as int]@);
                        return false;
                    }
                    assert(action@.args[i as int] == action.args@[i as int]@);
                },
                None => {},
            }
            i += 1;
        }
        true
    }
}

/// The value of a field of a record, as the document holds it.
#[derive(Debug, PartialEq, Eq)]
pub enum FieldValue {
    /// A text.
    Text(String),
    /// A list of texts.
    List(Vec<String>),
    /// Anything else.
    Other,
}

/// An action as the catalog document writes it.
#[derive(Debug, PartialEq, Eq)]
pub enum ActionEntry {
    /// In short: the bare command key.
    Text(String),
    /// In full: a record of named fields, in the order of the document.
    Record(Vec<(String, FieldValue)>),
    /// Anything else.
    Other,
}

/// Why an entry of the catalog document is no action.
#[derive(Debug, PartialEq, Eq)]
pub enum ActionError {
    /// The entry is neither a text nor a record.
    InvalidEntry,
    /// A field of the record occurs a second time.
    DuplicateField(String),
    /// A field of the record is neither `key` nor `args`.
    UnknownField(String),
    /// The record has no field `key`.
    MissingField(String),
    /// The value of a field is not what the field takes: a text for `key`,
    /// a list of texts for `args`.
    InvalidValue(String),
}

/// The value of a field, as texts.
pub enum FieldView {
    Text(Seq<char>),
    List(Seq<Seq<char>>),
    Other,
}

/// An error, as texts.
pub enum ActionErrorView {
    InvalidEntry,
    DuplicateField(Seq<char>),
    UnknownField(Seq<char>),
    MissingField(Seq<char>),
    InvalidValue(Seq<char>),
}

impl View for FieldValue {
    type V = FieldView;

    open spec fn view(&self) -> FieldView {
        match *self {
            FieldValue::Text(text) => FieldView::Text(text@),
            FieldValue::List(list) => FieldView::List(texts(list@)),
            FieldValue::Other => FieldView::Other,
        }
    }
}

impl View for ActionError {
    type V = ActionErrorView;

    open spec fn view(&self) -> ActionErrorView {
        match *self {
            ActionError::InvalidEntry => ActionErrorView::InvalidEntry,
            ActionError::DuplicateField(name) => ActionErrorView::DuplicateField(name@),
            ActionError::UnknownField(name) => ActionErrorView::UnknownField(name@),
            ActionError::MissingField(name) => ActionErrorView::MissingField(name@),
            ActionError::InvalidValue(name) => ActionErrorView::InvalidValue(name@),
        }
    }
}

/// What the catalog document may hold in place of an action.
pub const EXPECTING: &'static str = "a string or a map with keys `key` and optional `args`";

impl ActionError {
    /// The message of the error.
    pub fn message(&self) -> (text: String)
        ensures
            text@ == match *self {
                ActionError::InvalidEntry => "invalid type, expected "@ + EXPECTING@,
                ActionError::DuplicateField(name) => "duplicate field `"@ + name@ + "`"@,
                ActionError::UnknownField(name) => "unknown field `"@ + name@
                    + "`, expected `key` or `args`"@,
                ActionError::MissingField(name) => "missing field `"@ + name@ + "`"@,
                ActionError::InvalidValue(name) => "invalid value of field `"@ + name@ + "`"@,
            },
    {
        match self {
            ActionError::InvalidEntry => joined("invalid type, expected ", EXPECTING),
            ActionError::DuplicateField(name) => {
                let head = joined("duplicate field `", name.as_str());
                joined(head.as_str(), "`")
            },
            ActionError::UnknownField(name) => {
                let head = joined("unknown field `", name.as_str());
                joined(head.as_str(), "`, expected `key` or `args`")
            },
            ActionError::MissingField(name) => {
                let head = joined("missing field `", name.as_str());
                joined(head.as_str(), "`")
            },
            ActionError::InvalidValue(name) => {
                let head = joined("invalid value of field `", name.as_str());
                joined(head.as_str(), "`")
            },
        }
    }
}

/// The name of the field that holds the command key.
pub open spec fn key_field() -> Seq<char> {
    seq!['k', 'e', 'y']
}

/// The name of the field that holds the arguments.
pub open spec fn args_field() -> Seq<char> {
    seq!['a', 'r', 'g', 's']
}

/// The fields of a record, as texts.
pub open spec fn field_views(fields: Seq<(String, FieldValue)>) -> Seq<(Seq<char>, FieldView)> {
    fields.map_values(|f: (String, FieldValue)| (f.0@, f.1@))
}

/// A field before index `i` has the name `name`.
pub open spec fn named_before(fields: Seq<(Seq<char>, FieldView)>, i: int, name: Seq<char>) -> bool {
    exists|j: int| 0 <= j < i && (#[trigger] fields[j]).0 == name
}

/// What is wrong with the field at index `i`, if anything: its name is
/// neither `key` nor `args`, or it repeats an earlier field, or its value is
/// not what the field takes.
pub open spec fn fault_at(fields: Seq<(Seq<char>, FieldView)>, i: int) -> Option<ActionErrorView> {
    let name = fields[i].0;
    if name == key_field() {
        if named_before(fields, i, name) {
            Some(ActionErrorView::DuplicateField(name))
        } else if fields[i].1 is Text {
            None
        } else {
            Some(ActionErrorView::InvalidValue(name))
        }
    } else if name == args_field() {
        if named_before(fields, i, name) {
            Some(ActionErrorView::DuplicateField(name))
        } else if fields[i].1 is List {
            None
        } else {
            Some(ActionErrorView::InvalidValue(name))
        }
    } else {
        Some(ActionErrorView::UnknownField(name))
    }
}

/// The index of the first field at or after `from` that has a fault, or the
/// number of fields.
pub open spec fn first_fault(fields: Seq<(Seq<char>, FieldView)>, from: int) -> int
    decreases fields.len() - from,
{
    if from < 0 || from >= fields.len() {
        fields.len() as int
    } else if fault_at(fields, from) is Some {
        from
    } else {
        first_fault(fields, from + 1)
    }
}

/// The action that a record stands for: the fault of its first faulty field
/// is the error; a record without fault needs the field `key`, and its
/// arguments are those of the field `args`, or none.
pub open spec fn record_action(fields: Seq<(Seq<char>, FieldView)>) -> Result<
    ActionView,
    ActionErrorView,
> {
    let bad = first_fault(fields, 0);
    if bad < fields.len() {
        Err(fault_at(fields, bad)->0)
    } else {
        match value_of(fields, key_field()) {
            Some(FieldView::Text(key)) => Ok(
                ActionView {
                    key,
                    args: match value_of(fields, args_field()) {
                        Some(FieldView::List(args)) => args,
                        _ => Seq::empty(),
                    },
                },
            ),
            _ => Err(ActionErrorView::MissingField(key_field())),
        }
    }
}

/// The action that an entry of the catalog document stands for.
pub open spec fn entry_action(entry: ActionEntry) -> Result<ActionView, ActionErrorView> {
    match entry {
        ActionEntry::Text(key) => Ok(ActionView { key: key@, args: Seq::empty() }),
        ActionEntry::Record(fields) => record_action(field_views(fields@)),
        ActionEntry::Other => Err(ActionErrorView::InvalidEntry),
    }
}

/// The view of the outcome of reading an entry.
pub open spec fn outcome_view(r: Result<PartialAction, ActionError>) -> Result<
    ActionView,
    ActionErrorView,
> {
    match r {
        Ok(action) => Ok(action@),
        Err(error) => Err(error@),
    }
}

/// Where no field up to `end` has a fault, `first_fault` from the start is
/// `first_fault` from `end`.
proof fn lemma_first_fault_skips(fields: Seq<(Seq<char>, FieldView)>, from: int, end: int)
    requires
        0 <= from <= end <= fields.len(),
        forall|j: int| from <= j < end ==> fault_at(fields, j) is None,
    ensures
        first_fault(fields, from) == first_fault(fields, end),
    decreases end - from,
{
    if from < end {
        lemma_first_fault_skips(fields, from + 1, end);
    }
}

impl PartialAction {
    /// Reads an action from an entry of the catalog document.
    pub fn from_entry(entry: ActionEntry) -> (r: Result<PartialAction, ActionError>)
        ensures
            outcome_view(r) == entry_action(entry),
    {
        match entry {
            ActionEntry::Text(key) => {
                let action = PartialAction { key, args: Vec::new() };
                assert(action@.args =~= Seq::empty());
                Ok(action)
            },
            ActionEntry::Record(fields) => PartialAction::from_record(fields),
            ActionEntry::Other => Err(ActionError::InvalidEntry),
        }
    }

    /// Reads an action from the fields of a record.
    pub fn from_record(fields: Vec<(String, FieldValue)>) -> (r: Result<PartialAction, ActionError>)
        ensures
            outcome_view(r) == record_action(field_views(fields@)),
    {
        proof {
            reveal_strlit("key");
            reveal_strlit("args");
            assert("key"@ =~= key_field());
            assert("args"@ =~= args_field());
        }
        let ghost views = field_views(fields@);
        let key_name = "key".to_owned();
        let args_name = "args".to_owned();
        let mut key: Option<String> = None;
        let mut args: Option<Vec<String>> = None;
        let mut i: usize = 0;
        while i < fields.len()
            invariant
                i <= fields@.len(),
                views == field_views(fields@),
                key_name@ == key_field(),
                args_name@ == args_field(),
                forall|j: int| 0 <= j < i ==> fault_at(views, j) is None,
                key is Some <==> named_before(views, i as int, key_field()),
                args is Some <==> named_before(views, i as int, args_field()),
                key matches Some(text) ==> exists|j: int|
                    0 <= j < i && #[trigger] views[j] == (key_field(), FieldView::Text(text@)),
                args matches Some(list) ==> exists|j: int|
                    0 <= j < i && #[trigger] views[j] == (args_field(), FieldView::List(texts(list@))),
            decreases fields@.len() - i,
        {
            let name = &fields[i].0;
            assert(views[i as int] == (fields@[i as int].0@, fields@[i as int].1@));
            let fault: Option<ActionError> = if *name == key_name {
                if key.is_some() {
                    Some(ActionError::DuplicateField(name.clone()))
                } else {
                    match &fields[i].1 {
                        FieldValue::Text(text) => {
                            key = Some(text.clone());
                            None
                        },
                        _ => Some(ActionError::InvalidValue(name.clone())),
                    }
                }
            } else if *name == args_name {
                if args.is_some() {
                    Some(ActionError::DuplicateField(name.clone()))
                } else {
                    match &fields[i].1 {
                        FieldValue::List(list) => {
                            args = Some(copy_texts(list));
                            None
                        },
                        _ => Some(ActionError::InvalidValue(name.clone())),
                    }
                }
            } else {
                Some(ActionError::UnknownField(name.clone()))
            };
            match fault {
                Some(error) => {
                    proof {
                        assert(fault_at(views, i as int) == Some(error@));
                        lemma_first_fault_skips(views, 0, i as int);
                    }
                    return Err(error);
                },
                None => {
                    proof {
                        assert(fault_at(views, i as int) is None);
                        assert(key_field() != args_field()) by {
                            assert(key_field().len() != args_field().len());
                        }
                        if named_before(views, i as int, key_field()) {
                            let j = choose|j: int| 0 <= j < i && (#[trigger] views[j]).0 == key_field();
                            assert(views[j].0 == key_field());
                        }
                        if named_before(views, i as int, args_field()) {
                            let j = choose|j: int|
                                0 <= j < i && (#[trigger] views[j]).0 == args_field();
                            assert(views[j].0 == args_field());
                        }
                        if named_before(views, i + 1, key_field()) && !named_before(
                            views,
                            i as int,
                            key_field(),
                        ) {
                            let j = choose|j: int|
                                0 <= j < i + 1 && (#[trigger] views[j]).0 == key_field();
                            assert(j == i);
                        }
                        if named_before(views, i + 1, args_field()) && !named_before(
                            views,
                            i as int,
                            args_field(),
                        ) {
                            let j = choose|j: int|
                                0 <= j < i + 1 && (#[trigger] views[j]).0 == args_field();
                            assert(j == i);
                        }
                        if views[i as int].0 == key_field() {
                            assert(views[i as int].0 == key_field());
                            assert(named_before(views, i + 1, key_field()));
                        }
                        if views[i as int].0 == args_field() {
                            assert(views[i as int].0 == args_field());
                            assert(named_before(views, i + 1, args_field()));
                        }
                    }
                },
            }
            i += 1;
        }
        proof {
            lemma_first_fault_skips(views, 0, views.len() as int);
            lemma_faultless_record(views, key_field());
            lemma_faultless_record(views, args_field());
        }
        match key {
            Some(key) => {
                let args = match args {
                    Some(args) => args,
                    None => Vec::new(),
                };
                let action = PartialAction { key, args };
                proof {
                    if value_of(views, args_field()) is None {
                        assert(action@.args =~= Seq::empty());
                    }
                }
                Ok(action)
            },
            None => Err(ActionError::MissingField(key_name)),
        }
    }
}

impl PartialActionGenerator {
    /// Reads the action of a palette line from an entry of the catalog
    /// document: it is written as any other action.
    pub fn from_entry(entry: ActionEntry) -> (r: Result<PartialActionGenerator, ActionError>)
        ensures
            match entry_action(entry) {
                Ok(action) => r matches Ok(generator) && generator@ == action,
                Err(error) => r matches Err(e) && e@ == error,
            },
    {
        match PartialAction::from_entry(entry) {
            Ok(action) => Ok(PartialActionGenerator { key: action.key, args: action.args }),
            Err(error) => Err(error),
        }
    }
}

/// In a record without faults a name occurs at most once, so that the field
/// of that name is the one that any index with the name leads to.
proof fn lemma_faultless_record(fields: Seq<(Seq<char>, FieldView)>, name: Seq<char>)
    requires
        forall|j: int| 0 <= j < fields.len() ==> fault_at(fields, j) is None,
    ensures
        has_key(fields, name) <==> named_before(fields, fields.len() as int, name),
        forall|j: int|
            0 <= j < fields.len() && (#[trigger] fields[j]).0 == name ==> value_of(fields, name)
                == Some(fields[j].1),
{
    assert forall|j: int| 0 <= j < fields.len() && (#[trigger] fields[j]).0 == name implies value_of(
        fields,
        name,
    ) == Some(fields[j].1) by {
        assert(has_key(fields, name));
        let k = index_of_key(fields, name);
        assert(fault_at(fields, j) is None);
        assert(fault_at(fields, k) is None);
        if k < j {
            assert(fields[k].0 == name);
            assert(named_before(fields, j, name));
        } else if j < k {
            assert(fields[j].0 == name);
            assert(named_before(fields, k, name));
        }
    }
}

} // verus!
