//! The entries of a command palette.
//!
//! A palette of the action catalog lists titles with what choosing each one
//! does. A title or an argument may hold a placeholder that stands for a
//! note; such an entry is written out once for every note.

use vstd::prelude::*;
use crate::action::{
    action_views, filter_matches, ActionView, Actions, FilterView, PartialAction,
    PartialActionFilter, PartialActionGenerator,
};
use crate::searcher::{Matched, Searchable};
use crate::table::{value_of, Table};
use crate::text::{
    chars_of, contains, contains_text, copy_optional, copy_range, copy_texts, first_index_of,
    index_of, joined, lemma_first_index_of, lemma_replaced_either, position_of, replace_either,
    replaced, replaced_either, string_of, text_of, texts,
};

verus! {

/// The placeholder for the locater of a note: `note:` and the note's path.
pub const NOTE_LOCATER: &'static str = "$note_locater";

/// The placeholder for the path of a note.
pub const NOTE_PATH: &'static str = "$note_path";

/// What stands before a note's path in its locater.
pub const LOCATER_PREFIX: &'static str = "note:";

/// A palette entry, as texts.
pub struct PaletteActionView {
    pub title: Seq<char>,
    pub icon: Option<Seq<char>>,
    pub shortcut: Option<Seq<char>>,
    pub action: ActionView,
}

/// One entry of an opened palette: what it shows and what it does.
#[derive(Debug, PartialEq, Eq)]
pub struct PaletteAction {
    pub title: String,
    pub icon: Option<String>,
    pub shortcut: Option<String>,
    pub action: PartialAction,
}

/// A palette entry that a search has found, with the marked positions of
/// its title.
#[derive(Debug, PartialEq, Eq)]
pub struct MatchedPaletteAction {
    pub indices: Vec<u32>,
    pub palette_action: PaletteAction,
}

/// Why a palette cannot be opened.
#[derive(Debug, PartialEq, Eq)]
pub enum PaletteError {
    /// The action catalog has no palette under the key.
    InvalidPaletteKey,
}

impl PaletteError {
    /// The message of the error.
    pub fn message(&self) -> (text: String)
        ensures
            text@ == "invalid palette key"@,
    {
        "invalid palette key".to_owned()
    }
}

impl View for PaletteAction {
    type V = PaletteActionView;

    open spec fn view(&self) -> PaletteActionView {
        PaletteActionView {
            title: self.title@,
            icon: text_of(self.icon),
            shortcut: text_of(self.shortcut),
            action: self.action@,
        }
    }
}

impl Clone for PaletteAction {
    fn clone(&self) -> (copy: Self)
        ensures
            copy@ == self@,
    {
        PaletteAction {
            title: self.title.clone(),
            icon: copy_optional(&self.icon),
            shortcut: copy_optional(&self.shortcut),
            action: self.action.clone(),
        }
    }
}

impl Searchable for PaletteAction {
    /// A palette entry is found by its title.
    open spec fn search_text(&self) -> Seq<char> {
        self.title@
    }

    fn get_search_text(&self) -> (text: String) {
        self.title.clone()
    }

    proof fn lemma_clone_keeps_text(&self, copy: &Self) {
    }
}

impl MatchedPaletteAction {
    /// The match of a session over palette entries, under its own field names.
    pub fn from_matched(matched: Matched<PaletteAction>) -> (m: MatchedPaletteAction)
        ensures
            m.indices == matched.indices,
            m.palette_action == matched.payload,
    {
        MatchedPaletteAction { indices: matched.indices, palette_action: matched.payload }
    }
}

/// The views of a sequence of palette entries.
pub open spec fn entries(v: Seq<PaletteAction>) -> Seq<PaletteActionView> {
    v.map_values(|a: PaletteAction| a@)
}

/// The notes `(path, title)`, as texts.
pub open spec fn note_texts(v: Seq<(String, String)>) -> Seq<(Seq<char>, Seq<char>)> {
    v.map_values(|n: (String, String)| (n.0@, n.1@))
}

/// A title with an icon in front is `!`, the icon's name, a space, and the
/// title proper. The pair is the title proper and the icon's name.
pub open spec fn split_icon(titled: Seq<char>) -> (Seq<char>, Option<Seq<char>>) {
    if titled.len() > 0 && titled[0] == '!' {
        let space = first_index_of(titled, ' ');
        if space < titled.len() {
            (titled.skip(space + 1), Some(titled.subrange(1, space)))
        } else {
            (Seq::empty(), Some(titled.skip(1)))
        }
    } else {
        (titled, None)
    }
}

/// Splits the icon off a title.
pub fn split_title_icon(title_with_icon: &str) -> (r: (String, Option<String>))
    ensures
        (r.0@, text_of(r.1)) == split_icon(title_with_icon@),
{
    let chars = chars_of(title_with_icon);
    if chars.len() > 0 && chars[0] == '!' {
        let space = index_of(chars.as_slice(), ' ');
        proof {
            lemma_first_index_of(chars@, ' ');
        }
        if space < chars.len() {
            let title = copy_range(chars.as_slice(), space + 1, chars.len());
            let icon = copy_range(chars.as_slice(), 1, space);
            assert(title@ =~= chars@.skip(space + 1));
            (string_of(title.as_slice()), Some(string_of(icon.as_slice())))
        } else {
            let icon = copy_range(chars.as_slice(), 1, chars.len());
            assert(icon@ =~= chars@.skip(1));
            (String::new(), Some(string_of(icon.as_slice())))
        }
    } else {
        (title_with_icon.to_owned(), None)
    }
}

/// An entry mentions a placeholder where its title holds it or one of its
/// arguments is it.
pub open spec fn mentions(title: Seq<char>, args: Seq<Seq<char>>, token: Seq<char>) -> bool {
    contains_text(title, token) || args.contains(token)
}

/// The arguments with the first one that is the placeholder `token`
/// replaced by `value`.
pub open spec fn resolved(args: Seq<Seq<char>>, token: Seq<char>, value: Seq<char>) -> Seq<
    Seq<char>,
> {
    if args.contains(token) {
        args.update(first_index_of(args, token), value)
    } else {
        args
    }
}

/// The shortcut bound to `action`: that of the first binding of the catalog
/// whose action equals it.
pub open spec fn shortcut_of(shortcuts: Seq<(Seq<char>, ActionView)>, action: ActionView) -> Option<
    Seq<char>,
> {
    let bound = shortcuts.map_values(|s: (Seq<char>, ActionView)| s.1);
    let i = first_index_of(bound, action);
    if i < shortcuts.len() {
        Some(shortcuts[i].0)
    } else {
        None
    }
}

/// A line stands for the notes, one entry for each, where it mentions one of
/// the two note placeholders.
pub open spec fn per_note(title: Seq<char>, args: Seq<Seq<char>>) -> bool {
    mentions(title, args, NOTE_LOCATER@) || mentions(title, args, NOTE_PATH@)
}

/// The title of a line for one note: the note's title stands wherever the
/// title of the line holds a note placeholder, of either kind.
pub open spec fn title_for_note(title: Seq<char>, note_title: Seq<char>) -> Seq<char> {
    replaced_either(title, NOTE_LOCATER@, NOTE_PATH@, note_title)
}

/// The arguments of a line for one note: the first argument that is the
/// locater placeholder becomes the note's locater, and the first that is
/// the path placeholder becomes the note's path.
pub open spec fn args_for_note(args: Seq<Seq<char>>, path: Seq<char>) -> Seq<Seq<char>> {
    resolved(resolved(args, NOTE_LOCATER@, LOCATER_PREFIX@ + path), NOTE_PATH@, path)
}

/// The entry of a line for the note at `path` with the title `note_title`.
/// The placeholders of the title are looked for in the title and those of
/// the arguments in the arguments, each on its own.
pub open spec fn entry_for_note(
    title: Seq<char>,
    icon: Option<Seq<char>>,
    generator: ActionView,
    path: Seq<char>,
    note_title: Seq<char>,
    shortcuts: Seq<(Seq<char>, ActionView)>,
) -> PaletteActionView {
    let action = ActionView { key: generator.key, args: args_for_note(generator.args, path) };
    PaletteActionView {
        title: title_for_note(title, note_title),
        icon,
        shortcut: shortcut_of(shortcuts, action),
        action,
    }
}

/// The entries that one line of a palette stands for: one for each note
/// where the line mentions a note placeholder, in the order of the notes,
/// and the line itself where it mentions none.
pub open spec fn generated(
    title: Seq<char>,
    icon: Option<Seq<char>>,
    generator: ActionView,
    shortcuts: Seq<(Seq<char>, ActionView)>,
    notes: Seq<(Seq<char>, Seq<char>)>,
) -> Seq<PaletteActionView> {
    if per_note(title, generator.args) {
        Seq::new(
            notes.len(),
            |i: int| entry_for_note(title, icon, generator, notes[i].0, notes[i].1, shortcuts),
        )
    } else {
        seq![
            PaletteActionView {
                title,
                icon,
                shortcut: shortcut_of(shortcuts, generator),
                action: generator,
            },
        ]
    }
}

/// The shortcut bound to `action` in the catalog.
pub fn find_shortcut(shortcuts: &Table<PartialAction>, action: &PartialAction) -> (r: Option<String>)
    ensures
        text_of(r) == shortcut_of(action_views(shortcuts@), action@),
{
    let ghost bound = action_views(shortcuts@).map_values(|s: (Seq<char>, ActionView)| s.1);
    let mut i: usize = 0;
    while i < shortcuts.len()
        invariant
            i <= shortcuts@.len(),
            bound == action_views(shortcuts@).map_values(|s: (Seq<char>, ActionView)| s.1),
            forall|j: int| 0 <= j < i ==> bound[j] != action@,
        decreases shortcuts@.len() - i,
    {
        if shortcuts.value_at(i).same_as(action) {
            proof {
                lemma_first_index_of(bound, action@);
                assert(bound[i as int] == action@);
            }
            return Some(shortcuts.key_at(i).clone());
        }
        i += 1;
    }
    proof {
        lemma_first_index_of(bound, action@);
    }
    None
}

/// Whether a palette line mentions the placeholder `token`.
pub fn mentions_token(title: &str, args: &Vec<String>, token: &str) -> (b: bool)
    ensures
        b == mentions(title@, texts(args@), token@),
{
    contains(title, token) || position_of(args, token).is_some()
}

/// The arguments with the first placeholder `token` replaced by `value`.
pub fn resolve_args(args: &Vec<String>, token: &str, value: &str) -> (out: Vec<String>)
    ensures
        texts(out@) == resolved(texts(args@), token@, value@),
{
    let mut out = copy_texts(args);
    match position_of(args, token) {
        Some(i) => {
            out.set(i, value.to_owned());
            assert(texts(out@) =~= texts(args@).update(i as int, value@));
        },
        None => {},
    }
    out
}

/// The entry of one palette line for one note.
pub fn generate_for_note(
    shortcuts: &Table<PartialAction>,
    title: &str,
    icon: &Option<String>,
    generator: &PartialActionGenerator,
    path: &str,
    note_title: &str,
) -> (entry: PaletteAction)
    ensures
        entry@ == entry_for_note(
            title@,
            text_of(*icon),
            generator@,
            path@,
            note_title@,
            action_views(shortcuts@),
        ),
{
    let locater = joined(LOCATER_PREFIX, path);
    let with_locater = resolve_args(&generator.args, NOTE_LOCATER, locater.as_str());
    let args = resolve_args(&with_locater, NOTE_PATH, path);
    let action = PartialAction { key: generator.key.clone(), args };
    PaletteAction {
        title: replace_either(title, NOTE_LOCATER, NOTE_PATH, note_title),
        icon: copy_optional(icon),
        shortcut: find_shortcut(shortcuts, &action),
        action,
    }
}

/// Whether a palette line stands for the notes, one entry for each.
pub fn is_per_note(title: &str, args: &Vec<String>) -> (b: bool)
    ensures
        b == per_note(title@, texts(args@)),
{
    mentions_token(title, args, NOTE_LOCATER) || mentions_token(title, args, NOTE_PATH)
}

/// Writes one palette line out: once for every note where it mentions a note
/// placeholder, once as it stands where it mentions none.
pub fn generate_palette_actions(
    shortcuts: &Table<PartialAction>,
    title: String,
    icon: Option<String>,
    generator: PartialActionGenerator,
    notes: &Vec<(String, String)>,
) -> (out: Vec<PaletteAction>)
    ensures
        entries(out@) == generated(
            title@,
            text_of(icon),
            generator@,
            action_views(shortcuts@),
            note_texts(notes@),
        ),
{
    let mut out: Vec<PaletteAction> = Vec::new();
    if is_per_note(title.as_str(), &generator.args) {
        let mut i: usize = 0;
        while i < notes.len()
            invariant
                i <= notes@.len(),
                out@.len() == i,
                forall|j: int|
                    0 <= j < i ==> (#[trigger] out@[j])@ == entry_for_note(
                        title@,
                        text_of(icon),
                        generator@,
                        note_texts(notes@)[j].0,
                        note_texts(notes@)[j].1,
                        action_views(shortcuts@),
                    ),
            decreases notes@.len() - i,
        {
            let entry = generate_for_note(
                shortcuts,
                title.as_str(),
                &icon,
                &generator,
                notes[i].0.as_str(),
                notes[i].1.as_str(),
            );
            out.push(entry);
            i += 1;
        }
        assert(entries(out@) =~= generated(
            title@,
            text_of(icon),
            generator@,
            action_views(shortcuts@),
            note_texts(notes@),
        ));
    } else {
        let action = PartialAction { key: generator.key, args: generator.args };
        let shortcut = find_shortcut(shortcuts, &action);
        out.push(PaletteAction { title, icon, shortcut, action });
        assert(entries(out@) =~= generated(
            title@,
            text_of(icon),
            generator@,
            action_views(shortcuts@),
            note_texts(notes@),
        ));
    }
    out
}

/// What a line that stands for the notes gives: one entry for each note, in
/// the order of the notes, each with the key of the line and as many
/// arguments as the line has, and with the title of the line for that note.
/// A title that holds only one of the two placeholders has that one replaced
/// by the note's title, and a title that holds none stays as it is.
pub proof fn law_one_entry_for_each_note(
    title: Seq<char>,
    icon: Option<Seq<char>>,
    generator: ActionView,
    shortcuts: Seq<(Seq<char>, ActionView)>,
    notes: Seq<(Seq<char>, Seq<char>)>,
)
    requires
        per_note(title, generator.args),
    ensures
        generated(title, icon, generator, shortcuts, notes).len() == notes.len(),
        forall|i: int|
            0 <= i < notes.len() ==> {
                let entry = #[trigger] generated(title, icon, generator, shortcuts, notes)[i];
                &&& entry.action.key == generator.key
                &&& entry.action.args.len() == generator.args.len()
                &&& entry.icon == icon
                &&& entry.title == title_for_note(title, notes[i].1)
                &&& !contains_text(title, NOTE_LOCATER@) ==> entry.title == replaced(
                    title,
                    NOTE_PATH@,
                    notes[i].1,
                )
                &&& !contains_text(title, NOTE_PATH@) ==> entry.title == replaced(
                    title,
                    NOTE_LOCATER@,
                    notes[i].1,
                )
            },
{
    assert forall|i: int| 0 <= i < notes.len() implies {
        let entry = #[trigger] generated(title, icon, generator, shortcuts, notes)[i];
        &&& entry.action.key == generator.key
        &&& entry.action.args.len() == generator.args.len()
        &&& entry.icon == icon
        &&& entry.title == title_for_note(title, notes[i].1)
        &&& !contains_text(title, NOTE_LOCATER@) ==> entry.title == replaced(
            title,
            NOTE_PATH@,
            notes[i].1,
        )
        &&& !contains_text(title, NOTE_PATH@) ==> entry.title == replaced(
            title,
            NOTE_LOCATER@,
            notes[i].1,
        )
    } by {
        lemma_replaced_either(title, NOTE_LOCATER@, NOTE_PATH@, notes[i].1);
        let with_locater = resolved(generator.args, NOTE_LOCATER@, LOCATER_PREFIX@ + notes[i].0);
        lemma_resolved(generator.args, NOTE_LOCATER@, LOCATER_PREFIX@ + notes[i].0);
        lemma_resolved(with_locater, NOTE_PATH@, notes[i].0);
    }
}

/// Resolving a placeholder keeps the number of arguments, and changes
/// nothing where no argument is the placeholder.
pub proof fn lemma_resolved(args: Seq<Seq<char>>, token: Seq<char>, value: Seq<char>)
    ensures
        resolved(args, token, value).len() == args.len(),
        !args.contains(token) ==> resolved(args, token, value) == args,
{
    lemma_first_index_of(args, token);
}

/// A line that mentions no note placeholder is one entry, and stays as it
/// stands, whatever the notes are.
pub proof fn law_one_entry_without_placeholder(
    title: Seq<char>,
    icon: Option<Seq<char>>,
    generator: ActionView,
    shortcuts: Seq<(Seq<char>, ActionView)>,
    notes: Seq<(Seq<char>, Seq<char>)>,
)
    requires
        !per_note(title, generator.args),
    ensures
        generated(title, icon, generator, shortcuts, notes).len() == 1,
        generated(title, icon, generator, shortcuts, notes)[0].title == title,
        generated(title, icon, generator, shortcuts, notes)[0].action == generator,
        generated(title, icon, generator, shortcuts, notes)[0].icon == icon,
{
}

/// The entries of a palette: those of its lines, one line after the other.
/// The icon is split off a line's title before the placeholders are looked
/// at.
pub open spec fn catalogue(
    lines: Seq<(Seq<char>, PartialActionGenerator)>,
    shortcuts: Seq<(Seq<char>, ActionView)>,
    notes: Seq<(Seq<char>, Seq<char>)>,
) -> Seq<PaletteActionView>
    decreases lines.len(),
{
    if lines.len() == 0 {
        Seq::empty()
    } else {
        let line = lines.last();
        let (title, icon) = split_icon(line.0);
        catalogue(lines.drop_last(), shortcuts, notes) + generated(
            title,
            icon,
            line.1@,
            shortcuts,
            notes,
        )
    }
}

/// No filter matches the action.
pub open spec fn admitted(action: ActionView, filters: Seq<FilterView>) -> bool {
    forall|i: int| 0 <= i < filters.len() ==> !filter_matches(#[trigger] filters[i], action)
}

/// The entries whose action no filter matches, in order.
pub open spec fn filtered(all: Seq<PaletteActionView>, filters: Seq<FilterView>) -> Seq<
    PaletteActionView,
>
    decreases all.len(),
{
    if all.len() == 0 {
        all
    } else if admitted(all.last().action, filters) {
        filtered(all.drop_last(), filters).push(all.last())
    } else {
        filtered(all.drop_last(), filters)
    }
}

/// The views of a sequence of filters.
pub open spec fn filter_views(v: Seq<PartialActionFilter>) -> Seq<FilterView> {
    v.map_values(|f: PartialActionFilter| f@)
}

/// What opening the palette under `key` yields: its entries, or an error
/// where the catalog has no such palette.
pub open spec fn palette_entries(
    actions: Actions,
    key: Seq<char>,
    notes: Seq<(Seq<char>, Seq<char>)>,
) -> Result<Seq<PaletteActionView>, PaletteError> {
    match value_of(actions.palettes@, key) {
        Some(palette) => Ok(catalogue(palette@, action_views(actions.shortcuts@), notes)),
        None => Err(PaletteError::InvalidPaletteKey),
    }
}

/// All entries of the palette under `palette_key`, written out for the
/// notes `notes`.
pub fn get_all_palette_actions(
    actions: &Actions,
    palette_key: &str,
    notes: &Vec<(String, String)>,
) -> (r: Result<Vec<PaletteAction>, PaletteError>)
    ensures
        match palette_entries(*actions, palette_key@, note_texts(notes@)) {
            Ok(all) => r matches Ok(out) && entries(out@) == all,
            Err(e) => r == Err::<Vec<PaletteAction>, PaletteError>(e),
        },
{
    let palette = match actions.palettes.get(palette_key) {
        Some(palette) => palette,
        None => {
            return Err(PaletteError::InvalidPaletteKey);
        },
    };
    let mut out: Vec<PaletteAction> = Vec::new();
    let mut i: usize = 0;
    assert(palette@.take(0) =~= Seq::empty());
    while i < palette.len()
        invariant
            i <= palette@.len(),
            entries(out@) == catalogue(
                palette@.take(i as int),
                action_views(actions.shortcuts@),
                note_texts(notes@),
            ),
        decreases palette@.len() - i,
    {
        let ghost before = entries(out@);
        assert(palette@.take(i + 1).drop_last() =~= palette@.take(i as int));
        assert(palette@.take(i + 1).last() == palette@[i as int]);
        let (title, icon) = split_title_icon(palette.key_at(i).as_str());
        let mut more = generate_palette_actions(
            &actions.shortcuts,
            title,
            icon,
            palette.value_at(i).clone(),
            notes,
        );
        let ghost added = entries(more@);
        out.append(&mut more);
        assert(entries(out@) =~= before + added);
        i += 1;
    }
    assert(palette@.take(palette@.len() as int) =~= palette@);
    Ok(out)
}

/// Whether no filter matches `action`.
pub fn is_admitted(action: &PartialAction, filters: &Vec<PartialActionFilter>) -> (b: bool)
    ensures
        b == admitted(action@, filter_views(filters@)),
{
    let mut i: usize = 0;
    while i < filters.len()
        invariant
            i <= filters@.len(),
            forall|j: int|
                0 <= j < i ==> !filter_matches(#[trigger] filter_views(filters@)[j], action@),
        decreases filters@.len() - i,
    {
        if filters[i].matches(action) {
            assert(filter_matches(filter_views(filters@)[i as int], action@));
            return false;
        }
        i += 1;
    }
    true
}

/// The entries of `all` whose action no filter matches.
pub fn apply_filters(all: &Vec<PaletteAction>, filters: &Vec<PartialActionFilter>) -> (out: Vec<
    PaletteAction,
>)
    ensures
        entries(out@) == filtered(entries(all@), filter_views(filters@)),
{
    let mut out: Vec<PaletteAction> = Vec::new();
    let mut i: usize = 0;
    assert(entries(all@).take(0) =~= Seq::empty());
    while i < all.len()
        invariant
            i <= all@.len(),
            entries(out@) == filtered(entries(all@).take(i as int), filter_views(filters@)),
        decreases all@.len() - i,
    {
        let ghost before = entries(out@);
        assert(entries(all@).take(i + 1).drop_last() =~= entries(all@).take(i as int));
        assert(entries(all@).take(i + 1).last() == all@[i as int]@);
        if is_admitted(&all[i].action, filters) {
            out.push(all[i].clone());
            assert(entries(out@) =~= before.push(all@[i as int]@));
        }
        i += 1;
    }
    assert(entries(all@).take(all@.len() as int) =~= entries(all@));
    out
}

/// The entries of the palette under `palette_key` that no filter rules out.
pub fn get_palette_actions(
    actions: &Actions,
    palette_key: &str,
    filters: Vec<PartialActionFilter>,
    notes: &Vec<(String, String)>,
) -> (r: Result<Vec<PaletteAction>, PaletteError>)
    ensures
        match palette_entries(*actions, palette_key@, note_texts(notes@)) {
            Ok(all) => r matches Ok(out) && entries(out@) == filtered(all, filter_views(filters@)),
            Err(e) => r == Err::<Vec<PaletteAction>, PaletteError>(e),
        },
{
    match get_all_palette_actions(actions, palette_key, notes) {
        Ok(all) => Ok(apply_filters(&all, &filters)),
        Err(e) => Err(e),
    }
}

/// Some line of the palette stands for the notes.
pub open spec fn lines_per_note(lines: Seq<(Seq<char>, PartialActionGenerator)>) -> bool {
    exists|i: int|
        0 <= i < lines.len() && per_note(split_icon((#[trigger] lines[i]).0).0, lines[i].1@.args)
}

/// Opening the palette under `key` takes the notes: the catalog has the
/// palette, and one of its lines stands for the notes.
pub open spec fn palette_needs_notes(actions: Actions, key: Seq<char>) -> bool {
    match value_of(actions.palettes@, key) {
        Some(palette) => lines_per_note(palette@),
        None => false,
    }
}

/// Whether opening the palette under `palette_key` takes the notes. Where it
/// does not, the index need not be read for it.
pub fn needs_notes(actions: &Actions, palette_key: &str) -> (b: bool)
    ensures
        b == palette_needs_notes(*actions, palette_key@),
{
    let palette = match actions.palettes.get(palette_key) {
        Some(palette) => palette,
        None => {
            return false;
        },
    };
    let mut i: usize = 0;
    while i < palette.len()
        invariant
            i <= palette@.len(),
            value_of(actions.palettes@, palette_key@) == Some(*palette),
            forall|j: int|
                0 <= j < i ==> !per_note(
                    split_icon((#[trigger] palette@[j]).0).0,
                    palette@[j].1@.args,
                ),
        decreases palette@.len() - i,
    {
        let (title, icon) = split_title_icon(palette.key_at(i).as_str());
        if is_per_note(title.as_str(), &palette.value_at(i).args) {
            assert(per_note(split_icon(palette@[i as int].0).0, palette@[i as int].1@.args));
            return true;
        }
        i += 1;
    }
    false
}

/// A palette none of whose lines stands for the notes has the same entries
/// whatever the notes are.
pub proof fn law_notes_unused(
    lines: Seq<(Seq<char>, PartialActionGenerator)>,
    shortcuts: Seq<(Seq<char>, ActionView)>,
    notes: Seq<(Seq<char>, Seq<char>)>,
    other: Seq<(Seq<char>, Seq<char>)>,
)
    requires
        !lines_per_note(lines),
    ensures
        catalogue(lines, shortcuts, notes) == catalogue(lines, shortcuts, other),
    decreases lines.len(),
{
    if lines.len() > 0 {
        let front = lines.drop_last();
        assert forall|i: int| 0 <= i < front.len() implies !per_note(
            split_icon((#[trigger] front[i]).0).0,
            front[i].1@.args,
        ) by {
            assert(front[i] == lines[i]);
        }
        law_notes_unused(front, shortcuts, notes, other);
        assert(lines[lines.len() - 1] == lines.last());
    }
}

/// Opening a palette that does not take the notes gives the same, whatever
/// the notes are.
pub proof fn law_palette_without_notes(
    actions: Actions,
    key: Seq<char>,
    notes: Seq<(Seq<char>, Seq<char>)>,
    other: Seq<(Seq<char>, Seq<char>)>,
)
    requires
        !palette_needs_notes(actions, key),
    ensures
        palette_entries(actions, key, notes) == palette_entries(actions, key, other),
{
    match value_of(actions.palettes@, key) {
        Some(palette) => {
            law_notes_unused(palette@, action_views(actions.shortcuts@), notes, other);
        },
        None => {},
    }
}

} // verus!
