//! Palettes: search sessions over the entries of a palette of the action
//! catalog.

use vstd::prelude::*;
use std::ops::Range;
use crate::action::{Actions, PartialActionFilter};
use crate::engine::MAX_ITEMS;
use crate::palette_action::{
    entries, filter_views, filtered, get_palette_actions, note_texts, palette_entries,
    PaletteAction, PaletteActionView, PaletteError,
};
use crate::searcher::{Matched, Searchable, SearcherId, SearcherManager};

verus! {

/// The sessions over palette entries.
pub type Palettes = SearcherManager<PaletteAction>;

/// The titles of a sequence of palette entries.
pub open spec fn titles(v: Seq<PaletteActionView>) -> Seq<Seq<char>> {
    v.map_values(|a: PaletteActionView| a.title)
}

/// The matcher takes the entries: their number and the length of each title.
pub open spec fn fits(v: Seq<PaletteActionView>) -> bool {
    &&& v.len() <= MAX_ITEMS
    &&& forall|i: int| 0 <= i < v.len() ==> (#[trigger] v[i]).title.len() <= u32::MAX
}

/// Opens the palette under `palette_key`: a session over its entries that no
/// filter rules out. An unknown key is an error and changes nothing.
pub fn create_palette(
    palettes: &mut Palettes,
    actions: &Actions,
    notes: &Vec<(String, String)>,
    palette_key: &str,
    filters: Vec<PartialActionFilter>,
) -> (r: Result<SearcherId, PaletteError>)
    requires
        old(palettes).wf(),
        old(palettes)@.issued < usize::MAX,
        palette_entries(*actions, palette_key@, note_texts(notes@)) matches Ok(all) ==> fits(
            filtered(all, filter_views(filters@)),
        ),
    ensures
        final(palettes).wf(),
        match palette_entries(*actions, palette_key@, note_texts(notes@)) {
            Ok(all) => {
                &&& r matches Ok(id)
                &&& id.0 == old(palettes)@.issued
                &&& final(palettes)@ == old(palettes)@.with_session(
                    final(palettes)@.sessions[id.0],
                )
                &&& final(palettes)@.sessions[id.0].last_query() is None
                &&& entries(final(palettes)@.sessions[id.0].candidates()) == filtered(
                    all,
                    filter_views(filters@),
                )
            },
            Err(e) => r == Err::<SearcherId, PaletteError>(e) && final(palettes)@ == old(palettes)@,
        },
{
    match get_palette_actions(actions, palette_key, filters, notes) {
        Ok(found) => {
            assert forall|i: int| 0 <= i < found@.len() implies (
            #[trigger] found@[i]).search_text().len() <= u32::MAX by {
                assert(entries(found@)[i] == found@[i]@);
            }
            let id = palettes.new_searcher(found.as_slice());
            assert(entries(palettes@.sessions[id.0].candidates()) =~= entries(found@)) by {
                assert forall|i: int| 0 <= i < found@.len() implies entries(
                    palettes@.sessions[id.0].candidates(),
                )[i] == entries(found@)[i] by {
                    assert(cloned(found@[i], palettes@.sessions[id.0].candidates()[i]));
                }
            }
            Ok(id)
        },
        Err(e) => Err(e),
    }
}

/// Searches the palette under `id` for `search` and returns the matches of
/// the window `range`.
pub fn search_palette(palettes: &mut Palettes, id: SearcherId, search: &str, range: Range<u32>) -> (out:
    Option<Vec<Matched<PaletteAction>>>)
    requires
        old(palettes).wf(),
    ensures
        final(palettes).wf(),
        old(palettes)@.searched(final(palettes)@, id, search@, range.start, range.end, out),
        out is None <==> !old(palettes)@.here(id),
{
    palettes.search(id, search, range)
}

/// Closes the palette under `id`.
pub fn delete_palette(palettes: &mut Palettes, id: SearcherId)
    requires
        old(palettes).wf(),
    ensures
        final(palettes).wf(),
        final(palettes)@ == old(palettes)@.without(id),
{
    palettes.delete_searcher(id);
}

} // verus!
