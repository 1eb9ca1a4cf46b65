//! A palette listed by plain words.
//!
//! Beside the fuzzy sessions a palette can be listed directly: an entry is
//! kept where its title holds every word of the search text, and the list
//! ends after ten entries.

use vstd::prelude::*;
use crate::action::{Actions, PartialActionFilter};
use crate::palette_action::{
    apply_filters, entries, filter_views, filtered, get_all_palette_actions, note_texts,
    palette_entries, PaletteAction, PaletteActionView, PaletteError,
};
use crate::text::{chars_of, contains_text, find_text, rows, split_words, words};

verus! {

/// The most entries that a listing returns.
pub const LISTING_LIMIT: usize = 10;

/// The title holds every one of the words.
pub open spec fn holds_words(title: Seq<char>, wanted: Seq<Seq<char>>) -> bool {
    forall|i: int| 0 <= i < wanted.len() ==> contains_text(title, #[trigger] wanted[i])
}

/// The entries whose title holds every one of the words, in order.
pub open spec fn worded(all: Seq<PaletteActionView>, wanted: Seq<Seq<char>>) -> Seq<
    PaletteActionView,
>
    decreases all.len(),
{
    if all.len() == 0 {
        all
    } else if holds_words(all.last().title, wanted) {
        worded(all.drop_last(), wanted).push(all.last())
    } else {
        worded(all.drop_last(), wanted)
    }
}

/// The first entries of a listing, up to the limit.
pub open spec fn limited(all: Seq<PaletteActionView>) -> Seq<PaletteActionView> {
    if all.len() <= LISTING_LIMIT {
        all
    } else {
        all.take(LISTING_LIMIT as int)
    }
}

/// Whether `title` holds every word of `wanted`.
pub fn title_holds_words(title: &str, wanted: &Vec<Vec<char>>) -> (b: bool)
    ensures
        b == holds_words(title@, rows(wanted@)),
{
    let text = chars_of(title);
    let mut i: usize = 0;
    while i < wanted.len()
        invariant
            i <= wanted@.len(),
            text@ == title@,
            forall|j: int| 0 <= j < i ==> contains_text(title@, #[trigger] rows(wanted@)[j]),
        decreases wanted@.len() - i,
    {
        if find_text(text.as_slice(), wanted[i].as_slice()).is_none() {
            assert(rows(wanted@)[i as int] == wanted@[i as int]@);
            return false;
        }
        assert(rows(wanted@)[i as int] == wanted@[i as int]@);
        i += 1;
    }
    true
}

/// The entries of `all` whose title holds every word of `search`.
pub fn keep_worded(all: &Vec<PaletteAction>, search: &str) -> (out: Vec<PaletteAction>)
    ensures
        entries(out@) == worded(entries(all@), words(search@)),
{
    let text = chars_of(search);
    let wanted = split_words(text.as_slice());
    let mut out: Vec<PaletteAction> = Vec::new();
    let mut i: usize = 0;
    assert(entries(all@).take(0) =~= Seq::empty());
    while i < all.len()
        invariant
            i <= all@.len(),
            rows(wanted@) == words(search@),
            entries(out@) == worded(entries(all@).take(i as int), words(search@)),
        decreases all@.len() - i,
    {
        let ghost before = entries(out@);
        assert(entries(all@).take(i + 1).drop_last() =~= entries(all@).take(i as int));
        assert(entries(all@).take(i + 1).last() == all@[i as int]@);
        if title_holds_words(all[i].title.as_str(), &wanted) {
            out.push(all[i].clone());
            assert(entries(out@) =~= before.push(all@[i as int]@));
        }
        i += 1;
    }
    assert(entries(all@).take(all@.len() as int) =~= entries(all@));
    out
}

/// The entries of the palette under `palette_key` whose title holds every
/// word of `search` and that no filter rules out; the first ten of them.
pub fn get_palette_actions(
    actions: &Actions,
    palette_key: &str,
    search: &str,
    filters: Vec<PartialActionFilter>,
    notes: &Vec<(String, String)>,
) -> (r: Result<Vec<PaletteAction>, PaletteError>)
    ensures
        match palette_entries(*actions, palette_key@, note_texts(notes@)) {
            Ok(all) => r matches Ok(out) && entries(out@) == limited(
                filtered(worded(all, words(search@)), filter_views(filters@)),
            ),
            Err(e) => r == Err::<Vec<PaletteAction>, PaletteError>(e),
        },
{
    match get_all_palette_actions(actions, palette_key, notes) {
        Ok(all) => {
            let kept = keep_worded(&all, search);
            let mut out = apply_filters(&kept, &filters);
            if out.len() > LISTING_LIMIT {
                let ghost before = entries(out@);
                out.truncate(LISTING_LIMIT);
                assert(entries(out@) =~= before.take(LISTING_LIMIT as int));
            }
            Ok(out)
        },
        Err(e) => Err(e),
    }
}

} // verus!
