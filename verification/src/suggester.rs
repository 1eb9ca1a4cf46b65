//! Suggestions: what a suggester offers while a tag is being typed.

use vstd::prelude::*;
use crate::meta::MetaHolder;
use crate::searcher::{Matched, Searchable, SearcherId, SearcherManager};
use crate::tag::{construct_all_tags, tags_of_forest};
use crate::text::texts;

verus! {

/// Where the suggestions of a suggester come from.
#[derive(Debug, Clone, Copy, PartialEq, Eq, Structural)]
pub enum SuggesterSource {
    /// The tags of the tag index.
    Tag,
}

/// One suggestion.
#[derive(Debug, PartialEq, Eq)]
pub struct Suggestion {
    pub value: String,
}

/// The first match that a search of a suggester returns.
pub const SUGGESTER_START: u32 = 0;

/// The match behind the last one that a search of a suggester returns.
pub const SUGGESTER_END: u32 = 5;

impl Clone for Suggestion {
    fn clone(&self) -> (copy: Self)
        ensures
            copy.value@ == self.value@,
    {
        Suggestion { value: self.value.clone() }
    }
}

impl Searchable for Suggestion {
    /// A suggestion is found by its value.
    open spec fn search_text(&self) -> Seq<char> {
        self.value@
    }

    fn get_search_text(&self) -> (text: String) {
        self.value.clone()
    }

    proof fn lemma_clone_keeps_text(&self, copy: &Self) {
    }
}

/// The values of a sequence of suggestions.
pub open spec fn values(v: Seq<Suggestion>) -> Seq<Seq<char>> {
    v.map_values(|s: Suggestion| s.value@)
}

/// The suggestions of the source: for the tags, every tag of the tag index
/// with the tags above it, depth first.
pub fn get_suggestions(holder: &MetaHolder, source: SuggesterSource) -> (out: Vec<Suggestion>)
    ensures
        values(out@) == tags_of_forest(holder.tag_forest()),
{
    let tags = construct_all_tags(holder.tags());
    let mut out: Vec<Suggestion> = Vec::new();
    let mut i: usize = 0;
    while i < tags.len()
        invariant
            i <= tags@.len(),
            out@.len() == i,
            forall|j: int| 0 <= j < i ==> (#[trigger] out@[j]).value@ == tags@[j]@,
        decreases tags@.len() - i,
    {
        out.push(Suggestion { value: tags[i].clone() });
        i += 1;
    }
    assert(values(out@) =~= texts(tags@));
    out
}

/// Opens a suggester: a session over the suggestions of the source.
pub fn create_suggester(
    suggesters: &mut SearcherManager<Suggestion>,
    holder: &MetaHolder,
    source: SuggesterSource,
) -> (id: SearcherId)
    requires
        old(suggesters).wf(),
        old(suggesters)@.issued < usize::MAX,
        tags_of_forest(holder.tag_forest()).len() <= crate::engine::MAX_ITEMS,
        forall|i: int|
            0 <= i < tags_of_forest(holder.tag_forest()).len() ==> (#[trigger] tags_of_forest(
                holder.tag_forest(),
            )[i]).len() <= u32::MAX,
    ensures
        final(suggesters).wf(),
        id.0 == old(suggesters)@.issued,
        final(suggesters)@ == old(suggesters)@.with_session(final(suggesters)@.sessions[id.0]),
        final(suggesters)@.sessions[id.0].last_query() is None,
        values(final(suggesters)@.sessions[id.0].candidates()) == tags_of_forest(
            holder.tag_forest(),
        ),
{
    let suggestions = get_suggestions(holder, source);
    assert forall|i: int| 0 <= i < suggestions@.len() implies (
    #[trigger] suggestions@[i]).search_text().len() <= u32::MAX by {
        assert(values(suggestions@)[i] == suggestions@[i].value@);
    }
    let id = suggesters.new_searcher(suggestions.as_slice());
    assert(values(suggesters@.sessions[id.0].candidates()) =~= values(suggestions@)) by {
        assert forall|i: int| 0 <= i < suggestions@.len() implies values(
            suggesters@.sessions[id.0].candidates(),
        )[i] == values(suggestions@)[i] by {
            assert(suggesters@.sessions[id.0].candidates()[i].search_text()
                == suggestions@[i].search_text());
        }
    }
    id
}

/// Searches a suggester for `search` and returns its first five matches.
pub fn search_suggester(
    suggesters: &mut SearcherManager<Suggestion>,
    id: SearcherId,
    search: &str,
) -> (out: Option<Vec<Matched<Suggestion>>>)
    requires
        old(suggesters).wf(),
    ensures
        final(suggesters).wf(),
        old(suggesters)@.searched(
            final(suggesters)@,
            id,
            search@,
            SUGGESTER_START,
            SUGGESTER_END,
            out,
        ),
        out is None <==> !old(suggesters)@.here(id),
{
    suggesters.search(id, search, SUGGESTER_START..SUGGESTER_END)
}

/// Closes a suggester.
pub fn delete_suggester(suggesters: &mut SearcherManager<Suggestion>, id: SearcherId)
    requires
        old(suggesters).wf(),
    ensures
        final(suggesters).wf(),
        final(suggesters)@ == old(suggesters)@.without(id),
{
    suggesters.delete_searcher(id);
}

} // verus!
