//! The fuzzy matcher behind a search session.
//!
//! Matching, scoring and ranking are done by the `nucleo` crate, on a worker
//! pool of its own. Nothing of that is proved here. This file declares the
//! matcher's types, names what a matcher holds, and states for each call what
//! the crate's source shows of it. The matcher works against a time budget, so
//! which matches a tick brings is left open where the time ran out: the
//! contracts say what holds of every outcome, and what holds of a tick that
//! came to its end.
//!
//! Every matcher of this crate is made by `engine_new`, with the default
//! configuration and one column for each item.

use vstd::prelude::*;
use crate::text::has_prefix;

verus! {

#[verifier::external_type_specification]
#[verifier::external_body]
#[verifier::reject_recursive_types(T)]
pub struct ExNucleo<T: Sync + Send + 'static>(nucleo::Nucleo<T>);

#[verifier::external_type_specification]
#[verifier::external_body]
pub struct ExMatcher(nucleo::Matcher);

/// How a difference in case between query and text is treated.
#[derive(Debug, Clone, Copy, PartialEq, Eq, Structural)]
pub enum CaseMatching {
    /// A character never matches its other case.
    Respect,
    /// A character always matches its other case.
    Ignore,
    /// As `Ignore` for a word of the query that is all lower case, as
    /// `Respect` for a word that holds an upper-case character.
    Smart,
}

/// How a character with a diacritic or of another width is treated.
#[derive(Debug, Clone, Copy, PartialEq, Eq, Structural)]
pub enum Normalization {
    /// A character never matches its plain form.
    Never,
    /// A plain character of the query matches the forms that normalize to
    /// it, unless the word of the query itself holds such a form.
    Smart,
}

/// What a matcher is asked for: the text of the query, and how case and
/// special forms of characters are treated.
pub struct Query {
    pub text: Seq<char>,
    pub case_matching: CaseMatching,
    pub normalization: Normalization,
}

/// The most items that a matcher takes: its item list panics on the push
/// after this many.
pub const MAX_ITEMS: u32 = 0xFFFF_FFE0;

/// The items pushed into the matcher, in the order of the pushes: the number
/// stored as the item's data, and the text that its matcher column was made
/// from.
pub uninterp spec fn engine_items(engine: nucleo::Nucleo<u32>) -> Seq<(u32, Seq<char>)>;

/// What the matcher's pattern was last parsed from; a new matcher has the
/// pattern of the empty text.
pub uninterp spec fn engine_query(engine: nucleo::Nucleo<u32>) -> Query;

/// What the pattern of the matcher's snapshot was parsed from: the matches of
/// the snapshot are matches of that query.
pub uninterp spec fn engine_snapshot_query(engine: nucleo::Nucleo<u32>) -> Query;

/// The matches of the matcher's snapshot, best match first, each by the
/// position of the item in the order of the pushes.
pub uninterp spec fn engine_ranking(engine: nucleo::Nucleo<u32>) -> Seq<u32>;

/// The positions that the pattern parsed from `query` marks in `text`: what
/// `Pattern::indices` appends to an empty vector, with a matcher of the
/// default configuration.
pub uninterp spec fn pattern_marks(query: Query, text: Seq<char>) -> Seq<u32>;

/// The matcher was made with the default configuration. Matching through a
/// pattern sets case and normalization anew for each word of the pattern and
/// leaves the rest of the configuration as it is.
pub uninterp spec fn default_configured(matcher: nucleo::Matcher) -> bool;

/// The positions of `count` items, in the order of the pushes.
pub open spec fn in_order(count: nat) -> Seq<u32> {
    Seq::new(count, |i: int| i as u32)
}

/// `Nucleo::new` with the default configuration, a notifier that does
/// nothing, one thread per hardware thread and `columns` matcher columns for
/// each item. The items and calls of this file are those of a matcher with
/// one column, and no other is made. The new matcher holds no item, and its
/// pattern and that of its snapshot are the pattern of the empty text. Where
/// the system gives no threads for the workers the crate panics, as it does
/// where it gives no memory.
#[verifier::external_body]
pub(crate) fn engine_new(columns: u32) -> (engine: nucleo::Nucleo<u32>)
    requires
        columns == 1,
    ensures
        engine_items(engine) == Seq::<(u32, Seq<char>)>::empty(),
        engine_query(engine).text == Seq::<char>::empty(),
        engine_snapshot_query(engine).text == Seq::<char>::empty(),
{
    nucleo::Nucleo::new(nucleo::Config::DEFAULT, std::sync::Arc::new(|| {}), None, columns)
}

/// `Matcher::new` with the default configuration.
#[verifier::external_body]
pub(crate) fn matcher_new() -> (matcher: nucleo::Matcher)
    ensures
        default_configured(matcher),
{
    nucleo::Matcher::new(nucleo::Config::DEFAULT)
}

/// `Injector::push`: appends one item with the data `id` and a column made
/// from the text `key`. The item list takes no more than `MAX_ITEMS` items,
/// and the matcher no text of more than 2^32-1 characters.
#[verifier::external_body]
pub(crate) fn engine_push(engine: &mut nucleo::Nucleo<u32>, id: u32, key: &str)
    requires
        engine_items(*old(engine)).len() < MAX_ITEMS,
        key@.len() <= u32::MAX,
    ensures
        engine_items(*final(engine)) == engine_items(*old(engine)).push((id, key@)),
        engine_query(*final(engine)) == engine_query(*old(engine)),
{
    engine.injector().push(id, |_, columns| columns[0] = key.into());
}

/// `MultiPattern::reparse` of the one column. With `append` the caller
/// promises that the text of the previous call is a prefix of `query`; the
/// crate may then reuse its last matches.
#[verifier::external_body]
pub(crate) fn engine_reparse(
    engine: &mut nucleo::Nucleo<u32>,
    query: &str,
    case_matching: CaseMatching,
    normalization: Normalization,
    append: bool,
)
    requires
        append ==> has_prefix(query@, engine_query(*old(engine)).text),
    ensures
        engine_query(*final(engine)) == (Query { text: query@, case_matching, normalization }),
        engine_items(*final(engine)) == engine_items(*old(engine)),
{
    let case_matching = match case_matching {
        CaseMatching::Respect => nucleo::pattern::CaseMatching::Respect,
        CaseMatching::Ignore => nucleo::pattern::CaseMatching::Ignore,
        CaseMatching::Smart => nucleo::pattern::CaseMatching::Smart,
    };
    let normalization = match normalization {
        Normalization::Never => nucleo::pattern::Normalization::Never,
        Normalization::Smart => nucleo::pattern::Normalization::Smart,
    };
    engine.pattern.reparse(0, query, case_matching, normalization, append);
}

/// `Nucleo::tick`: hands the pattern to the workers and waits up to
/// `timeout` milliseconds for them. Items and pattern stay. Returns whether
/// the workers were still at it when the time was up. Where they were not,
/// the snapshot is that of the pattern over all items; for the pattern of
/// the empty text that is every item, in the order of the pushes. Where they
/// were, the snapshot is whatever they had finished before.
#[verifier::external_body]
pub(crate) fn engine_tick(engine: &mut nucleo::Nucleo<u32>, timeout: u64) -> (running: bool)
    ensures
        engine_items(*final(engine)) == engine_items(*old(engine)),
        engine_query(*final(engine)) == engine_query(*old(engine)),
        !running ==> engine_snapshot_query(*final(engine)) == engine_query(*old(engine)),
        !running && engine_query(*old(engine)).text.len() == 0 ==> engine_ranking(*final(engine))
            == in_order(engine_items(*old(engine)).len()),
{
    engine.tick(timeout).running
}

/// `Snapshot::matched_item_count`: the number of matches in the snapshot.
/// Every one of them is an item that was pushed, and no item is matched
/// twice, so that there are no more matches than items.
#[verifier::external_body]
pub(crate) fn engine_matched_count(engine: &nucleo::Nucleo<u32>) -> (count: u32)
    ensures
        count == engine_ranking(*engine).len(),
        count <= engine_items(*engine).len(),
        forall|i: int|
            0 <= i < count ==> (#[trigger] engine_ranking(*engine)[i]) < engine_items(
                *engine,
            ).len(),
        forall|i: int, j: int|
            0 <= i < j < count ==> (#[trigger] engine_ranking(*engine)[i])
                != #[trigger] engine_ranking(*engine)[j],
{
    engine.snapshot().matched_item_count()
}

/// `Snapshot::matched_items`: the data of the matches `start..end` of the
/// snapshot, in rank order. The crate panics on a range that is reversed or
/// reaches past the matches.
#[verifier::external_body]
pub(crate) fn engine_matched(engine: &nucleo::Nucleo<u32>, start: u32, end: u32) -> (ids: Vec<u32>)
    requires
        start <= end <= engine_ranking(*engine).len(),
    ensures
        ids@.len() == end - start,
        forall|i: int|
            0 <= i < ids@.len() ==> #[trigger] ids@[i] == engine_items(
                *engine,
            )[engine_ranking(*engine)[start + i] as int].0,
{
    engine.snapshot().matched_items(start..end).map(|item| *item.data).collect()
}

/// `Pattern::indices` of the snapshot's pattern, on `text`, into an empty
/// vector. The pattern of the empty text marks nothing. The matcher panics on
/// a text of more than 2^32-1 characters.
#[verifier::external_body]
pub(crate) fn engine_mark(
    engine: &nucleo::Nucleo<u32>,
    matcher: &mut nucleo::Matcher,
    text: &str,
) -> (indices: Vec<u32>)
    requires
        text@.len() <= u32::MAX,
        default_configured(*old(matcher)),
    ensures
        indices@ == pattern_marks(engine_snapshot_query(*engine), text@),
        engine_snapshot_query(*engine).text.len() == 0 ==> indices@.len() == 0,
        default_configured(*final(matcher)),
{
    let mut buffer = Vec::new();
    let haystack = nucleo::Utf32Str::new(text, &mut buffer);
    let mut indices = Vec::new();
    engine.snapshot().pattern().column_pattern(0).indices(haystack, matcher, &mut indices);
    indices
}

/// The `Drop` of `Nucleo`: tells the workers to stop and waits for them. The
/// crate holds a worker that has not stopped after a second to be out of the
/// question, and panics there.
#[verifier::external_body]
pub(crate) fn engine_release(engine: nucleo::Nucleo<u32>) {
    drop(engine);
}

} // verus!
