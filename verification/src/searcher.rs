//! Search sessions and their registry.
//!
//! A session is one fuzzy matcher over a fixed snapshot of candidates. It is
//! asked again and again, once for each keystroke, and answers with a window
//! of the ranked matches. A registry owns the sessions of one kind of
//! candidate and hands out their ids.

use vstd::prelude::*;
use std::collections::{HashMap, HashSet};
use std::ops::Range;
use crate::engine::{
    default_configured, engine_items, engine_mark, engine_matched, engine_matched_count,
    engine_new, engine_push, engine_query, engine_ranking, engine_release, engine_reparse,
    engine_snapshot_query, engine_tick, in_order, matcher_new, pattern_marks, CaseMatching,
    Normalization, Query, MAX_ITEMS,
};
use crate::text::{has_prefix, starts_with};

verus! {

broadcast use vstd::std_specs::hash::group_hash_axioms;

/// What a session is searched by: each candidate has a text, and a copy of a
/// candidate has the text of the candidate.
pub trait Searchable: Clone {
    /// The text that a query is matched against.
    spec fn search_text(&self) -> Seq<char>;

    /// The text that a query is matched against, as a string.
    fn get_search_text(&self) -> (text: String)
        ensures
            text@ == self.search_text(),
    ;

    /// Cloning keeps the text.
    proof fn lemma_clone_keeps_text(&self, copy: &Self)
        requires
            cloned(*self, *copy),
        ensures
            copy.search_text() == self.search_text(),
    ;
}

/// One match: the positions of the candidate's text that the query marked,
/// and the candidate.
pub struct Matched<T> {
    pub indices: Vec<u32>,
    pub payload: T,
}

/// The milliseconds that one search waits for the matcher.
pub const TICK_BUDGET: u64 = 10;

/// The window `start..end` cut down to `count` matches: both ends are
/// clamped, and a window whose end lies before its start is empty.
pub open spec fn window(start: u32, end: u32, count: nat) -> (int, int) {
    let lo = if start <= count {
        start as int
    } else {
        count as int
    };
    let hi = if end <= count {
        end as int
    } else {
        count as int
    };
    (
        lo,
        if hi < lo {
            lo
        } else {
            hi
        },
    )
}

/// The window `start..end` cut down to `count` matches.
pub fn clamp_window(start: u32, end: u32, count: u32) -> (r: (u32, u32))
    ensures
        (r.0 as int, r.1 as int) == window(start, end, count as nat),
        r.0 <= r.1 <= count,
        start >= count ==> r.0 == r.1,
{
    let lo = if start <= count {
        start
    } else {
        count
    };
    let hi = if end <= count {
        end
    } else {
        count
    };
    if hi < lo {
        (lo, lo)
    } else {
        (lo, hi)
    }
}

/// Whether a query refines the last one: there was one, and the new query
/// begins with it. Only then may the matcher reuse its last matches.
pub open spec fn refines(last: Option<Seq<char>>, query: Seq<char>) -> bool {
    match last {
        Some(previous) => has_prefix(query, previous),
        None => false,
    }
}

/// Whether `query` refines the last query.
pub fn is_refinement(last: &Option<String>, query: &str) -> (b: bool)
    ensures
        b == refines(
            match *last {
                Some(previous) => Some(previous@),
                None => None,
            },
            query@,
        ),
{
    match last {
        Some(previous) => starts_with(query, previous.as_str()),
        None => false,
    }
}

/// The candidates `actions` can be searched: the matcher takes their number
/// and the length of each text.
pub open spec fn searchable<T: Searchable>(actions: Seq<T>) -> bool {
    &&& actions.len() <= MAX_ITEMS
    &&& forall|i: int| 0 <= i < actions.len() ==> (#[trigger] actions[i]).search_text().len() <= u32::MAX
}

/// Whether the candidates `actions` can be searched.
pub fn is_searchable<T: Searchable>(actions: &[T]) -> (b: bool)
    ensures
        b == searchable(actions@),
{
    if actions.len() > MAX_ITEMS as usize {
        return false;
    }
    let mut i: usize = 0;
    while i < actions.len()
        invariant
            i <= actions@.len(),
            forall|j: int| 0 <= j < i ==> (#[trigger] actions@[j]).search_text().len() <= u32::MAX,
        decreases actions@.len() - i,
    {
        let text = actions[i].get_search_text();
        if text.as_str().unicode_len() > u32::MAX as usize {
            return false;
        }
        i += 1;
    }
    true
}

/// How a session treats case: a query in lower case finds both cases, a
/// query with an upper-case character finds what is written as it is.
pub const CASE_MATCHING: CaseMatching = CaseMatching::Smart;

/// How a session treats diacritics and widths: a plain character of the
/// query finds the forms that normalize to it.
pub const NORMALIZATION: Normalization = Normalization::Smart;

/// The columns of an item of the matcher: one, for the candidate's text.
pub const COLUMNS: u32 = 1;

/// What a session asks its matcher for when it is searched for `text`.
pub open spec fn asked_for(text: Seq<char>) -> Query {
    Query { text, case_matching: CASE_MATCHING, normalization: NORMALIZATION }
}

/// One fuzzy matcher over a fixed snapshot of candidates.
pub struct Searcher<T> {
    candidates: Vec<T>,
    keys: Vec<String>,
    engine: nucleo::Nucleo<u32>,
    matcher: nucleo::Matcher,
    last_search: Option<String>,
    running: bool,
}

impl<T: Searchable> Searcher<T> {
    /// The candidates, in the order in which the session took them.
    pub closed spec fn candidates(&self) -> Seq<T> {
        self.candidates@
    }

    /// The query of the last search, if there was one.
    pub closed spec fn last_query(&self) -> Option<Seq<char>> {
        match self.last_search {
            Some(query) => Some(query@),
            None => None,
        }
    }

    /// What the matcher was last asked for.
    pub closed spec fn asked(&self) -> Query {
        engine_query(self.engine)
    }

    /// The query that the ranking belongs to: what the matcher was asked for
    /// when it last came to its end.
    pub closed spec fn matched_query(&self) -> Query {
        engine_snapshot_query(self.engine)
    }

    /// The positions, in `candidates`, of the matches that the matcher holds,
    /// best match first.
    pub closed spec fn ranking(&self) -> Seq<u32> {
        engine_ranking(self.engine)
    }

    /// The matcher had not finished when the last search ran out of time:
    /// the ranking may be that of an earlier query.
    pub closed spec fn still_running(&self) -> bool {
        self.running
    }

    /// The session is consistent: the matcher holds one item for each
    /// candidate, under the candidate's position and text, and the pattern of
    /// the last query.
    pub closed spec fn wf(&self) -> bool {
        &&& self.candidates@.len() <= MAX_ITEMS
        &&& self.keys@.len() == self.candidates@.len()
        &&& forall|i: int|
            0 <= i < self.keys@.len() ==> (#[trigger] self.keys@[i])@
                == self.candidates@[i].search_text()
        &&& forall|i: int|
            0 <= i < self.keys@.len() ==> (#[trigger] self.keys@[i])@.len() <= u32::MAX
        &&& engine_items(self.engine) == Seq::new(
            self.keys@.len(),
            |i: int| (i as u32, self.keys@[i]@),
        )
        &&& default_configured(self.matcher)
        &&& match self.last_search {
            Some(query) => engine_query(self.engine) == asked_for(query@),
            None => engine_query(self.engine).text.len() == 0,
        }
    }

    /// Every match that the matcher holds is one of the candidates, and no
    /// candidate is matched twice, so that there are no more matches than
    /// candidates.
    pub open spec fn ranking_in_bounds(&self) -> bool {
        &&& self.ranking().len() <= self.candidates().len() <= MAX_ITEMS
        &&& forall|i: int|
            0 <= i < self.ranking().len() ==> (#[trigger] self.ranking()[i])
                < self.candidates().len()
        &&& forall|i: int, j: int|
            0 <= i < j < self.ranking().len() ==> (#[trigger] self.ranking()[i])
                != #[trigger] self.ranking()[j]
    }

    /// The ranking belongs to the search for `query`, unless the matcher ran
    /// out of time: it is the ranking for that query, under the session's
    /// rules for case and normalization; and for the empty query it holds
    /// every candidate, in the order in which the session took them.
    pub open spec fn settled_on(&self, query: Seq<char>) -> bool {
        !self.still_running() ==> {
            &&& self.matched_query() == asked_for(query)
            &&& query.len() == 0 ==> self.ranking() == in_order(self.candidates().len())
        }
    }

    /// `out` is the answer of this session to the window `start..end`: one
    /// entry for each match of the clamped window, in rank order, holding a
    /// copy of the candidate and what the query of the ranking marks in its
    /// text. The empty query marks nothing.
    pub open spec fn answers(&self, start: u32, end: u32, out: Seq<Matched<T>>) -> bool {
        let (lo, hi) = window(start, end, self.ranking().len());
        &&& out.len() == hi - lo
        &&& forall|i: int|
            0 <= i < out.len() ==> {
                let position = self.ranking()[lo + i] as int;
                &&& 0 <= position < self.candidates().len()
                &&& cloned(self.candidates()[position], (#[trigger] out[i]).payload)
                &&& out[i].indices@ == pattern_marks(
                    self.matched_query(),
                    self.candidates()[position].search_text(),
                )
                &&& self.matched_query().text.len() == 0 ==> out[i].indices@.len() == 0
            }
    }

    /// A session over copies of `actions`.
    pub fn new(actions: &[T]) -> (s: Self)
        requires
            searchable(actions@),
        ensures
            s.wf(),
            s.last_query() is None,
            s.candidates().len() == actions@.len(),
            forall|i: int|
                0 <= i < actions@.len() ==> cloned(actions@[i], #[trigger] s.candidates()[i])
                    && s.candidates()[i].search_text() == actions@[i].search_text(),
    {
        let mut engine = engine_new(COLUMNS);
        let mut candidates: Vec<T> = Vec::new();
        let mut keys: Vec<String> = Vec::new();
        let mut i: usize = 0;
        while i < actions.len()
            invariant
                i <= actions@.len(),
                searchable(actions@),
                candidates@.len() == i,
                keys@.len() == i,
                forall|j: int|
                    0 <= j < i ==> cloned(actions@[j], #[trigger] candidates@[j])
                        && candidates@[j].search_text() == actions@[j].search_text(),
                forall|j: int|
                    0 <= j < i ==> (#[trigger] keys@[j])@ == candidates@[j].search_text(),
                forall|j: int| 0 <= j < i ==> (#[trigger] keys@[j])@.len() <= u32::MAX,
                engine_items(engine) == Seq::new(i as nat, |j: int| (j as u32, keys@[j]@)),
                engine_query(engine).text == Seq::<char>::empty(),
            decreases actions@.len() - i,
        {
            let candidate = actions[i].clone();
            let key = candidate.get_search_text();
            proof {
                actions@[i as int].lemma_clone_keeps_text(&candidate);
            }
            engine_push(&mut engine, i as u32, key.as_str());
            candidates.push(candidate);
            keys.push(key);
            assert(engine_items(engine) =~= Seq::new(
                (i + 1) as nat,
                |j: int| (j as u32, keys@[j]@),
            ));
            i += 1;
        }
        Searcher {
            candidates,
            keys,
            engine,
            matcher: matcher_new(),
            last_search: None,
            running: false,
        }
    }

    /// Whether the matcher had not finished when the last search ran out of
    /// time.
    pub fn is_running(&self) -> (b: bool)
        ensures
            b == self.still_running(),
    {
        self.running
    }

    /// Searches for `search` and returns the matches of the window `range`.
    ///
    /// The matcher is asked for `search` under the session's rules for case
    /// and normalization, and told to reuse its last matches only where
    /// `search` begins with the last query. It gets `TICK_BUDGET`
    /// milliseconds. Where it comes to its end in that time, the ranking is
    /// that of `search`; where it does not, the ranking is what it had
    /// before, and `is_running` says so.
    pub fn search(&mut self, search: &str, range: Range<u32>) -> (out: Vec<Matched<T>>)
        requires
            old(self).wf(),
        ensures
            final(self).wf(),
            final(self).candidates() == old(self).candidates(),
            final(self).last_query() == Some(search@),
            final(self).asked() == asked_for(search@),
            final(self).settled_on(search@),
            final(self).ranking_in_bounds(),
            final(self).answers(range.start, range.end, out@),
            range.start >= old(self).candidates().len() ==> out@.len() == 0,
    {
        let append = is_refinement(&self.last_search, search);
        self.last_search = Some(search.to_owned());
        engine_reparse(&mut self.engine, search, CASE_MATCHING, NORMALIZATION, append);
        self.running = engine_tick(&mut self.engine, TICK_BUDGET);
        let count = engine_matched_count(&self.engine);
        assert(engine_items(self.engine).len() == self.candidates@.len());
        assert(in_order(engine_items(self.engine).len()) == in_order(self.candidates@.len()));
        let mut out: Vec<Matched<T>> = Vec::new();
        if count == 0 {
            return out;
        }
        let (lo, hi) = clamp_window(range.start, range.end, count);
        let ids = engine_matched(&self.engine, lo, hi);
        let mut i: usize = 0;
        while i < ids.len()
            invariant
                self.wf(),
                self.ranking_in_bounds(),
                self.settled_on(search@),
                self.candidates() == old(self).candidates(),
                self.last_query() == Some(search@),
                self.asked() == asked_for(search@),
                (lo as int, hi as int) == window(range.start, range.end, self.ranking().len()),
                lo <= hi <= self.ranking().len(),
                ids@.len() == hi - lo,
                forall|j: int| 0 <= j < ids@.len() ==> #[trigger] ids@[j] == self.ranking()[lo + j],
                i <= ids@.len(),
                out@.len() == i,
                forall|j: int|
                    0 <= j < i ==> {
                        let position = self.ranking()[lo + j] as int;
                        &&& cloned(self.candidates()[position], (#[trigger] out@[j]).payload)
                        &&& out@[j].indices@ == pattern_marks(
                            self.matched_query(),
                            self.candidates()[position].search_text(),
                        )
                        &&& self.matched_query().text.len() == 0 ==> out@[j].indices@.len() == 0
                    },
            decreases ids@.len() - i,
        {
            assert(ids@[i as int] == self.ranking()[lo + i]);
            let position = ids[i] as usize;
            let indices = engine_mark(&self.engine, &mut self.matcher, self.keys[position].as_str());
            let payload = self.candidates[position].clone();
            out.push(Matched { indices, payload });
            i += 1;
        }
        out
    }

    /// Ends the session: its matcher is told to stop and is let go.
    pub fn close(self) {
        let Searcher { engine, .. } = self;
        engine_release(engine);
    }
}

/// The handle of a session: a number that its registry hands out once and
/// never again.
#[derive(Debug, Clone, Copy, PartialEq, Eq, PartialOrd, Ord, Hash, Structural)]
pub struct SearcherId(pub usize);

/// What a registry holds: how many ids it has handed out, the sessions that
/// are alive and with it, each under the number of its id, and the numbers of
/// the sessions that are alive and taken out.
pub struct Registry<T> {
    pub issued: nat,
    pub sessions: Map<usize, Searcher<T>>,
    pub lent: Set<usize>,
}

/// What taking a session out gives.
pub enum Lent<T> {
    /// No session is alive under the id.
    Unknown,
    /// The session is alive, and someone else has taken it out.
    Busy,
    /// The session: it is to be put back under its id.
    Session(Searcher<T>),
}

impl<T: Searchable> Registry<T> {
    /// Every session alive has an id that was handed out; a session is with
    /// the registry or taken out, not both; and the sessions with the
    /// registry are consistent.
    pub open spec fn valid(self) -> bool {
        &&& forall|number: usize| #[trigger]
            self.sessions.contains_key(number) ==> number < self.issued
                && self.sessions[number].wf() && !self.lent.contains(number)
        &&& forall|number: usize| #[trigger] self.lent.contains(number) ==> number < self.issued
    }

    /// A session is alive under `id` and with the registry.
    pub open spec fn here(self, id: SearcherId) -> bool {
        self.sessions.contains_key(id.0)
    }

    /// A session is alive under `id`: with the registry, or taken out.
    pub open spec fn known(self, id: SearcherId) -> bool {
        self.sessions.contains_key(id.0) || self.lent.contains(id.0)
    }

    /// The registry after the session `session` was created under the next id.
    pub open spec fn with_session(self, session: Searcher<T>) -> Registry<T> {
        Registry {
            issued: self.issued + 1,
            sessions: self.sessions.insert(self.issued as usize, session),
            lent: self.lent,
        }
    }

    /// The registry after the session under `id` was deleted, be it with the
    /// registry or taken out.
    pub open spec fn without(self, id: SearcherId) -> Registry<T> {
        Registry {
            issued: self.issued,
            sessions: self.sessions.remove(id.0),
            lent: self.lent.remove(id.0),
        }
    }

    /// The registry after the session under `id` was taken out.
    pub open spec fn taken(self, id: SearcherId) -> Registry<T> {
        Registry {
            issued: self.issued,
            sessions: self.sessions.remove(id.0),
            lent: self.lent.insert(id.0),
        }
    }

    /// The registry after `session` was put back under `id`: it is with the
    /// registry again where it was taken out and not deleted since; else
    /// nothing changes.
    pub open spec fn returned(self, id: SearcherId, session: Searcher<T>) -> Registry<T> {
        if self.lent.contains(id.0) {
            Registry {
                issued: self.issued,
                sessions: self.sessions.insert(id.0, session),
                lent: self.lent.remove(id.0),
            }
        } else {
            self
        }
    }

    /// `after` and `out` are what a search under `id` for `query`, with the
    /// window `start..end`, may leave and return: nothing and no change where
    /// no session is with the registry under the id; else the answer of that
    /// session, which has taken the query, while every other session stays
    /// as it was.
    pub open spec fn searched(
        self,
        after: Registry<T>,
        id: SearcherId,
        query: Seq<char>,
        start: u32,
        end: u32,
        out: Option<Vec<Matched<T>>>,
    ) -> bool {
        match out {
            None => !self.here(id) && after == self,
            Some(matches) => {
                &&& self.here(id)
                &&& after.issued == self.issued
                &&& after.lent == self.lent
                &&& after.sessions == self.sessions.insert(id.0, after.sessions[id.0])
                &&& after.sessions[id.0].wf()
                &&& after.sessions[id.0].candidates() == self.sessions[id.0].candidates()
                &&& after.sessions[id.0].last_query() == Some(query)
                &&& after.sessions[id.0].asked() == asked_for(query)
                &&& after.sessions[id.0].settled_on(query)
                &&& after.sessions[id.0].ranking_in_bounds()
                &&& after.sessions[id.0].answers(start, end, matches@)
            },
        }
    }
}

/// The sessions of one kind of candidate.
pub struct SearcherManager<T> {
    palettes: HashMap<usize, Searcher<T>>,
    lent: HashSet<usize>,
    id_counter: usize,
}

impl<T: Searchable> View for SearcherManager<T> {
    type V = Registry<T>;

    closed spec fn view(&self) -> Registry<T> {
        Registry { issued: self.id_counter as nat, sessions: self.palettes@, lent: self.lent@ }
    }
}

impl<T: Searchable> SearcherManager<T> {
    /// The registry is consistent.
    pub open spec fn wf(&self) -> bool {
        self@.valid()
    }

    /// A registry without sessions, which has handed out no id.
    pub fn new() -> (registry: Self)
        ensures
            registry.wf(),
            registry@.issued == 0,
            registry@.sessions == Map::<usize, Searcher<T>>::empty(),
            registry@.lent == Set::<usize>::empty(),
    {
        SearcherManager { palettes: HashMap::new(), lent: HashSet::new(), id_counter: 0 }
    }

    /// Creates a session over copies of `actions` and returns its id, which
    /// no session had before.
    pub fn new_searcher(&mut self, actions: &[T]) -> (id: SearcherId)
        requires
            old(self).wf(),
            old(self)@.issued < usize::MAX,
            searchable(actions@),
        ensures
            final(self).wf(),
            id.0 == old(self)@.issued,
            !old(self)@.known(id),
            final(self)@.here(id),
            final(self)@ == old(self)@.with_session(final(self)@.sessions[id.0]),
            final(self)@.sessions[id.0].last_query() is None,
            final(self)@.sessions[id.0].candidates().len() == actions@.len(),
            forall|i: int|
                0 <= i < actions@.len() ==> cloned(
                    actions@[i],
                    #[trigger] final(self)@.sessions[id.0].candidates()[i],
                ) && final(self)@.sessions[id.0].candidates()[i].search_text()
                    == actions@[i].search_text(),
    {
        let number = self.id_counter;
        self.id_counter = self.id_counter + 1;
        let session = Searcher::new(actions);
        assert(!old(self)@.sessions.contains_key(number));
        assert(!old(self)@.lent.contains(number));
        self.palettes.insert(number, session);
        assert(self@.sessions =~= old(self)@.sessions.insert(number, self@.sessions[number]));
        SearcherId(number)
    }

    /// Creates a session as `new_searcher` does, where the matcher takes the
    /// candidates and an id is left to hand out; else `None`, and nothing has
    /// changed.
    pub fn try_new_searcher(&mut self, actions: &[T]) -> (r: Option<SearcherId>)
        requires
            old(self).wf(),
        ensures
            final(self).wf(),
            r is Some <==> old(self)@.issued < usize::MAX && searchable(actions@),
            match r {
                Some(id) => {
                    &&& id.0 == old(self)@.issued
                    &&& final(self)@ == old(self)@.with_session(final(self)@.sessions[id.0])
                    &&& final(self)@.sessions[id.0].last_query() is None
                    &&& final(self)@.sessions[id.0].candidates().len() == actions@.len()
                    &&& forall|i: int|
                        0 <= i < actions@.len() ==> cloned(
                            actions@[i],
                            #[trigger] final(self)@.sessions[id.0].candidates()[i],
                        ) && final(self)@.sessions[id.0].candidates()[i].search_text()
                            == actions@[i].search_text()
                },
                None => final(self)@ == old(self)@,
            },
    {
        if self.id_counter < usize::MAX && is_searchable(actions) {
            let id = self.new_searcher(actions);
            Some(id)
        } else {
            None
        }
    }

    /// Whether the matcher of the session under `id` had not finished when
    /// the last search of the session ran out of time; `None` where no
    /// session is with the registry under the id.
    pub fn is_running(&self, id: SearcherId) -> (r: Option<bool>)
        requires
            self.wf(),
        ensures
            r == if self@.here(id) {
                Some(self@.sessions[id.0].still_running())
            } else {
                None
            },
    {
        match self.palettes.get(&id.0) {
            Some(session) => Some(session.is_running()),
            None => None,
        }
    }

    /// Deletes the session under `id` and ends it. A session that is taken
    /// out is deleted too: it is ended when it is put back. An unknown id
    /// changes nothing.
    pub fn delete_searcher(&mut self, id: SearcherId)
        requires
            old(self).wf(),
        ensures
            final(self).wf(),
            final(self)@ == old(self)@.without(id),
            !final(self)@.known(id),
    {
        self.lent.remove(&id.0);
        match self.palettes.remove(&id.0) {
            Some(session) => {
                assert(self@.sessions =~= old(self)@.sessions.remove(id.0));
                session.close();
            },
            None => {
                assert(self@.sessions =~= old(self)@.sessions.remove(id.0));
            },
        }
        assert(self@.lent =~= old(self)@.lent.remove(id.0));
    }

    /// Takes the session under `id` out of the registry, to be searched
    /// while the registry is free for the other sessions. The session stays
    /// alive; until it is put back, no one else gets it.
    pub fn take_out(&mut self, id: SearcherId) -> (r: Lent<T>)
        requires
            old(self).wf(),
        ensures
            final(self).wf(),
            match r {
                Lent::Unknown => !old(self)@.known(id) && final(self)@ == old(self)@,
                Lent::Busy => old(self)@.lent.contains(id.0) && final(self)@ == old(self)@,
                Lent::Session(session) => {
                    &&& old(self)@.here(id)
                    &&& session == old(self)@.sessions[id.0]
                    &&& session.wf()
                    &&& final(self)@ == old(self)@.taken(id)
                },
            },
    {
        match self.palettes.remove(&id.0) {
            Some(session) => {
                assert(old(self)@.sessions.contains_key(id.0));
                self.lent.insert(id.0);
                Lent::Session(session)
            },
            None => {
                assert(self@.sessions =~= old(self)@.sessions);
                if self.lent.contains(&id.0) {
                    Lent::Busy
                } else {
                    Lent::Unknown
                }
            },
        }
    }

    /// Puts a session back that was taken out under `id`. Returns whether it
    /// is with the registry again. It is not where the session was deleted
    /// meanwhile, or was never taken out under that id: then it is ended.
    pub fn put_back(&mut self, id: SearcherId, session: Searcher<T>) -> (kept: bool)
        requires
            old(self).wf(),
            session.wf(),
        ensures
            final(self).wf(),
            kept == old(self)@.lent.contains(id.0),
            final(self)@ == old(self)@.returned(id, session),
    {
        if self.lent.remove(&id.0) {
            assert(old(self)@.lent.contains(id.0));
            assert(!old(self)@.sessions.contains_key(id.0));
            self.palettes.insert(id.0, session);
            true
        } else {
            assert(self@.lent =~= old(self)@.lent);
            session.close();
            false
        }
    }

    /// Searches the session under `id`. `None` says that no such session is
    /// with the registry: it was deleted, or the id was never handed out, or
    /// the session is taken out and searched by whoever holds it.
    pub fn search(&mut self, id: SearcherId, search: &str, range: Range<u32>) -> (out: Option<
        Vec<Matched<T>>,
    >)
        requires
            old(self).wf(),
        ensures
            final(self).wf(),
            old(self)@.searched(final(self)@, id, search@, range.start, range.end, out),
            out is None <==> !old(self)@.here(id),
            !old(self)@.lent.contains(id.0) ==> (out is None <==> !old(self)@.known(id)),
            id.0 >= old(self)@.issued ==> out is None,
    {
        match self.palettes.remove(&id.0) {
            None => {
                assert(self@.sessions =~= old(self)@.sessions);
                None
            },
            Some(session) => {
                let mut session = session;
                assert(old(self)@.sessions.contains_key(id.0));
                assert(session == old(self)@.sessions[id.0]);
                let matches = session.search(search, range);
                self.palettes.insert(id.0, session);
                assert(self@.sessions =~= old(self)@.sessions.insert(id.0, self@.sessions[id.0]));
                Some(matches)
            },
        }
    }
}

/// An id that no registry operation has handed out names no session: a
/// search under it finds nothing, and nothing can be taken out under it.
pub proof fn law_unissued_is_unknown<T: Searchable>(registry: Registry<T>, id: SearcherId)
    requires
        registry.valid(),
        id.0 >= registry.issued,
    ensures
        !registry.known(id),
        forall|after: Registry<T>, query: Seq<char>, start: u32, end: u32, out: Option<Vec<Matched<T>>>|
            #[trigger] registry.searched(after, id, query, start, end, out) ==> out is None,
{
}

/// Creating a session hands out an id that named no session before and that
/// no session created earlier has.
pub proof fn law_created_id_is_fresh<T: Searchable>(registry: Registry<T>, session: Searcher<T>)
    requires
        registry.valid(),
        session.wf(),
        registry.issued < usize::MAX,
    ensures
        !registry.known(SearcherId(registry.issued as usize)),
        registry.with_session(session).valid(),
        registry.with_session(session).here(SearcherId(registry.issued as usize)),
        forall|other: SearcherId|
            registry.known(other) ==> registry.with_session(session).known(other) && other.0
                < registry.issued,
{
}

/// After a session was deleted, a search under its id finds nothing, also
/// where sessions were created in between: an id is never handed out again.
/// That holds of a session that was taken out when it was deleted as well,
/// and putting it back does not bring it to life.
pub proof fn law_deleted_is_unknown<T: Searchable>(
    registry: Registry<T>,
    id: SearcherId,
    session: Searcher<T>,
)
    requires
        registry.valid(),
        registry.known(id),
        session.wf(),
        registry.issued < usize::MAX,
    ensures
        registry.without(id).valid(),
        !registry.without(id).known(id),
        !registry.without(id).with_session(session).known(id),
        registry.without(id).returned(id, session) == registry.without(id),
        forall|after: Registry<T>, query: Seq<char>, start: u32, end: u32, out: Option<Vec<Matched<T>>>|
            #[trigger] registry.without(id).searched(after, id, query, start, end, out) ==> out
                is None,
{
}

/// Deleting is idempotent: the second deletion of an id, and the deletion of
/// an unknown id, change nothing.
pub proof fn law_delete_is_idempotent<T: Searchable>(registry: Registry<T>, id: SearcherId)
    ensures
        registry.without(id).without(id) == registry.without(id),
        !registry.known(id) ==> registry.without(id) == registry,
{
    assert(registry.sessions.remove(id.0).remove(id.0) =~= registry.sessions.remove(id.0));
    assert(registry.lent.remove(id.0).remove(id.0) =~= registry.lent.remove(id.0));
    if !registry.known(id) {
        assert(registry.sessions.remove(id.0) =~= registry.sessions);
        assert(registry.lent.remove(id.0) =~= registry.lent);
    }
}

/// A session that is taken out stays alive and leaves the others as they
/// are; no one else can take it meanwhile; and when it is put back the
/// registry is what it was, but for what was done to the session.
pub proof fn law_taken_session_comes_back<T: Searchable>(
    registry: Registry<T>,
    id: SearcherId,
    session: Searcher<T>,
)
    requires
        registry.valid(),
        registry.here(id),
        session.wf(),
    ensures
        registry.taken(id).valid(),
        registry.taken(id).known(id),
        !registry.taken(id).here(id),
        forall|other: SearcherId|
            other != id ==> registry.taken(id).here(other) == registry.here(other),
        registry.taken(id).returned(id, session).valid(),
        registry.taken(id).returned(id, session).sessions == registry.sessions.insert(
            id.0,
            session,
        ),
        registry.taken(id).returned(id, session).lent == registry.lent,
        registry.taken(id).returned(id, registry.sessions[id.0]) == registry,
{
    let back = registry.taken(id).returned(id, session);
    assert(registry.taken(id).lent.contains(id.0));
    assert(back.sessions =~= registry.sessions.insert(id.0, session));
    assert(back.lent =~= registry.lent);
    assert(!registry.lent.contains(id.0));
    let same = registry.taken(id).returned(id, registry.sessions[id.0]);
    assert(same.sessions =~= registry.sessions);
    assert(same.lent =~= registry.lent);
}

/// The empty query, where the matcher came to its end, is answered with the
/// candidates of the window in the order in which the session took them,
/// and marks nothing in them.
pub proof fn law_empty_query_gives_all_in_order<T: Searchable>(
    session: Searcher<T>,
    start: u32,
    end: u32,
    out: Seq<Matched<T>>,
)
    requires
        session.ranking_in_bounds(),
        session.settled_on(Seq::empty()),
        !session.still_running(),
        session.answers(start, end, out),
    ensures
        out.len() == window(start, end, session.candidates().len()).1 - window(
            start,
            end,
            session.candidates().len(),
        ).0,
        forall|i: int|
            0 <= i < out.len() ==> cloned(
                session.candidates()[window(start, end, session.candidates().len()).0 + i],
                (#[trigger] out[i]).payload,
            ) && out[i].indices@.len() == 0,
{
    let count = session.candidates().len();
    assert(session.ranking() == in_order(count));
    assert(session.ranking().len() == count);
    let lo = window(start, end, count).0;
    assert forall|i: int| 0 <= i < out.len() implies cloned(
        session.candidates()[lo + i],
        (#[trigger] out[i]).payload,
    ) && out[i].indices@.len() == 0 by {
        assert(session.ranking()[lo + i] == (lo + i) as u32);
    }
}

/// No candidate is returned twice in one answer.
pub proof fn law_no_candidate_twice<T: Searchable>(
    session: Searcher<T>,
    start: u32,
    end: u32,
    out: Seq<Matched<T>>,
    i: int,
    j: int,
)
    requires
        session.ranking_in_bounds(),
        session.answers(start, end, out),
        0 <= i < j < out.len(),
    ensures
        session.ranking()[window(start, end, session.ranking().len()).0 + i] != session.ranking()[window(
            start,
            end,
            session.ranking().len(),
        ).0 + j],
{
}

/// What makes a query a refinement: there was a query before, and it is the
/// beginning of the new one. A query refines itself and the empty query,
/// and a refinement of a refinement is a refinement.
pub proof fn law_refinement_is_a_prefix(first: Seq<char>, second: Seq<char>, third: Seq<char>)
    ensures
        !refines(None, second),
        refines(Some(first), second) <==> first.len() <= second.len() && second.take(
            first.len() as int,
        ) == first,
        refines(Some(second), second),
        refines(Some(Seq::empty()), second),
        refines(Some(first), second) && refines(Some(second), third) ==> refines(Some(first), third),
{
    assert(second.subrange(0, second.len() as int) =~= second);
    assert(second.subrange(0, 0) =~= Seq::<char>::empty());
    if first.len() <= second.len() {
        assert(second.subrange(0, first.len() as int) =~= second.take(first.len() as int));
    }
    if refines(Some(first), second) && refines(Some(second), third) {
        assert(third.subrange(0, first.len() as int) =~= third.subrange(
            0,
            second.len() as int,
        ).subrange(0, first.len() as int));
    }
}

/// A session answers a window that starts at or past the number of its
/// candidates with nothing: there are no more matches than candidates.
pub proof fn law_window_past_the_candidates_is_empty<T: Searchable>(
    session: Searcher<T>,
    start: u32,
    end: u32,
    out: Seq<Matched<T>>,
)
    requires
        session.ranking_in_bounds(),
        session.answers(start, end, out),
        start >= session.candidates().len(),
    ensures
        out.len() == 0,
{
}

/// A window never reaches outside the matches.
pub proof fn law_window_is_within_the_matches(start: u32, end: u32, count: nat)
    ensures
        0 <= window(start, end, count).0 <= window(start, end, count).1 <= count,
        start <= end <= count ==> window(start, end, count) == (start as int, end as int),
{
}

} // verus!
