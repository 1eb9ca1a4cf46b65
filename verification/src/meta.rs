//! The index document and its holder.
//!
//! The index maps each note path to what is kept about the note, lists the
//! pinned notes in the order in which they are shown, and keeps how each tag
//! is displayed. The holder keeps the tag index beside it, derived anew
//! whenever the notes change.

use vstd::prelude::*;
use crate::cache::Fresh;
use crate::note::NoteMeta;
use crate::pattern::Patterns;
use crate::table::{distinct_keys, has_key, keys_of, value_of, with_entry, without_key, Table};
use crate::tag::{forest, forest_of, tags_from_meta, TagNode, TagTree};
use crate::text::{
    copy_optional, copy_texts, ends_with, first_index_of, has_suffix, lemma_first_index_of,
    position_of, text_of, texts,
};
use crate::title::{extension, path_to_title, title_of};

verus! {

/// How a tag is displayed. The hue is kept as the bit pattern of a
/// single-precision number.
#[derive(Debug, PartialEq, Eq)]
pub struct TagConfig {
    pub abbreviation: Option<String>,
    pub hue_bits: Option<u32>,
}

/// The index document.
pub struct Meta {
    /// For each note path, what is kept about the note.
    pub notes: Table<NoteMeta>,
    /// The paths of the pinned notes, in the order in which they are shown.
    pub pinned: Vec<String>,
    /// For each tag name, how the tag is displayed.
    pub tag_configs: Table<TagConfig>,
}

impl Clone for TagConfig {
    fn clone(&self) -> (copy: Self)
        ensures
            text_of(copy.abbreviation) == text_of(self.abbreviation),
            copy.hue_bits == self.hue_bits,
    {
        TagConfig { abbreviation: copy_optional(&self.abbreviation), hue_bits: self.hue_bits }
    }
}

/// The tag configurations, as texts: for each tag name the abbreviation and
/// the hue.
pub open spec fn config_views(configs: Seq<(Seq<char>, TagConfig)>) -> Seq<
    (Seq<char>, Option<Seq<char>>, Option<u32>),
> {
    configs.map_values(
        |c: (Seq<char>, TagConfig)| (c.0, text_of(c.1.abbreviation), c.1.hue_bits),
    )
}

impl Clone for Meta {
    fn clone(&self) -> (copy: Self)
        ensures
            copy.notes@ == self.notes@,
            texts(copy.pinned@) == texts(self.pinned@),
            config_views(copy.tag_configs@) == config_views(self.tag_configs@),
    {
        let copy = Meta {
            notes: self.notes.clone(),
            pinned: copy_texts(&self.pinned),
            tag_configs: self.tag_configs.clone(),
        };
        proof {
            assert(keys_of(copy.notes@).len() == copy.notes@.len());
            assert(keys_of(self.notes@).len() == self.notes@.len());
            assert forall|i: int| 0 <= i < self.notes@.len() implies copy.notes@[i]
                == self.notes@[i] by {
                assert(keys_of(copy.notes@)[i] == copy.notes@[i].0);
                assert(keys_of(self.notes@)[i] == self.notes@[i].0);
                assert(cloned(self.notes@[i].1, copy.notes@[i].1));
            }
            assert(copy.notes@ =~= self.notes@);
            lemma_cloned_configs(self.tag_configs@, copy.tag_configs@);
        }
        copy
    }
}

/// Tag configurations that were cloned one by one, under the same names,
/// read the same.
pub proof fn lemma_cloned_configs(
    configs: Seq<(Seq<char>, TagConfig)>,
    copy: Seq<(Seq<char>, TagConfig)>,
)
    requires
        keys_of(copy) == keys_of(configs),
        forall|i: int| 0 <= i < configs.len() ==> cloned(configs[i].1, #[trigger] copy[i].1),
    ensures
        config_views(copy) == config_views(configs),
{
    assert(keys_of(copy).len() == copy.len());
    assert(keys_of(configs).len() == configs.len());
    assert forall|i: int| 0 <= i < configs.len() implies config_views(copy)[i] == config_views(
        configs,
    )[i] by {
        assert(keys_of(copy)[i] == copy[i].0);
        assert(keys_of(configs)[i] == configs[i].0);
        assert(cloned(configs[i].1, copy[i].1));
    }
    assert(config_views(copy) =~= config_views(configs));
}

impl Default for Meta {
    fn default() -> (meta: Self)
        ensures
            meta.notes@.len() == 0,
            meta.pinned@.len() == 0,
            meta.tag_configs@.len() == 0,
    {
        Meta { notes: Table::new(), pinned: Vec::new(), tag_configs: Table::new() }
    }
}

/// The pinned list after `path` was pinned at `position`: unchanged where
/// the path is pinned already.
pub open spec fn pinned_with(pinned: Seq<Seq<char>>, path: Seq<char>, position: int) -> Seq<
    Seq<char>,
> {
    if pinned.contains(path) {
        pinned
    } else {
        pinned.insert(position, path)
    }
}

/// The pinned list without any occurrence of `path`.
pub open spec fn pinned_without(pinned: Seq<Seq<char>>, path: Seq<char>) -> Seq<Seq<char>>
    decreases pinned.len(),
{
    if pinned.len() == 0 {
        pinned
    } else if pinned.last() != path {
        pinned_without(pinned.drop_last(), path).push(pinned.last())
    } else {
        pinned_without(pinned.drop_last(), path)
    }
}

/// The pinned list in which `new_path` has taken the place of the first
/// `current`, and `current` occurs no more.
pub open spec fn pinned_renamed(pinned: Seq<Seq<char>>, current: Seq<char>, new_path: Seq<char>) -> Seq<
    Seq<char>,
> {
    if pinned.contains(current) {
        pinned_without(pinned, current).insert(first_index_of(pinned, current), new_path)
    } else {
        pinned
    }
}

/// The notes after a fresh load: one entry for each note file of the
/// listing, in the order of the listing, with what was kept about the note
/// before, or with fresh metadata for a note that is new.
pub open spec fn synced(notes: Seq<(Seq<char>, NoteMeta)>, listing: Seq<Seq<char>>) -> Seq<
    (Seq<char>, NoteMeta),
>
    decreases listing.len(),
{
    if listing.len() == 0 {
        Seq::empty()
    } else {
        let before = synced(notes, listing.drop_last());
        let path = listing.last();
        if has_suffix(path, extension()) {
            with_entry(
                before,
                path,
                match value_of(notes, path) {
                    Some(kept) => kept,
                    None => NoteMeta::fresh(),
                },
            )
        } else {
            before
        }
    }
}

/// The notes after the note under `current` has moved to `new_path`.
pub open spec fn notes_renamed(
    notes: Seq<(Seq<char>, NoteMeta)>,
    current: Seq<char>,
    new_path: Seq<char>,
) -> Seq<(Seq<char>, NoteMeta)> {
    match value_of(notes, current) {
        Some(kept) => without_key(with_entry(notes, new_path, kept), current),
        None => notes,
    }
}

impl Meta {
    /// Whether `path` is pinned.
    pub fn is_pinned(&self, path: &str) -> (b: bool)
        ensures
            b == texts(self.pinned@).contains(path@),
    {
        position_of(&self.pinned, path).is_some()
    }

    /// Pins `path` at `position`. A path that is pinned already stays where
    /// it is. Returns whether the list has changed: only then is the index
    /// to be stored. The test and the insertion are one step.
    pub fn add_pinned(&mut self, path: String, position: usize) -> (changed: bool)
        requires
            !texts(old(self).pinned@).contains(path@) ==> position <= old(self).pinned@.len(),
        ensures
            changed == !texts(old(self).pinned@).contains(path@),
            texts(final(self).pinned@) == pinned_with(
                texts(old(self).pinned@),
                path@,
                position as int,
            ),
            final(self).notes == old(self).notes,
            final(self).tag_configs == old(self).tag_configs,
    {
        if self.is_pinned(path.as_str()) {
            false
        } else {
            self.pinned.insert(position, path);
            assert(texts(self.pinned@) =~= texts(old(self).pinned@).insert(position as int, path@));
            true
        }
    }

    /// Pins `path` at `position` as `add_pinned` does, where the position
    /// lies within the list or the path is pinned already; else `None`, and
    /// nothing has changed.
    pub fn try_add_pinned(&mut self, path: String, position: usize) -> (r: Option<bool>)
        ensures
            r is Some <==> texts(old(self).pinned@).contains(path@) || position <= old(
                self,
            ).pinned@.len(),
            match r {
                Some(changed) => {
                    &&& changed == !texts(old(self).pinned@).contains(path@)
                    &&& texts(final(self).pinned@) == pinned_with(
                        texts(old(self).pinned@),
                        path@,
                        position as int,
                    )
                },
                None => final(self).pinned == old(self).pinned,
            },
            final(self).notes == old(self).notes,
            final(self).tag_configs == old(self).tag_configs,
    {
        if self.is_pinned(path.as_str()) || position <= self.pinned.len() {
            Some(self.add_pinned(path, position))
        } else {
            None
        }
    }

    /// Unpins `path`.
    pub fn remove_pinned(&mut self, path: &str)
        ensures
            texts(final(self).pinned@) == pinned_without(texts(old(self).pinned@), path@),
            final(self).notes == old(self).notes,
            final(self).tag_configs == old(self).tag_configs,
    {
        let wanted = path.to_owned();
        let mut kept: Vec<String> = Vec::new();
        let mut i: usize = 0;
        while i < self.pinned.len()
            invariant
                i <= self.pinned@.len(),
                wanted@ == path@,
                self.pinned == old(self).pinned,
                self.notes == old(self).notes,
                self.tag_configs == old(self).tag_configs,
                texts(kept@) == pinned_without(texts(self.pinned@).take(i as int), path@),
            decreases self.pinned@.len() - i,
        {
            let ghost before = texts(kept@);
            let ghost next = texts(self.pinned@).take(i + 1);
            assert(next.drop_last() =~= texts(self.pinned@).take(i as int));
            assert(next.last() == self.pinned@[i as int]@);
            if self.pinned[i] != wanted {
                kept.push(self.pinned[i].clone());
                assert(texts(kept@) =~= before.push(self.pinned@[i as int]@));
            }
            i += 1;
        }
        assert(texts(self.pinned@).take(self.pinned@.len() as int) =~= texts(self.pinned@));
        self.pinned = kept;
    }

    /// Brings the notes in line with the listing of the note folder: the
    /// entries of files that are gone are dropped, and a file that is new
    /// gets fresh metadata. Pinned list and tag configurations stay.
    pub fn sync(&mut self, listing: &Vec<String>)
        ensures
            final(self).notes@ == synced(old(self).notes@, texts(listing@)),
            final(self).pinned == old(self).pinned,
            final(self).tag_configs == old(self).tag_configs,
    {
        proof {
            reveal_strlit(".md");
            assert(".md"@ =~= extension());
        }
        let mut fresh: Table<NoteMeta> = Table::new();
        let mut i: usize = 0;
        assert(texts(listing@).take(0) =~= Seq::empty());
        while i < listing.len()
            invariant
                i <= listing@.len(),
                ".md"@ == extension(),
                self.notes == old(self).notes,
                self.pinned == old(self).pinned,
                self.tag_configs == old(self).tag_configs,
                fresh@ == synced(self.notes@, texts(listing@).take(i as int)),
            decreases listing@.len() - i,
        {
            assert(texts(listing@).take(i + 1).drop_last() =~= texts(listing@).take(i as int));
            assert(texts(listing@).take(i + 1).last() == listing@[i as int]@);
            let path = &listing[i];
            if ends_with(path.as_str(), ".md") {
                let kept = match self.notes.get(path.as_str()) {
                    Some(kept) => *kept,
                    None => NoteMeta::default(),
                };
                fresh.insert(path.clone(), kept);
            }
            i += 1;
        }
        assert(texts(listing@).take(listing@.len() as int) =~= texts(listing@));
        self.notes = fresh;
    }

    /// What is kept about the note at `path`.
    pub fn read_note_meta(&self, path: &str) -> (r: Option<NoteMeta>)
        ensures
            r == value_of(self.notes@, path@),
    {
        match self.notes.get(path) {
            Some(kept) => Some(*kept),
            None => None,
        }
    }

    /// Keeps `note_meta` about the note at `path`.
    pub fn write_note_meta(&mut self, path: &str, note_meta: NoteMeta)
        ensures
            final(self).notes@ == with_entry(old(self).notes@, path@, note_meta),
            final(self).pinned == old(self).pinned,
            final(self).tag_configs == old(self).tag_configs,
    {
        self.notes.insert(path.to_owned(), note_meta);
    }

    /// Forgets the note at `path`: its entry and its pins.
    pub fn delete_note(&mut self, path: &str)
        ensures
            final(self).notes@ == without_key(old(self).notes@, path@),
            texts(final(self).pinned@) == pinned_without(texts(old(self).pinned@), path@),
            final(self).tag_configs == old(self).tag_configs,
    {
        self.notes.remove(path);
        self.remove_pinned(path);
    }

    /// Moves what is kept about the note at `current` to `new_path`, and lets
    /// the new path take the place of the old one in the pinned list. Nothing
    /// changes where the index has no note at `current`.
    pub fn rename_note(&mut self, current: &str, new_path: &str)
        ensures
            final(self).notes@ == notes_renamed(old(self).notes@, current@, new_path@),
            texts(final(self).pinned@) == if has_key(old(self).notes@, current@) {
                pinned_renamed(texts(old(self).pinned@), current@, new_path@)
            } else {
                texts(old(self).pinned@)
            },
            final(self).tag_configs == old(self).tag_configs,
    {
        match self.read_note_meta(current) {
            Some(kept) => {
                let pinned_at = position_of(&self.pinned, current);
                self.write_note_meta(new_path, kept);
                self.delete_note(current);
                proof {
                    lemma_pinned_without(texts(old(self).pinned@), current@);
                }
                match pinned_at {
                    Some(index) => {
                        self.pinned.insert(index, new_path.to_owned());
                        assert(texts(self.pinned@) =~= pinned_without(
                            texts(old(self).pinned@),
                            current@,
                        ).insert(index as int, new_path@));
                    },
                    None => {},
                }
            },
            None => {},
        }
    }

    /// The notes as `(path, title)`, in the order of the index.
    pub fn note_paths(&self) -> (out: Vec<(String, String)>)
        ensures
            out@.len() == self.notes@.len(),
            forall|i: int|
                0 <= i < out@.len() ==> (#[trigger] out@[i]).0@ == self.notes@[i].0 && out@[i].1@
                    == title_of(self.notes@[i].0),
    {
        let mut out: Vec<(String, String)> = Vec::new();
        let mut i: usize = 0;
        while i < self.notes.len()
            invariant
                i <= self.notes@.len(),
                out@.len() == i,
                forall|j: int|
                    0 <= j < i ==> (#[trigger] out@[j]).0@ == self.notes@[j].0 && out@[j].1@
                        == title_of(self.notes@[j].0),
            decreases self.notes@.len() - i,
        {
            let path = self.notes.key_at(i);
            let title = path_to_title(path.as_str());
            out.push((path.clone(), title));
            i += 1;
        }
        out
    }
}

/// The index document with the tag index derived from it.
pub struct MetaHolder {
    meta: Meta,
    tags: Vec<TagNode>,
}

impl MetaHolder {
    /// The index document.
    pub closed spec fn index(&self) -> Meta {
        self.meta
    }

    /// The tag index.
    pub closed spec fn tag_forest(&self) -> Seq<TagTree> {
        forest(self.tags@)
    }

    /// The tag index is the one of the notes of the index document.
    pub open spec fn wf(&self) -> bool {
        self.tag_forest() == forest_of(keys_of(self.index().notes@))
    }

    /// Holds `meta` and derives its tag index.
    pub fn new(meta: Meta, patterns: &Patterns) -> (holder: Self)
        ensures
            holder.wf(),
            holder.index() == meta,
    {
        let tags = tags_from_meta(&meta, patterns);
        MetaHolder { meta, tags }
    }

    /// The holder that an access starts from when the store was asked: the
    /// index that the store held, or the default index where it held none,
    /// brought in line with the listing of the note folder. The default
    /// index is to be written to the store.
    pub fn load(found: Option<Meta>, listing: &Vec<String>, patterns: &Patterns) -> (r: Fresh<
        MetaHolder,
    >)
        ensures
            r.document.wf(),
            r.persist == found is None,
            match found {
                Some(meta) => {
                    &&& r.document.index().notes@ == synced(meta.notes@, texts(listing@))
                    &&& r.document.index().pinned == meta.pinned
                    &&& r.document.index().tag_configs == meta.tag_configs
                },
                None => {
                    &&& r.document.index().notes@ == synced(Seq::empty(), texts(listing@))
                    &&& r.document.index().pinned@.len() == 0
                    &&& r.document.index().tag_configs@.len() == 0
                },
            },
    {
        let persist = found.is_none();
        let mut meta = match found {
            Some(meta) => meta,
            None => Meta::default(),
        };
        assert(found is None ==> meta.notes@ =~= Seq::empty());
        meta.sync(listing);
        Fresh { document: MetaHolder::new(meta, patterns), persist }
    }

    /// The index document.
    pub fn meta(&self) -> (meta: &Meta)
        ensures
            *meta == self.index(),
    {
        &self.meta
    }

    /// The tag index.
    pub fn tags(&self) -> (tags: &[TagNode])
        ensures
            forest(tags@) == self.tag_forest(),
    {
        self.tags.as_slice()
    }

    /// Replaces the index document and derives the tag index anew.
    pub fn update_meta(&mut self, meta: Meta, patterns: &Patterns)
        ensures
            final(self).wf(),
            final(self).index() == meta,
    {
        self.tags = tags_from_meta(&meta, patterns);
        self.meta = meta;
    }

    /// Pins `path` at `position` and returns whether the list has changed;
    /// see `Meta::add_pinned`.
    pub fn add_pinned(&mut self, path: String, position: usize) -> (changed: bool)
        requires
            !texts(old(self).index().pinned@).contains(path@) ==> position <= old(
                self,
            ).index().pinned@.len(),
        ensures
            changed == !texts(old(self).index().pinned@).contains(path@),
            old(self).wf() ==> final(self).wf(),
            final(self).tag_forest() == old(self).tag_forest(),
            texts(final(self).index().pinned@) == pinned_with(
                texts(old(self).index().pinned@),
                path@,
                position as int,
            ),
            final(self).index().notes == old(self).index().notes,
            final(self).index().tag_configs == old(self).index().tag_configs,
    {
        self.meta.add_pinned(path, position)
    }

    /// Pins `path` at `position` where that can be done, and says in
    /// `None` where not; see `Meta::try_add_pinned`.
    pub fn try_add_pinned(&mut self, path: String, position: usize) -> (r: Option<bool>)
        ensures
            r is Some <==> texts(old(self).index().pinned@).contains(path@) || position <= old(
                self,
            ).index().pinned@.len(),
            match r {
                Some(changed) => {
                    &&& changed == !texts(old(self).index().pinned@).contains(path@)
                    &&& texts(final(self).index().pinned@) == pinned_with(
                        texts(old(self).index().pinned@),
                        path@,
                        position as int,
                    )
                },
                None => final(self).index().pinned == old(self).index().pinned,
            },
            old(self).wf() ==> final(self).wf(),
            final(self).tag_forest() == old(self).tag_forest(),
            final(self).index().notes == old(self).index().notes,
            final(self).index().tag_configs == old(self).index().tag_configs,
    {
        self.meta.try_add_pinned(path, position)
    }

    /// Unpins `path`; see `Meta::remove_pinned`.
    pub fn remove_pinned(&mut self, path: &str)
        ensures
            old(self).wf() ==> final(self).wf(),
            final(self).tag_forest() == old(self).tag_forest(),
            texts(final(self).index().pinned@) == pinned_without(
                texts(old(self).index().pinned@),
                path@,
            ),
            final(self).index().notes == old(self).index().notes,
            final(self).index().tag_configs == old(self).index().tag_configs,
    {
        self.meta.remove_pinned(path);
    }

    /// Keeps `note_meta` about the note at `path` and derives the tag index
    /// anew; see `Meta::write_note_meta`.
    pub fn write_note_meta(&mut self, path: &str, note_meta: NoteMeta, patterns: &Patterns)
        ensures
            final(self).wf(),
            final(self).index().notes@ == with_entry(old(self).index().notes@, path@, note_meta),
            final(self).index().pinned == old(self).index().pinned,
            final(self).index().tag_configs == old(self).index().tag_configs,
    {
        self.meta.write_note_meta(path, note_meta);
        self.tags = tags_from_meta(&self.meta, patterns);
    }

    /// Forgets the note at `path` and derives the tag index anew; see
    /// `Meta::delete_note`.
    pub fn delete_note(&mut self, path: &str, patterns: &Patterns)
        ensures
            final(self).wf(),
            final(self).index().notes@ == without_key(old(self).index().notes@, path@),
            texts(final(self).index().pinned@) == pinned_without(
                texts(old(self).index().pinned@),
                path@,
            ),
            final(self).index().tag_configs == old(self).index().tag_configs,
    {
        self.meta.delete_note(path);
        self.tags = tags_from_meta(&self.meta, patterns);
    }

    /// Moves the note at `current` to `new_path` and derives the tag index
    /// anew; see `Meta::rename_note`.
    pub fn rename_note(&mut self, current: &str, new_path: &str, patterns: &Patterns)
        ensures
            final(self).wf(),
            final(self).index().notes@ == notes_renamed(
                old(self).index().notes@,
                current@,
                new_path@,
            ),
            texts(final(self).index().pinned@) == if has_key(old(self).index().notes@, current@) {
                pinned_renamed(texts(old(self).index().pinned@), current@, new_path@)
            } else {
                texts(old(self).index().pinned@)
            },
            final(self).index().tag_configs == old(self).index().tag_configs,
    {
        self.meta.rename_note(current, new_path);
        self.tags = tags_from_meta(&self.meta, patterns);
    }
}

/// Removing `path` from the pinned list leaves no occurrence of it, keeps
/// what stood before its first occurrence, and never makes the list longer.
pub proof fn lemma_pinned_without(pinned: Seq<Seq<char>>, path: Seq<char>)
    ensures
        !pinned_without(pinned, path).contains(path),
        pinned_without(pinned, path).len() <= pinned.len(),
        pinned.contains(path) ==> first_index_of(pinned, path) <= pinned_without(pinned, path).len(),
        forall|i: int|
            0 <= i < first_index_of(pinned, path) && i < pinned_without(pinned, path).len()
                ==> pinned_without(pinned, path)[i] == pinned[i],
        !pinned.contains(path) ==> pinned_without(pinned, path) == pinned,
    decreases pinned.len(),
{
    lemma_first_index_of(pinned, path);
    if pinned.len() > 0 {
        let front = pinned.drop_last();
        lemma_pinned_without(front, path);
        lemma_first_index_of(front, path);
        let out = pinned_without(pinned, path);
        if front.contains(path) {
            let k = choose|k: int| 0 <= k < front.len() && front[k] == path;
            assert(pinned[k] == path);
            assert(first_index_of(front, path) == first_index_of(pinned, path)) by {
                let a = first_index_of(front, path);
                let b = first_index_of(pinned, path);
                assert(pinned[a] == front[a]);
                if b < a {
                    assert(front[b] == pinned[b]);
                }
            }
        } else {
            assert(pinned_without(front, path) == front);
            assert forall|k: int| 0 <= k < front.len() implies pinned[k] != path by {
                assert(front[k] == pinned[k]);
            }
            if pinned.last() == path {
                assert(first_index_of(pinned, path) == pinned.len() - 1);
            } else {
                assert(!pinned.contains(path));
                assert(out =~= pinned);
            }
        }
        if out.contains(path) {
            let k = choose|k: int| 0 <= k < out.len() && out[k] == path;
            if k < pinned_without(front, path).len() {
                assert(pinned_without(front, path)[k] == path);
            }
        }
        assert forall|i: int|
            0 <= i < first_index_of(pinned, path) && i < out.len() implies out[i] == pinned[i] by {
            if i < pinned_without(front, path).len() {
                if front.contains(path) {
                    assert(pinned_without(front, path)[i] == front[i]);
                } else {
                    assert(pinned_without(front, path)[i] == front[i]);
                }
            }
        }
    }
}

/// Pinning a path twice leaves the list as the first pinning left it, with
/// the path once, where the first pinning put it.
pub proof fn law_pin_twice(pinned: Seq<Seq<char>>, path: Seq<char>, first: int, second: int)
    requires
        !pinned.contains(path),
        0 <= first <= pinned.len(),
    ensures
        pinned_with(pinned_with(pinned, path, first), path, second) == pinned_with(
            pinned,
            path,
            first,
        ),
        pinned_with(pinned, path, first).len() == pinned.len() + 1,
        pinned_with(pinned, path, first)[first] == path,
        forall|i: int|
            0 <= i < pinned.len() + 1 && i != first ==> pinned_with(pinned, path, first)[i] != path,
{
    let once = pinned_with(pinned, path, first);
    pinned.insert_ensures(first, path);
    assert(once[first] == path);
    assert(once.contains(path));
    assert forall|i: int| 0 <= i < pinned.len() + 1 && i != first implies once[i] != path by {
        if i < first {
            assert(once[i] == pinned[i]);
        } else {
            assert(once[i] == pinned[i - 1]);
        }
    }
}

/// Pinning a path that is pinned already changes nothing, wherever it is
/// asked to go.
pub proof fn law_pin_is_idempotent(pinned: Seq<Seq<char>>, path: Seq<char>, first: int, second: int)
    requires
        0 <= first <= pinned.len(),
    ensures
        pinned_with(pinned_with(pinned, path, first), path, second) == pinned_with(
            pinned,
            path,
            first,
        ),
        pinned.contains(path) ==> pinned_with(pinned, path, first) == pinned,
{
    if !pinned.contains(path) {
        law_pin_twice(pinned, path, first, second);
    }
}

/// What a fresh load keeps of the notes: a path has an entry exactly where
/// the listing holds it as a note file, and the entry holds what was kept
/// before, or fresh metadata.
pub proof fn law_sync(notes: Seq<(Seq<char>, NoteMeta)>, listing: Seq<Seq<char>>, path: Seq<char>)
    ensures
        distinct_keys(synced(notes, listing)),
        has_key(synced(notes, listing), path) <==> listing.contains(path) && has_suffix(
            path,
            extension(),
        ),
        has_key(synced(notes, listing), path) ==> value_of(synced(notes, listing), path) == Some(
            match value_of(notes, path) {
                Some(kept) => kept,
                None => NoteMeta::fresh(),
            },
        ),
    decreases listing.len(),
{
    if listing.len() > 0 {
        let front = listing.drop_last();
        let last = listing.last();
        law_sync(notes, front, path);
        law_sync(notes, front, last);
        let before = synced(notes, front);
        let after = synced(notes, listing);
        let kept = match value_of(notes, last) {
            Some(kept) => kept,
            None => NoteMeta::fresh(),
        };
        if front.contains(path) {
            let k = choose|k: int| 0 <= k < front.len() && front[k] == path;
            assert(listing[k] == path);
        }
        if listing.contains(path) && path != last {
            let k = choose|k: int| 0 <= k < listing.len() && listing[k] == path;
            assert(front[k] == path);
        }
        assert(listing[listing.len() - 1] == last);
        if has_suffix(last, extension()) {
            crate::table::lemma_with_entry(before, last, kept, path);
        }
    }
}

} // verus!
