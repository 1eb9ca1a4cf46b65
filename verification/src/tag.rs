//! The tag index: the forest of the tags that note titles carry.
//!
//! A word of a title that begins with a dash is a tag. Two or more dashes
//! inside it separate the levels of the tag, from the root down. The index is
//! derived from the note paths alone and never stored.

use vstd::prelude::*;
use crate::meta::Meta;
use crate::pattern::{regex_pieces, Patterns, TAG_SEPARATOR};
use crate::table::keys_of;
use crate::text::{
    append_chars, chars_of, first_index_of, lemma_first_index_of, rows, split_words, string_of,
    texts, trim_start, trimmed_start, words,
};
use crate::title::{path_to_title, title_of};

verus! {

/// A tag with the tags below it, as texts.
pub struct TagTree {
    pub name: Seq<char>,
    pub children: Seq<TagTree>,
}

/// A tag with the tags below it.
pub struct TagNode {
    pub name: String,
    pub children: Vec<TagNode>,
}

impl TagNode {
    /// The tag and all below it, as texts.
    pub open spec fn tree(&self) -> TagTree
        decreases self,
    {
        TagTree {
            name: self.name@,
            children: Seq::new(
                self.children@.len(),
                |i: int|
                    if 0 <= i < self.children@.len() {
                        self.children@[i].tree()
                    } else {
                        arbitrary()
                    },
            ),
        }
    }

    /// A tag with nothing below it.
    pub fn new(name: String) -> (node: Self)
        ensures
            node.tree() == (TagTree { name: name@, children: Seq::empty() }),
    {
        let node = TagNode { name, children: Vec::new() };
        assert(node.tree().children =~= Seq::empty());
        node
    }
}

/// The trees of a sequence of tags.
pub open spec fn forest(nodes: Seq<TagNode>) -> Seq<TagTree> {
    Seq::new(nodes.len(), |i: int| nodes[i].tree())
}

/// The names of the roots of a forest.
pub open spec fn root_names(trees: Seq<TagTree>) -> Seq<Seq<char>> {
    trees.map_values(|t: TagTree| t.name)
}

/// The forest `trees` after the chain of levels `parts` was inserted: at
/// each level the first tag of that name is reused, and a tag that is not
/// there yet comes last.
pub open spec fn inserted(trees: Seq<TagTree>, parts: Seq<Seq<char>>) -> Seq<TagTree>
    decreases parts.len(),
{
    if parts.len() == 0 {
        trees
    } else {
        let i = first_index_of(root_names(trees), parts[0]);
        if 0 <= i < trees.len() {
            trees.update(
                i,
                TagTree {
                    name: trees[i].name,
                    children: inserted(trees[i].children, parts.skip(1)),
                },
            )
        } else {
            trees.push(
                TagTree { name: parts[0], children: inserted(Seq::empty(), parts.skip(1)) },
            )
        }
    }
}

/// The index of the first tag of `nodes` with the name `name`.
fn find_node(nodes: &Vec<TagNode>, name: &String) -> (r: Option<usize>)
    ensures
        match r {
            Some(i) => i == first_index_of(root_names(forest(nodes@)), name@) && i < nodes@.len(),
            None => first_index_of(root_names(forest(nodes@)), name@) >= nodes@.len(),
        },
{
    let ghost names = root_names(forest(nodes@));
    let mut i: usize = 0;
    while i < nodes.len()
        invariant
            i <= nodes@.len(),
            names == root_names(forest(nodes@)),
            forall|j: int| 0 <= j < i ==> names[j] != name@,
        decreases nodes@.len() - i,
    {
        if nodes[i].name == *name {
            proof {
                lemma_first_index_of(names, name@);
                assert(names[i as int] == name@);
            }
            return Some(i);
        }
        i += 1;
    }
    proof {
        lemma_first_index_of(names, name@);
    }
    None
}

/// Inserts the levels `tag_parts[from..]` into `nodes`.
fn insert_from(tag_parts: &[String], from: usize, nodes: &mut Vec<TagNode>)
    requires
        from <= tag_parts@.len(),
    ensures
        forest(final(nodes)@) == inserted(forest(old(nodes)@), texts(tag_parts@).skip(from as int)),
    decreases tag_parts@.len() - from,
{
    if from < tag_parts.len() {
        let ghost parts = texts(tag_parts@).skip(from as int);
        let ghost before = forest(nodes@);
        assert(parts[0] == tag_parts@[from as int]@);
        assert(parts.skip(1) =~= texts(tag_parts@).skip(from + 1));
        let head = &tag_parts[from];
        let index = match find_node(nodes, head) {
            Some(index) => index,
            None => {
                nodes.push(TagNode::new(head.clone()));
                nodes.len() - 1
            },
        };
        let mut node = nodes.remove(index);
        let ghost below = forest(node.children@);
        assert(below =~= node.tree().children);
        insert_from(tag_parts, from + 1, &mut node.children);
        assert(node.tree().children =~= forest(node.children@));
        nodes.insert(index, node);
        assert(forest(nodes@) =~= inserted(before, parts));
    }
}

/// Inserts the chain of levels `tag_parts` into the forest `nodes`.
pub fn insert_tag_parts(tag_parts: &[String], nodes: &mut Vec<TagNode>)
    ensures
        forest(final(nodes)@) == inserted(forest(old(nodes)@), texts(tag_parts@)),
{
    assert(texts(tag_parts@).skip(0) =~= texts(tag_parts@));
    insert_from(tag_parts, 0, nodes);
}

/// A word is a tag where it begins with a dash.
pub open spec fn is_tag(word: Seq<char>) -> bool {
    word.len() > 0 && word[0] == '-'
}

/// The levels of a tag: the word without its leading dashes, split at every
/// run of two or more dashes.
pub open spec fn levels(word: Seq<char>) -> Seq<Seq<char>> {
    regex_pieces(TAG_SEPARATOR@, trimmed_start(word, '-'))
}

/// The levels of each tag among `ws`, in order.
pub open spec fn units_of(ws: Seq<Seq<char>>) -> Seq<Seq<Seq<char>>>
    decreases ws.len(),
{
    if ws.len() == 0 {
        Seq::empty()
    } else if is_tag(ws.last()) {
        units_of(ws.drop_last()).push(levels(ws.last()))
    } else {
        units_of(ws.drop_last())
    }
}

/// The levels of each tag in the title of the note at `path`, in order.
pub open spec fn tag_units(path: Seq<char>) -> Seq<Seq<Seq<char>>> {
    units_of(words(title_of(path)))
}

/// The views of a sequence of chains of levels.
pub open spec fn chains(v: Seq<Vec<String>>) -> Seq<Seq<Seq<char>>> {
    v.map_values(|unit: Vec<String>| texts(unit@))
}

/// The forest `trees` after each chain of `units` was inserted, in order.
pub open spec fn with_units(trees: Seq<TagTree>, units: Seq<Seq<Seq<char>>>) -> Seq<TagTree>
    decreases units.len(),
{
    if units.len() == 0 {
        trees
    } else {
        inserted(with_units(trees, units.drop_last()), units.last())
    }
}

/// The tag index of the notes at `paths`.
pub open spec fn forest_of(paths: Seq<Seq<char>>) -> Seq<TagTree>
    decreases paths.len(),
{
    if paths.len() == 0 {
        Seq::empty()
    } else {
        with_units(forest_of(paths.drop_last()), tag_units(paths.last()))
    }
}

/// The levels of each tag in the title of the note at `path`.
pub fn extract_tag_units(path: &str, patterns: &Patterns) -> (units: Vec<Vec<String>>)
    ensures
        chains(units@) == tag_units(path@),
{
    let title = path_to_title(path);
    let chars = chars_of(title.as_str());
    let ws = split_words(chars.as_slice());
    let mut units: Vec<Vec<String>> = Vec::new();
    let mut i: usize = 0;
    while i < ws.len()
        invariant
            i <= ws@.len(),
            chains(units@) == units_of(rows(ws@).take(i as int)),
        decreases ws@.len() - i,
    {
        let ghost before = chains(units@);
        assert(rows(ws@).take(i + 1).drop_last() =~= rows(ws@).take(i as int));
        assert(rows(ws@).take(i + 1).last() == ws@[i as int]@);
        let word = &ws[i];
        if word.len() > 0 && word[0] == '-' {
            let unit = trim_start(word.as_slice(), '-');
            let text = string_of(unit.as_slice());
            let pieces = patterns.split_levels(text.as_str());
            units.push(pieces);
            assert(chains(units@) =~= before.push(levels(ws@[i as int]@)));
        }
        i += 1;
    }
    assert(rows(ws@).take(ws@.len() as int) =~= rows(ws@));
    units
}

/// Inserts into `nodes` the tags of the note at `path`.
fn insert_path(path: &str, nodes: &mut Vec<TagNode>, patterns: &Patterns)
    ensures
        forest(final(nodes)@) == with_units(forest(old(nodes)@), tag_units(path@)),
{
    let units = extract_tag_units(path, patterns);
    let mut i: usize = 0;
    while i < units.len()
        invariant
            i <= units@.len(),
            chains(units@) == tag_units(path@),
            forest(nodes@) == with_units(forest(old(nodes)@), chains(units@).take(i as int)),
        decreases units@.len() - i,
    {
        assert(chains(units@).take(i + 1).drop_last() =~= chains(units@).take(i as int));
        assert(chains(units@).take(i + 1).last() == texts(units@[i as int]@));
        insert_tag_parts(units[i].as_slice(), nodes);
        i += 1;
    }
    assert(chains(units@).take(units@.len() as int) =~= chains(units@));
}

/// The tag index of the notes at `paths`.
pub fn tags_from_paths(paths: &Vec<String>, patterns: &Patterns) -> (nodes: Vec<TagNode>)
    ensures
        forest(nodes@) == forest_of(texts(paths@)),
{
    let mut nodes: Vec<TagNode> = Vec::new();
    assert(forest(nodes@) =~= Seq::empty());
    let mut i: usize = 0;
    while i < paths.len()
        invariant
            i <= paths@.len(),
            forest(nodes@) == forest_of(texts(paths@).take(i as int)),
        decreases paths@.len() - i,
    {
        assert(texts(paths@).take(i + 1).drop_last() =~= texts(paths@).take(i as int));
        assert(texts(paths@).take(i + 1).last() == paths@[i as int]@);
        insert_path(paths[i].as_str(), &mut nodes, patterns);
        i += 1;
    }
    assert(texts(paths@).take(paths@.len() as int) =~= texts(paths@));
    nodes
}

/// The suggestions that one tag stands for: the tag itself behind a dash,
/// and behind it, again after a dash, each suggestion of the tags below.
pub open spec fn tags_of_tree(tree: TagTree) -> Seq<Seq<char>>
    decreases tree,
{
    seq![seq!['-'] + tree.name] + tags_of_forest(tree.children).map_values(
        |below: Seq<char>| seq!['-'] + tree.name + seq!['-'] + below,
    )
}

/// The suggestions of a forest: those of its trees, one tree after the other.
pub open spec fn tags_of_forest(trees: Seq<TagTree>) -> Seq<Seq<char>>
    decreases trees,
{
    if trees.len() == 0 {
        Seq::empty()
    } else {
        tags_of_forest(trees.drop_last()) + tags_of_tree(trees.last())
    }
}

/// The suggestions of one tag.
fn tags_of_node(node: &TagNode) -> (out: Vec<String>)
    ensures
        texts(out@) == tags_of_tree(node.tree()),
    decreases node,
{
    let below = construct_all_tags(node.children.as_slice());
    assert(forest(node.children@) =~= node.tree().children);
    let mut dashed: Vec<char> = Vec::new();
    dashed.push('-');
    let name = chars_of(node.name.as_str());
    append_chars(&mut dashed, name.as_slice());
    assert(dashed@ =~= seq!['-'] + node.name@);
    let mut out: Vec<String> = Vec::new();
    out.push(string_of(dashed.as_slice()));
    dashed.push('-');
    assert(dashed@ =~= seq!['-'] + node.name@ + seq!['-']);
    let ghost first = seq![seq!['-'] + node.name@];
    let ghost rest = texts(below@).map_values(
        |below: Seq<char>| seq!['-'] + node.name@ + seq!['-'] + below,
    );
    assert(texts(out@) =~= first);
    let mut i: usize = 0;
    while i < below.len()
        invariant
            i <= below@.len(),
            dashed@ == seq!['-'] + node.name@ + seq!['-'],
            rest == texts(below@).map_values(
                |below: Seq<char>| seq!['-'] + node.name@ + seq!['-'] + below,
            ),
            texts(out@) == first + rest.take(i as int),
        decreases below@.len() - i,
    {
        let ghost before = texts(out@);
        let mut line = dashed.clone();
        let tail = chars_of(below[i].as_str());
        append_chars(&mut line, tail.as_slice());
        out.push(string_of(line.as_slice()));
        assert(texts(out@) =~= before.push(rest[i as int]));
        assert(first + rest.take(i + 1) =~= (first + rest.take(i as int)).push(rest[i as int]));
        i += 1;
    }
    assert(rest.take(below@.len() as int) =~= rest);
    out
}

/// The tag suggestions of a forest, depth first: each tag behind a dash, and
/// behind it, again after a dash, each suggestion of the tags below it.
pub fn construct_all_tags(nodes: &[TagNode]) -> (out: Vec<String>)
    ensures
        texts(out@) == tags_of_forest(forest(nodes@)),
    decreases nodes@,
{
    let mut out: Vec<String> = Vec::new();
    let mut i: usize = 0;
    assert(forest(nodes@).take(0) =~= Seq::empty());
    while i < nodes.len()
        invariant
            i <= nodes@.len(),
            texts(out@) == tags_of_forest(forest(nodes@).take(i as int)),
        decreases nodes@.len() - i,
    {
        let ghost before = texts(out@);
        assert(forest(nodes@).take(i + 1).drop_last() =~= forest(nodes@).take(i as int));
        assert(forest(nodes@).take(i + 1).last() == nodes@[i as int].tree());
        let mut more = tags_of_node(&nodes[i]);
        let ghost added = texts(more@);
        out.append(&mut more);
        assert(texts(out@) =~= before + added);
        i += 1;
    }
    assert(forest(nodes@).take(nodes@.len() as int) =~= forest(nodes@));
    out
}

/// The tag index of the notes of the index document.
pub fn tags_from_meta(meta: &Meta, patterns: &Patterns) -> (nodes: Vec<TagNode>)
    ensures
        forest(nodes@) == forest_of(keys_of(meta.notes@)),
{
    let paths = meta.notes.keys();
    assert(texts(paths@) =~= keys_of(meta.notes@));
    tags_from_paths(&paths, patterns)
}

// ---------------------------------------------------------------------------
// What the index holds, whatever the order of the notes
// ---------------------------------------------------------------------------

/// The chain of names `chain` leads from a root of `trees` down to a tag.
pub open spec fn reaches(trees: Seq<TagTree>, chain: Seq<Seq<char>>) -> bool
    decreases chain.len(),
{
    if chain.len() == 0 {
        false
    } else {
        exists|i: int|
            0 <= i < trees.len() && (#[trigger] trees[i]).name == chain[0] && (chain.len() == 1
                || reaches(trees[i].children, chain.skip(1)))
    }
}

/// `chain` is the beginning of `parts`, and not empty.
pub open spec fn begins(chain: Seq<Seq<char>>, parts: Seq<Seq<char>>) -> bool {
    chain.len() > 0 && chain.is_prefix_of(parts)
}

/// `chain` is the beginning of one of the chains `units`.
pub open spec fn covered(units: Seq<Seq<Seq<char>>>, chain: Seq<Seq<char>>) -> bool {
    exists|k: int| 0 <= k < units.len() && begins(chain, #[trigger] units[k])
}

/// `chain` is the beginning of a tag of one of the notes at `paths`.
pub open spec fn tagged(paths: Seq<Seq<char>>, chain: Seq<Seq<char>>) -> bool {
    exists|p: int| 0 <= p < paths.len() && covered(tag_units(#[trigger] paths[p]), chain)
}

/// No two tags that stand side by side have the same name, at any level.
pub open spec fn well_named(trees: Seq<TagTree>) -> bool
    decreases trees,
{
    &&& root_names(trees).no_duplicates()
    &&& forall|i: int|
        0 <= i < trees.len() ==> well_named(#[trigger] trees[i].children)
}

/// A chain begins `parts` exactly where its first name is the first of
/// `parts` and the rest of it is empty or begins the rest of `parts`.
proof fn lemma_begins(chain: Seq<Seq<char>>, parts: Seq<Seq<char>>)
    requires
        chain.len() > 0,
    ensures
        begins(chain, parts) <==> parts.len() > 0 && chain[0] == parts[0] && (chain.len() == 1
            || begins(chain.skip(1), parts.skip(1))),
{
    if begins(chain, parts) {
        assert(parts.subrange(0, chain.len() as int)[0] == chain[0]);
        if chain.len() > 1 {
            assert(chain.skip(1) =~= parts.skip(1).subrange(0, chain.len() - 1)) by {
                assert forall|k: int| 0 <= k < chain.len() - 1 implies chain.skip(1)[k]
                    == parts.skip(1).subrange(0, chain.len() - 1)[k] by {
                    assert(parts.subrange(0, chain.len() as int)[k + 1] == chain[k + 1]);
                }
            }
        }
    }
    if parts.len() > 0 && chain[0] == parts[0] && (chain.len() == 1 || begins(
        chain.skip(1),
        parts.skip(1),
    )) {
        assert(chain =~= parts.subrange(0, chain.len() as int)) by {
            assert forall|k: int| 0 <= k < chain.len() implies chain[k] == parts.subrange(
                0,
                chain.len() as int,
            )[k] by {
                if k > 0 {
                    assert(chain.skip(1)[k - 1] == chain[k]);
                    assert(parts.skip(1).subrange(0, chain.len() - 1)[k - 1] == parts[k]);
                }
            }
        }
    }
}

/// After a chain of levels was inserted, the forest holds what it held, and
/// every beginning of the chain.
pub proof fn lemma_inserted_reaches(
    trees: Seq<TagTree>,
    parts: Seq<Seq<char>>,
    chain: Seq<Seq<char>>,
)
    ensures
        reaches(inserted(trees, parts), chain) <==> reaches(trees, chain) || begins(chain, parts),
    decreases parts.len(),
{
    if chain.len() == 0 || parts.len() == 0 {
        return ;
    }
    lemma_begins(chain, parts);
    let rest = parts.skip(1);
    let tail = chain.skip(1);
    let names = root_names(trees);
    let i = first_index_of(names, parts[0]);
    lemma_first_index_of(names, parts[0]);
    let after = inserted(trees, parts);
    if 0 <= i < trees.len() {
        assert(names[i] == trees[i].name);
        let below = trees[i].children;
        lemma_inserted_reaches(below, rest, tail);
        assert(after[i].name == trees[i].name);
        assert(after[i].children == inserted(below, rest));
        if reaches(after, chain) {
            let j = choose|j: int|
                0 <= j < after.len() && (#[trigger] after[j]).name == chain[0] && (chain.len() == 1
                    || reaches(after[j].children, tail));
            if j != i {
                assert(after[j] == trees[j]);
                assert(trees[j].name == chain[0]);
            } else {
                assert(trees[i].name == chain[0]);
            }
        }
        if reaches(trees, chain) {
            let j = choose|j: int|
                0 <= j < trees.len() && (#[trigger] trees[j]).name == chain[0] && (chain.len() == 1
                    || reaches(trees[j].children, tail));
            if j != i {
                assert(after[j] == trees[j]);
                assert(after[j].name == chain[0]);
            } else {
                assert(after[i].name == chain[0]);
            }
        }
        if begins(chain, parts) {
            assert(after[i].name == chain[0]);
        }
    } else {
        assert(i == trees.len());
        lemma_inserted_reaches(Seq::empty(), rest, tail);
        let last = trees.len() as int;
        assert(after[last].name == parts[0]);
        assert(after[last].children == inserted(Seq::empty(), rest));
        assert(!reaches(Seq::empty(), tail));
        if reaches(after, chain) {
            let j = choose|j: int|
                0 <= j < after.len() && (#[trigger] after[j]).name == chain[0] && (chain.len() == 1
                    || reaches(after[j].children, tail));
            if j != last {
                assert(after[j] == trees[j]);
                assert(trees[j].name == chain[0]);
            }
        }
        if reaches(trees, chain) {
            let j = choose|j: int|
                0 <= j < trees.len() && (#[trigger] trees[j]).name == chain[0] && (chain.len() == 1
                    || reaches(trees[j].children, tail));
            assert(after[j] == trees[j]);
            assert(after[j].name == chain[0]);
        }
        if begins(chain, parts) {
            assert(after[last].name == chain[0]);
        }
    }
}

/// After chains of levels were inserted, the forest holds what it held, and
/// every beginning of each chain.
pub proof fn lemma_with_units_reaches(
    trees: Seq<TagTree>,
    units: Seq<Seq<Seq<char>>>,
    chain: Seq<Seq<char>>,
)
    ensures
        reaches(with_units(trees, units), chain) <==> reaches(trees, chain) || covered(units, chain),
    decreases units.len(),
{
    if units.len() > 0 {
        let front = units.drop_last();
        lemma_with_units_reaches(trees, front, chain);
        lemma_inserted_reaches(with_units(trees, front), units.last(), chain);
        if covered(front, chain) {
            let k = choose|k: int| 0 <= k < front.len() && begins(chain, #[trigger] front[k]);
            assert(units[k] == front[k]);
        }
        if covered(units, chain) {
            let k = choose|k: int| 0 <= k < units.len() && begins(chain, #[trigger] units[k]);
            if k < front.len() {
                assert(front[k] == units[k]);
            }
        }
        if begins(chain, units.last()) {
            assert(units[units.len() - 1] == units.last());
        }
    }
}

/// The tag index holds a chain of names exactly where the chain is the
/// beginning of a tag of one of the notes.
pub proof fn lemma_forest_reaches(paths: Seq<Seq<char>>, chain: Seq<Seq<char>>)
    ensures
        reaches(forest_of(paths), chain) <==> tagged(paths, chain),
    decreases paths.len(),
{
    if paths.len() > 0 {
        let front = paths.drop_last();
        lemma_forest_reaches(front, chain);
        lemma_with_units_reaches(forest_of(front), tag_units(paths.last()), chain);
        if tagged(front, chain) {
            let p = choose|p: int|
                0 <= p < front.len() && covered(tag_units(#[trigger] front[p]), chain);
            assert(paths[p] == front[p]);
        }
        if tagged(paths, chain) {
            let p = choose|p: int|
                0 <= p < paths.len() && covered(tag_units(#[trigger] paths[p]), chain);
            if p < front.len() {
                assert(front[p] == paths[p]);
            }
        }
        if covered(tag_units(paths.last()), chain) {
            assert(paths[paths.len() - 1] == paths.last());
        }
    }
}

/// The tag index does not depend on the order of the notes: two lists of the
/// same note paths give forests that hold the same tags at the same places.
pub proof fn law_tag_index_ignores_order(
    paths: Seq<Seq<char>>,
    other: Seq<Seq<char>>,
    chain: Seq<Seq<char>>,
)
    requires
        forall|path: Seq<char>| paths.contains(path) <==> other.contains(path),
    ensures
        reaches(forest_of(paths), chain) <==> reaches(forest_of(other), chain),
{
    lemma_forest_reaches(paths, chain);
    lemma_forest_reaches(other, chain);
    if tagged(paths, chain) {
        let p = choose|p: int|
            0 <= p < paths.len() && covered(tag_units(#[trigger] paths[p]), chain);
        assert(paths.contains(paths[p]));
        let q = choose|q: int| 0 <= q < other.len() && other[q] == paths[p];
        assert(covered(tag_units(other[q]), chain));
    }
    if tagged(other, chain) {
        let q = choose|q: int|
            0 <= q < other.len() && covered(tag_units(#[trigger] other[q]), chain);
        assert(other.contains(other[q]));
        let p = choose|p: int| 0 <= p < paths.len() && paths[p] == other[q];
        assert(covered(tag_units(paths[p]), chain));
    }
}

/// Inserting a chain of levels keeps the names of side-by-side tags
/// distinct.
pub proof fn lemma_inserted_well_named(trees: Seq<TagTree>, parts: Seq<Seq<char>>)
    requires
        well_named(trees),
    ensures
        well_named(inserted(trees, parts)),
    decreases parts.len(),
{
    if parts.len() > 0 {
        let rest = parts.skip(1);
        let names = root_names(trees);
        let i = first_index_of(names, parts[0]);
        lemma_first_index_of(names, parts[0]);
        let after = inserted(trees, parts);
        if 0 <= i < trees.len() {
            assert(well_named(trees[i].children));
            lemma_inserted_well_named(trees[i].children, rest);
            assert(root_names(after) =~= names);
            assert forall|j: int| 0 <= j < after.len() implies well_named(
                #[trigger] after[j].children,
            ) by {
                if j != i {
                    assert(after[j] == trees[j]);
                    assert(well_named(trees[j].children));
                }
            }
        } else {
            assert(well_named(Seq::<TagTree>::empty())) by {
                assert(root_names(Seq::<TagTree>::empty()) =~= Seq::<Seq<char>>::empty());
            }
            lemma_inserted_well_named(Seq::empty(), rest);
            assert(root_names(after) =~= names.push(parts[0]));
            assert(!names.contains(parts[0]));
            assert forall|a: int, b: int|
                0 <= a < root_names(after).len() && 0 <= b < root_names(after).len() && a
                    != b implies root_names(after)[a] != root_names(after)[b] by {
                if a < names.len() && b < names.len() {
                    assert(names[a] != names[b]);
                } else if a < names.len() {
                    assert(names.contains(names[a]));
                } else {
                    assert(names.contains(names[b]));
                }
            }
            assert forall|j: int| 0 <= j < after.len() implies well_named(
                #[trigger] after[j].children,
            ) by {
                if j < trees.len() {
                    assert(after[j] == trees[j]);
                    assert(well_named(trees[j].children));
                }
            }
        }
    }
}

/// In the tag index no two tags that stand side by side have the same name.
pub proof fn law_tag_index_is_well_named(paths: Seq<Seq<char>>)
    ensures
        well_named(forest_of(paths)),
    decreases paths.len(),
{
    if paths.len() == 0 {
        assert(root_names(Seq::<TagTree>::empty()) =~= Seq::<Seq<char>>::empty());
    } else {
        law_tag_index_is_well_named(paths.drop_last());
        lemma_with_units_well_named(forest_of(paths.drop_last()), tag_units(paths.last()));
    }
}

/// Inserting chains of levels keeps the names of side-by-side tags
/// distinct.
proof fn lemma_with_units_well_named(trees: Seq<TagTree>, units: Seq<Seq<Seq<char>>>)
    requires
        well_named(trees),
    ensures
        well_named(with_units(trees, units)),
    decreases units.len(),
{
    if units.len() > 0 {
        lemma_with_units_well_named(trees, units.drop_last());
        lemma_inserted_well_named(with_units(trees, units.drop_last()), units.last());
    }
}

/// The suggestion that a chain of names is written as: each name behind a
/// dash, and a dash between the levels.
pub open spec fn line_of(chain: Seq<Seq<char>>) -> Seq<char>
    decreases chain.len(),
{
    if chain.len() == 0 {
        Seq::empty()
    } else if chain.len() == 1 {
        seq!['-'] + chain[0]
    } else {
        seq!['-'] + chain[0] + seq!['-'] + line_of(chain.skip(1))
    }
}

/// The chain of names `chain` leads from the tag `tree` down to a tag.
pub open spec fn descends(tree: TagTree, chain: Seq<Seq<char>>) -> bool {
    chain.len() > 0 && tree.name == chain[0] && (chain.len() == 1 || reaches(
        tree.children,
        chain.skip(1),
    ))
}

/// `line` is the suggestion of a chain of names that the forest holds.
pub open spec fn spells(trees: Seq<TagTree>, line: Seq<char>) -> bool {
    exists|chain: Seq<Seq<char>>| reaches(trees, chain) && #[trigger] line_of(chain) == line
}

/// `line` is the suggestion of a chain of names that starts at `tree`.
pub open spec fn tree_spells(tree: TagTree, line: Seq<char>) -> bool {
    exists|chain: Seq<Seq<char>>| descends(tree, chain) && #[trigger] line_of(chain) == line
}

/// The suggestions of a tag are the suggestions of the chains that start at
/// it.
pub proof fn lemma_tags_of_tree(tree: TagTree, line: Seq<char>)
    ensures
        tags_of_tree(tree).contains(line) <==> tree_spells(tree, line),
    decreases tree,
{
    let own = seq!['-'] + tree.name;
    let below = tags_of_forest(tree.children);
    let lower = below.map_values(|below: Seq<char>| seq!['-'] + tree.name + seq!['-'] + below);
    let all = tags_of_tree(tree);
    assert(all == seq![own] + lower);
    if all.contains(line) {
        let k = choose|k: int| 0 <= k < all.len() && all[k] == line;
        if k == 0 {
            let chain = seq![tree.name];
            assert(descends(tree, chain));
            assert(line_of(chain) == line);
        } else {
            assert(all[k] == lower[k - 1]);
            let under = below[k - 1];
            assert(below.contains(under));
            lemma_tags_of_forest(tree.children, under);
            let tail = choose|tail: Seq<Seq<char>>|
                reaches(tree.children, tail) && #[trigger] line_of(tail) == under;
            let chain = seq![tree.name] + tail;
            assert(chain.skip(1) =~= tail);
            assert(chain[0] == tree.name);
            assert(descends(tree, chain));
            assert(line_of(chain) == line);
        }
    }
    if tree_spells(tree, line) {
        let chain = choose|chain: Seq<Seq<char>>|
            descends(tree, chain) && #[trigger] line_of(chain) == line;
        if chain.len() == 1 {
            assert(all[0] == line);
        } else {
            let tail = chain.skip(1);
            let under = line_of(tail);
            lemma_tags_of_forest(tree.children, under);
            assert(spells(tree.children, under));
            let k = choose|k: int| 0 <= k < below.len() && below[k] == under;
            assert(lower[k] == line);
            assert(all[k + 1] == line);
        }
    }
}

/// The suggestions of a forest are the suggestions of the chains of names
/// that it holds.
pub proof fn lemma_tags_of_forest(trees: Seq<TagTree>, line: Seq<char>)
    ensures
        tags_of_forest(trees).contains(line) <==> spells(trees, line),
    decreases trees,
{
    if trees.len() == 0 {
        if spells(trees, line) {
            let chain = choose|chain: Seq<Seq<char>>|
                reaches(trees, chain) && #[trigger] line_of(chain) == line;
            assert(false);
        }
    } else {
        let front = trees.drop_last();
        let last = trees.last();
        let head = tags_of_forest(front);
        let tail = tags_of_tree(last);
        let all = tags_of_forest(trees);
        assert(all == head + tail);
        assert(trees =~= front.push(last));
        lemma_tags_of_forest(front, line);
        lemma_tags_of_tree(last, line);
        if all.contains(line) {
            let k = choose|k: int| 0 <= k < all.len() && all[k] == line;
            if k < head.len() {
                assert(head[k] == line);
                let chain = choose|chain: Seq<Seq<char>>|
                    reaches(front, chain) && #[trigger] line_of(chain) == line;
                lemma_reaches_grows(front, last, chain);
            } else {
                assert(tail[k - head.len()] == line);
                let chain = choose|chain: Seq<Seq<char>>|
                    descends(last, chain) && #[trigger] line_of(chain) == line;
                lemma_reaches_grows(front, last, chain);
            }
        }
        if spells(trees, line) {
            let chain = choose|chain: Seq<Seq<char>>|
                reaches(trees, chain) && #[trigger] line_of(chain) == line;
            lemma_reaches_grows(front, last, chain);
            if reaches(front, chain) {
                assert(spells(front, line));
                let k = choose|k: int| 0 <= k < head.len() && head[k] == line;
                assert(all[k] == line);
            } else {
                assert(tree_spells(last, line));
                let k = choose|k: int| 0 <= k < tail.len() && tail[k] == line;
                assert(all[head.len() + k] == line);
            }
        }
    }
}

/// A forest with one more tree holds what the forest held and what starts
/// at the tree.
proof fn lemma_reaches_grows(front: Seq<TagTree>, last: TagTree, chain: Seq<Seq<char>>)
    ensures
        reaches(front.push(last), chain) <==> reaches(front, chain) || descends(last, chain),
        front.push(last).drop_last() == front,
{
    let trees = front.push(last);
    assert(trees.drop_last() =~= front);
    if chain.len() > 0 {
        if reaches(trees, chain) {
            let i = choose|i: int|
                0 <= i < trees.len() && (#[trigger] trees[i]).name == chain[0] && (chain.len() == 1
                    || reaches(trees[i].children, chain.skip(1)));
            if i < front.len() {
                assert(front[i] == trees[i]);
                assert(front[i].name == chain[0]);
            }
        }
        if reaches(front, chain) {
            let i = choose|i: int|
                0 <= i < front.len() && (#[trigger] front[i]).name == chain[0] && (chain.len() == 1
                    || reaches(front[i].children, chain.skip(1)));
            assert(trees[i] == front[i]);
            assert(trees[i].name == chain[0]);
        }
        if descends(last, chain) {
            assert(trees[front.len() as int] == last);
            assert(trees[front.len() as int].name == chain[0]);
        }
    }
}

/// The suggestions do not depend on the order of the notes: two lists of
/// the same note paths give the same suggestions, in whatever order.
pub proof fn law_suggestions_ignore_order(
    paths: Seq<Seq<char>>,
    other: Seq<Seq<char>>,
    line: Seq<char>,
)
    requires
        forall|path: Seq<char>| paths.contains(path) <==> other.contains(path),
    ensures
        tags_of_forest(forest_of(paths)).contains(line) <==> tags_of_forest(
            forest_of(other),
        ).contains(line),
{
    lemma_tags_of_forest(forest_of(paths), line);
    lemma_tags_of_forest(forest_of(other), line);
    if spells(forest_of(paths), line) {
        let chain = choose|chain: Seq<Seq<char>>|
            reaches(forest_of(paths), chain) && #[trigger] line_of(chain) == line;
        law_tag_index_ignores_order(paths, other, chain);
    }
    if spells(forest_of(other), line) {
        let chain = choose|chain: Seq<Seq<char>>|
            reaches(forest_of(other), chain) && #[trigger] line_of(chain) == line;
        law_tag_index_ignores_order(paths, other, chain);
    }
}

} // verus!
