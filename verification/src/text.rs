//! Character-level text operations with exact contracts.
//!
//! Every function here works on the sequence of `char`s of a string (its
//! view), so that contracts elsewhere in the crate can speak of titles, paths
//! and queries as `Seq<char>`.

use vstd::prelude::*;

verus! {

/// `String::push` of the standard library: the string afterwards is the
/// string before with `ch` appended. Taken from its documentation, not proved.
pub assume_specification[ String::push ](s: &mut String, ch: char)
    ensures
        final(s)@ == old(s)@.push(ch),
;

// ---------------------------------------------------------------------------
// What the functions compute
// ---------------------------------------------------------------------------

/// The characters with the Unicode `White_Space` property.
pub open spec fn is_space(c: char) -> bool {
    let n = c as u32;
    (0x09 <= n <= 0x0D) || n == 0x20 || n == 0x85 || n == 0xA0 || n == 0x1680 || (0x2000 <= n
        <= 0x200A) || n == 0x2028 || n == 0x2029 || n == 0x202F || n == 0x205F || n == 0x3000
}

/// `pat` occurs in `s` starting at index `i`.
pub open spec fn occurs_at(s: Seq<char>, pat: Seq<char>, i: int) -> bool {
    &&& 0 <= i
    &&& i + pat.len() <= s.len()
    &&& s.subrange(i, i + pat.len()) == pat
}

/// `pat` occurs somewhere in `s`.
pub open spec fn contains_text(s: Seq<char>, pat: Seq<char>) -> bool {
    exists|i: int| occurs_at(s, pat, i)
}

/// `s` begins with `pat`.
pub open spec fn has_prefix(s: Seq<char>, pat: Seq<char>) -> bool {
    occurs_at(s, pat, 0)
}

/// `s` ends with `pat`.
pub open spec fn has_suffix(s: Seq<char>, pat: Seq<char>) -> bool {
    occurs_at(s, pat, s.len() - pat.len())
}

/// `s` from index `i` on, with every occurrence of `from` replaced by `to`,
/// scanning left to right and never overlapping two occurrences.
pub open spec fn replaced_from(s: Seq<char>, from: Seq<char>, to: Seq<char>, i: int) -> Seq<char>
    decreases s.len() - i,
{
    if i < 0 || i >= s.len() || from.len() == 0 {
        Seq::empty()
    } else if occurs_at(s, from, i) {
        to + replaced_from(s, from, to, i + from.len())
    } else {
        seq![s[i]] + replaced_from(s, from, to, i + 1)
    }
}

/// `s` with every occurrence of the text `from` replaced by `to`. The empty
/// text occurs nowhere: with it `s` stays as it is.
pub open spec fn replaced(s: Seq<char>, from: Seq<char>, to: Seq<char>) -> Seq<char> {
    if from.len() == 0 {
        s
    } else {
        replaced_from(s, from, to, 0)
    }
}

/// `s` from index `i` on, with every occurrence of `first` or of `second`
/// replaced by `to`, scanning left to right: what was put in is not looked
/// at again, and where both occur at one index `first` goes.
pub open spec fn replaced_either_from(
    s: Seq<char>,
    first: Seq<char>,
    second: Seq<char>,
    to: Seq<char>,
    i: int,
) -> Seq<char>
    decreases s.len() - i,
{
    if i < 0 || i >= s.len() || first.len() == 0 || second.len() == 0 {
        Seq::empty()
    } else if occurs_at(s, first, i) {
        to + replaced_either_from(s, first, second, to, i + first.len())
    } else if occurs_at(s, second, i) {
        to + replaced_either_from(s, first, second, to, i + second.len())
    } else {
        seq![s[i]] + replaced_either_from(s, first, second, to, i + 1)
    }
}

/// `s` with every occurrence of `first` or of `second` replaced by `to`. An
/// empty text occurs nowhere.
pub open spec fn replaced_either(s: Seq<char>, first: Seq<char>, second: Seq<char>, to: Seq<char>) -> Seq<
    char,
> {
    if first.len() == 0 {
        replaced(s, second, to)
    } else if second.len() == 0 {
        replaced(s, first, to)
    } else {
        replaced_either_from(s, first, second, to, 0)
    }
}

/// `s` with every character equal to `from` turned into `to`.
pub open spec fn replaced_char(s: Seq<char>, from: char, to: char) -> Seq<char> {
    Seq::new(
        s.len(),
        |i: int|
            if s[i] == from {
                to
            } else {
                s[i]
            },
    )
}

/// The first index at or after `i` that holds white space, or the length.
pub open spec fn word_end(s: Seq<char>, i: int) -> int
    decreases s.len() - i,
{
    if i < 0 || i >= s.len() || is_space(s[i]) {
        i
    } else {
        word_end(s, i + 1)
    }
}

/// The maximal runs of characters without white space in `s`, from index `i`
/// on, in order.
pub open spec fn words_from(s: Seq<char>, i: int) -> Seq<Seq<char>>
    decreases s.len() - i,
{
    if i < 0 || i >= s.len() {
        Seq::empty()
    } else if is_space(s[i]) {
        words_from(s, i + 1)
    } else {
        proof {
            lemma_word_end(s, i);
        }
        seq![s.subrange(i, word_end(s, i))] + words_from(s, word_end(s, i))
    }
}

/// The maximal runs of characters without white space in `s`, in order.
pub open spec fn words(s: Seq<char>) -> Seq<Seq<char>> {
    words_from(s, 0)
}

/// The number of leading characters of `s` equal to `c`.
pub open spec fn leading(s: Seq<char>, c: char) -> int
    decreases s.len(),
{
    if s.len() > 0 && s[0] == c {
        1 + leading(s.skip(1), c)
    } else {
        0
    }
}

/// The number of trailing characters of `s` equal to `c`.
pub open spec fn trailing(s: Seq<char>, c: char) -> int
    decreases s.len(),
{
    if s.len() > 0 && s.last() == c {
        1 + trailing(s.drop_last(), c)
    } else {
        0
    }
}

/// `s` without its leading run of `c`.
pub open spec fn trimmed_start(s: Seq<char>, c: char) -> Seq<char> {
    s.skip(leading(s, c))
}

/// `s` without its leading and its trailing run of `c`.
pub open spec fn trimmed(s: Seq<char>, c: char) -> Seq<char> {
    let t = trimmed_start(s, c);
    t.take(t.len() - trailing(t, c))
}

/// The texts of `s` without repetition: each text once, where it first
/// stands.
pub open spec fn distinct_of(s: Seq<Seq<char>>) -> Seq<Seq<char>>
    decreases s.len(),
{
    if s.len() == 0 {
        s
    } else if distinct_of(s.drop_last()).contains(s.last()) {
        distinct_of(s.drop_last())
    } else {
        distinct_of(s.drop_last()).push(s.last())
    }
}

/// The index of the first occurrence of `c` in `s`, or the length of `s`.
pub open spec fn first_index_of<A>(s: Seq<A>, c: A) -> int
    decreases s.len(),
{
    if s.len() == 0 || s[0] == c {
        0
    } else {
        1 + first_index_of(s.skip(1), c)
    }
}

// ---------------------------------------------------------------------------
// Conversions
// ---------------------------------------------------------------------------

/// The views of a sequence of strings.
pub open spec fn texts(v: Seq<String>) -> Seq<Seq<char>> {
    v.map_values(|s: String| s@)
}

/// The view of a string that may be missing.
pub open spec fn text_of(s: Option<String>) -> Option<Seq<char>> {
    match s {
        Some(s) => Some(s@),
        None => None,
    }
}

/// The views of a sequence of character vectors.
pub open spec fn rows(v: Seq<Vec<char>>) -> Seq<Seq<char>> {
    v.map_values(|s: Vec<char>| s@)
}

/// The characters of `s`, in order.
pub fn chars_of(s: &str) -> (v: Vec<char>)
    ensures
        v@ == s@,
{
    let mut v: Vec<char> = Vec::new();
    for c in it: s.chars()
        invariant
            v@ == it.seq().take(it.index()),
            it.seq() == s@,
    {
        v.push(c);
    }
    v
}

/// The string made of the characters of `v`, in order.
pub fn string_of(v: &[char]) -> (s: String)
    ensures
        s@ == v@,
{
    let mut s = String::new();
    let mut i: usize = 0;
    while i < v.len()
        invariant
            i <= v.len(),
            s@ == v@.take(i as int),
        decreases v.len() - i,
    {
        s.push(v[i]);
        i += 1;
    }
    s
}

/// A copy of `s[from..to]`.
pub fn copy_range(s: &[char], from: usize, to: usize) -> (v: Vec<char>)
    requires
        from <= to <= s.len(),
    ensures
        v@ == s@.subrange(from as int, to as int),
{
    let mut v: Vec<char> = Vec::new();
    let mut i: usize = from;
    while i < to
        invariant
            from <= i <= to <= s.len(),
            v@ == s@.subrange(from as int, i as int),
        decreases to - i,
    {
        v.push(s[i]);
        i += 1;
    }
    v
}

/// Appends the characters of `tail` to `out`.
pub fn append_chars(out: &mut Vec<char>, tail: &[char])
    ensures
        final(out)@ == old(out)@ + tail@,
{
    let mut i: usize = 0;
    while i < tail.len()
        invariant
            i <= tail.len(),
            out@ == old(out)@ + tail@.take(i as int),
        decreases tail.len() - i,
    {
        out.push(tail[i]);
        i += 1;
    }
}

// ---------------------------------------------------------------------------
// Questions about characters and texts
// ---------------------------------------------------------------------------

/// Whether `c` is white space.
pub fn is_whitespace(c: char) -> (b: bool)
    ensures
        b == is_space(c),
{
    let n: u32 = c as u32;
    (0x09 <= n && n <= 0x0D) || n == 0x20 || n == 0x85 || n == 0xA0 || n == 0x1680 || (0x2000
        <= n && n <= 0x200A) || n == 0x2028 || n == 0x2029 || n == 0x202F || n == 0x205F || n
        == 0x3000
}

/// Whether `pat` occurs in `s` at index `i`.
pub fn matches_at(s: &[char], pat: &[char], i: usize) -> (b: bool)
    ensures
        b == occurs_at(s@, pat@, i as int),
{
    if i > s.len() || pat.len() > s.len() - i {
        return false;
    }
    let mut k: usize = 0;
    while k < pat.len()
        invariant
            i + pat.len() <= s.len(),
            k <= pat.len(),
            forall|j: int| 0 <= j < k ==> s@[i + j] == pat@[j],
        decreases pat.len() - k,
    {
        if s[i + k] != pat[k] {
            assert(s@.subrange(i as int, i + pat.len())[k as int] == s@[i + k]);
            return false;
        }
        k += 1;
    }
    assert(s@.subrange(i as int, i + pat.len()) =~= pat@);
    true
}

/// The index of the first occurrence of `pat` in `s`.
pub fn find_text(s: &[char], pat: &[char]) -> (r: Option<usize>)
    ensures
        match r {
            Some(i) => occurs_at(s@, pat@, i as int) && forall|j: int|
                0 <= j < i ==> !occurs_at(s@, pat@, j),
            None => !contains_text(s@, pat@),
        },
{
    let mut i: usize = 0;
    while i < s.len()
        invariant
            i <= s.len(),
            forall|j: int| 0 <= j < i ==> !occurs_at(s@, pat@, j),
        decreases s.len() - i,
    {
        if matches_at(s, pat, i) {
            return Some(i);
        }
        i += 1;
    }
    if matches_at(s, pat, i) {
        return Some(i);
    }
    None
}

/// The index of the first `c` in `s`, or the length of `s` where there is none.
pub fn index_of(s: &[char], c: char) -> (i: usize)
    ensures
        i == first_index_of(s@, c),
{
    let mut i: usize = 0;
    assert(s@.skip(0) =~= s@);
    while i < s.len() && s[i] != c
        invariant
            i <= s.len(),
            first_index_of(s@, c) == i + first_index_of(s@.skip(i as int), c),
        decreases s.len() - i,
    {
        assert(s@.skip(i as int).skip(1) =~= s@.skip(i + 1));
        i += 1;
    }
    i
}

/// The number of leading characters of `s` equal to `c`.
pub fn count_leading(s: &[char], c: char) -> (n: usize)
    ensures
        n == leading(s@, c),
{
    let mut i: usize = 0;
    assert(s@.skip(0) =~= s@);
    while i < s.len() && s[i] == c
        invariant
            i <= s.len(),
            leading(s@, c) == i + leading(s@.skip(i as int), c),
        decreases s.len() - i,
    {
        assert(s@.skip(i as int).skip(1) =~= s@.skip(i + 1));
        i += 1;
    }
    i
}

/// The number of trailing characters of `s[..end]` equal to `c`.
pub fn count_trailing(s: &[char], end: usize, c: char) -> (n: usize)
    requires
        end <= s.len(),
    ensures
        n == trailing(s@.take(end as int), c),
{
    let mut i: usize = end;
    while i > 0 && s[i - 1] == c
        invariant
            i <= end <= s.len(),
            trailing(s@.take(end as int), c) == (end - i) + trailing(s@.take(i as int), c),
        decreases i,
    {
        assert(s@.take(i as int).drop_last() =~= s@.take(i - 1));
        i -= 1;
    }
    end - i
}

// ---------------------------------------------------------------------------
// Replacing and splitting
// ---------------------------------------------------------------------------

/// `s` with every occurrence of the text `from` replaced by `to`.
pub fn replace_text(s: &[char], from: &[char], to: &[char]) -> (out: Vec<char>)
    ensures
        out@ == replaced(s@, from@, to@),
{
    if from.len() == 0 {
        let out = copy_range(s, 0, s.len());
        assert(out@ =~= s@);
        return out;
    }
    let mut out: Vec<char> = Vec::new();
    let mut i: usize = 0;
    while i < s.len()
        invariant
            i <= s.len(),
            from@.len() > 0,
            out@ + replaced_from(s@, from@, to@, i as int) == replaced_from(s@, from@, to@, 0),
        decreases s.len() - i,
    {
        let ghost before = out@;
        if matches_at(s, from, i) {
            append_chars(&mut out, to);
            assert(out@ + replaced_from(s@, from@, to@, i + from@.len()) =~= before
                + replaced_from(s@, from@, to@, i as int));
            i += from.len();
        } else {
            out.push(s[i]);
            assert(out@ + replaced_from(s@, from@, to@, i + 1) =~= before + replaced_from(
                s@,
                from@,
                to@,
                i as int,
            ));
            i += 1;
        }
    }
    assert(out@ + Seq::<char>::empty() =~= out@);
    out
}

/// `s` with every occurrence of `first` or of `second` replaced by `to`.
pub fn replace_either_text(s: &[char], first: &[char], second: &[char], to: &[char]) -> (out: Vec<
    char,
>)
    ensures
        out@ == replaced_either(s@, first@, second@, to@),
{
    if first.len() == 0 {
        return replace_text(s, second, to);
    }
    if second.len() == 0 {
        return replace_text(s, first, to);
    }
    let mut out: Vec<char> = Vec::new();
    let mut i: usize = 0;
    while i < s.len()
        invariant
            i <= s.len(),
            first@.len() > 0,
            second@.len() > 0,
            out@ + replaced_either_from(s@, first@, second@, to@, i as int) == replaced_either_from(
                s@,
                first@,
                second@,
                to@,
                0,
            ),
        decreases s.len() - i,
    {
        let ghost before = out@;
        if matches_at(s, first, i) {
            append_chars(&mut out, to);
            assert(out@ + replaced_either_from(s@, first@, second@, to@, i + first@.len())
                =~= before + replaced_either_from(s@, first@, second@, to@, i as int));
            i += first.len();
        } else if matches_at(s, second, i) {
            append_chars(&mut out, to);
            assert(out@ + replaced_either_from(s@, first@, second@, to@, i + second@.len())
                =~= before + replaced_either_from(s@, first@, second@, to@, i as int));
            i += second.len();
        } else {
            out.push(s[i]);
            assert(out@ + replaced_either_from(s@, first@, second@, to@, i + 1) =~= before
                + replaced_either_from(s@, first@, second@, to@, i as int));
            i += 1;
        }
    }
    assert(out@ + Seq::<char>::empty() =~= out@);
    out
}

/// `s` with every character `from` turned into `to`.
pub fn replace_char(s: &[char], from: char, to: char) -> (out: Vec<char>)
    ensures
        out@ == replaced_char(s@, from, to),
{
    let mut out: Vec<char> = Vec::new();
    let mut i: usize = 0;
    while i < s.len()
        invariant
            i <= s.len(),
            out@ == replaced_char(s@, from, to).take(i as int),
        decreases s.len() - i,
    {
        let c = s[i];
        out.push(if c == from { to } else { c });
        assert(out@ =~= replaced_char(s@, from, to).take(i + 1));
        i += 1;
    }
    assert(out@ =~= replaced_char(s@, from, to));
    out
}

/// The maximal runs of characters without white space in `s`, in order.
pub fn split_words(s: &[char]) -> (out: Vec<Vec<char>>)
    ensures
        rows(out@) == words(s@),
{
    let mut out: Vec<Vec<char>> = Vec::new();
    let mut i: usize = 0;
    while i < s.len()
        invariant
            i <= s.len(),
            rows(out@) + words_from(s@, i as int) == words_from(s@, 0),
        decreases s.len() - i,
    {
        if is_whitespace(s[i]) {
            i += 1;
        } else {
            let start = i;
            let ghost before = out@;
            while i < s.len() && !is_whitespace(s[i])
                invariant
                    start <= i <= s.len(),
                    word_end(s@, start as int) == word_end(s@, i as int),
                decreases s.len() - i,
            {
                i += 1;
            }
            proof {
                lemma_word_end(s@, start as int);
            }
            let word = copy_range(s, start, i);
            out.push(word);
            assert(rows(out@) =~= rows(before).push(word@));
            assert(rows(out@) + words_from(s@, i as int) =~= rows(before) + words_from(
                s@,
                start as int,
            ));
        }
    }
    assert(rows(out@) + Seq::<Seq<char>>::empty() =~= rows(out@));
    out
}

/// `s` without its leading run of `c`.
pub fn trim_start(s: &[char], c: char) -> (out: Vec<char>)
    ensures
        out@ == trimmed_start(s@, c),
{
    let n = count_leading(s, c);
    proof {
        lemma_leading(s@, c);
    }
    let out = copy_range(s, n, s.len());
    assert(out@ =~= s@.skip(n as int));
    out
}

/// `s` without its leading and its trailing run of `c`.
pub fn trim(s: &[char], c: char) -> (out: Vec<char>)
    ensures
        out@ == trimmed(s@, c),
{
    let t = trim_start(s, c);
    let n = count_trailing(t.as_slice(), t.len(), c);
    proof {
        assert(t@.take(t@.len() as int) =~= t@);
        lemma_trailing(t@, c);
    }
    let out = copy_range(t.as_slice(), 0, t.len() - n);
    assert(out@ =~= t@.take(t@.len() - n));
    out
}

// ---------------------------------------------------------------------------
// The same on strings
// ---------------------------------------------------------------------------

/// Whether `s` begins with `prefix`.
pub fn starts_with(s: &str, prefix: &str) -> (b: bool)
    ensures
        b == has_prefix(s@, prefix@),
{
    let text = chars_of(s);
    let pat = chars_of(prefix);
    matches_at(text.as_slice(), pat.as_slice(), 0)
}

/// Whether `s` ends with `suffix`.
pub fn ends_with(s: &str, suffix: &str) -> (b: bool)
    ensures
        b == has_suffix(s@, suffix@),
{
    let text = chars_of(s);
    let pat = chars_of(suffix);
    if pat.len() > text.len() {
        false
    } else {
        matches_at(text.as_slice(), pat.as_slice(), text.len() - pat.len())
    }
}

/// Whether `pat` occurs in `s`.
pub fn contains(s: &str, pat: &str) -> (b: bool)
    ensures
        b == contains_text(s@, pat@),
{
    let text = chars_of(s);
    let pat = chars_of(pat);
    find_text(text.as_slice(), pat.as_slice()).is_some()
}

/// `s` with every occurrence of the text `from` replaced by `to`.
pub fn replace(s: &str, from: &str, to: &str) -> (out: String)
    ensures
        out@ == replaced(s@, from@, to@),
{
    let text = chars_of(s);
    let from = chars_of(from);
    let to = chars_of(to);
    let out = replace_text(text.as_slice(), from.as_slice(), to.as_slice());
    string_of(out.as_slice())
}

/// A copy of a text that may be missing.
pub fn copy_optional(s: &Option<String>) -> (out: Option<String>)
    ensures
        text_of(out) == text_of(*s),
{
    match s {
        Some(text) => Some(text.clone()),
        None => None,
    }
}

/// A copy of `v`.
pub fn copy_texts(v: &Vec<String>) -> (out: Vec<String>)
    ensures
        texts(out@) == texts(v@),
{
    let mut out: Vec<String> = Vec::new();
    let mut i: usize = 0;
    while i < v.len()
        invariant
            i <= v@.len(),
            out@.len() == i,
            forall|j: int| 0 <= j < i ==> (#[trigger] out@[j])@ == v@[j]@,
        decreases v@.len() - i,
    {
        out.push(v[i].clone());
        i += 1;
    }
    assert(texts(out@) =~= texts(v@));
    out
}

/// The index of the first text of `v` equal to `wanted`.
pub fn position_of(v: &Vec<String>, wanted: &str) -> (r: Option<usize>)
    ensures
        match r {
            Some(i) => i == first_index_of(texts(v@), wanted@) && i < v@.len(),
            None => first_index_of(texts(v@), wanted@) == v@.len(),
        },
        r is Some <==> texts(v@).contains(wanted@),
{
    let wanted_text = wanted.to_owned();
    let mut i: usize = 0;
    while i < v.len()
        invariant
            i <= v@.len(),
            wanted_text@ == wanted@,
            forall|j: int| 0 <= j < i ==> texts(v@)[j] != wanted@,
        decreases v@.len() - i,
    {
        if v[i] == wanted_text {
            proof {
                lemma_first_index_of(texts(v@), wanted@);
                assert(texts(v@)[i as int] == wanted@);
            }
            return Some(i);
        }
        i += 1;
    }
    proof {
        lemma_first_index_of(texts(v@), wanted@);
    }
    None
}

/// `s` with every occurrence of `first` or of `second` replaced by `to`.
pub fn replace_either(s: &str, first: &str, second: &str, to: &str) -> (out: String)
    ensures
        out@ == replaced_either(s@, first@, second@, to@),
{
    let text = chars_of(s);
    let first = chars_of(first);
    let second = chars_of(second);
    let to = chars_of(to);
    let out = replace_either_text(
        text.as_slice(),
        first.as_slice(),
        second.as_slice(),
        to.as_slice(),
    );
    string_of(out.as_slice())
}

/// The texts of `v` without repetition: each text once, where it first
/// stands.
pub fn distinct(v: &Vec<String>) -> (out: Vec<String>)
    ensures
        texts(out@) == distinct_of(texts(v@)),
        texts(out@).no_duplicates(),
        forall|text: Seq<char>| texts(out@).contains(text) <==> texts(v@).contains(text),
{
    let mut out: Vec<String> = Vec::new();
    let mut i: usize = 0;
    assert(texts(v@).take(0) =~= Seq::empty());
    assert(texts(out@) =~= Seq::empty());
    while i < v.len()
        invariant
            i <= v@.len(),
            texts(out@) == distinct_of(texts(v@).take(i as int)),
        decreases v@.len() - i,
    {
        let ghost before = texts(out@);
        assert(texts(v@).take(i + 1).drop_last() =~= texts(v@).take(i as int));
        assert(texts(v@).take(i + 1).last() == v@[i as int]@);
        if position_of(&out, v[i].as_str()).is_none() {
            out.push(v[i].clone());
            assert(texts(out@) =~= before.push(v@[i as int]@));
        }
        i += 1;
    }
    assert(texts(v@).take(v@.len() as int) =~= texts(v@));
    proof {
        lemma_distinct_of(texts(v@), Seq::empty());
        assert forall|text: Seq<char>| texts(out@).contains(text) <==> texts(v@).contains(
            text,
        ) by {
            lemma_distinct_of(texts(v@), text);
        }
    }
    out
}

/// `head` followed by `tail`.
pub fn joined(head: &str, tail: &str) -> (out: String)
    ensures
        out@ == head@ + tail@,
{
    let mut chars = chars_of(head);
    let tail = chars_of(tail);
    append_chars(&mut chars, tail.as_slice());
    string_of(chars.as_slice())
}

// ---------------------------------------------------------------------------
// Lemmas
// ---------------------------------------------------------------------------

/// From an index on from which `from` occurs nowhere, replacing it changes
/// nothing.
pub proof fn lemma_replaced_from_absent(s: Seq<char>, from: Seq<char>, to: Seq<char>, i: int)
    requires
        0 <= i <= s.len(),
        from.len() > 0,
        forall|j: int| i <= j ==> !occurs_at(s, from, j),
    ensures
        replaced_from(s, from, to, i) == s.skip(i),
    decreases s.len() - i,
{
    if i < s.len() {
        lemma_replaced_from_absent(s, from, to, i + 1);
        assert(!occurs_at(s, from, i));
        assert(seq![s[i]] + s.skip(i + 1) =~= s.skip(i));
    } else {
        assert(s.skip(i) =~= Seq::<char>::empty());
    }
}

/// Replacing a text that occurs nowhere changes nothing.
pub proof fn lemma_replaced_absent(s: Seq<char>, from: Seq<char>, to: Seq<char>)
    requires
        !contains_text(s, from),
    ensures
        replaced(s, from, to) == s,
{
    if from.len() > 0 {
        lemma_replaced_from_absent(s, from, to, 0);
        assert(s.skip(0) =~= s);
    }
}

/// Where one of the two texts occurs nowhere from an index on, replacing
/// either is replacing the other.
pub proof fn lemma_replaced_either_from(
    s: Seq<char>,
    first: Seq<char>,
    second: Seq<char>,
    to: Seq<char>,
    i: int,
)
    requires
        0 <= i,
        first.len() > 0,
        second.len() > 0,
    ensures
        (forall|j: int| i <= j ==> !occurs_at(s, second, j)) ==> replaced_either_from(
            s,
            first,
            second,
            to,
            i,
        ) == replaced_from(s, first, to, i),
        (forall|j: int| i <= j ==> !occurs_at(s, first, j)) ==> replaced_either_from(
            s,
            first,
            second,
            to,
            i,
        ) == replaced_from(s, second, to, i),
    decreases s.len() - i,
{
    if i < s.len() {
        lemma_replaced_either_from(s, first, second, to, i + 1);
        if occurs_at(s, first, i) {
            lemma_replaced_either_from(s, first, second, to, i + first.len());
        }
        if occurs_at(s, second, i) {
            lemma_replaced_either_from(s, first, second, to, i + second.len());
        }
        if forall|j: int| i <= j ==> !occurs_at(s, second, j) {
            assert(!occurs_at(s, second, i));
        }
        if forall|j: int| i <= j ==> !occurs_at(s, first, j) {
            assert(!occurs_at(s, first, i));
        }
    }
}

/// Where one of the two texts occurs nowhere, replacing either is replacing
/// the other; where neither occurs, nothing changes.
pub proof fn lemma_replaced_either(s: Seq<char>, first: Seq<char>, second: Seq<char>, to: Seq<char>)
    ensures
        !contains_text(s, second) ==> replaced_either(s, first, second, to) == replaced(
            s,
            first,
            to,
        ),
        !contains_text(s, first) ==> replaced_either(s, first, second, to) == replaced(
            s,
            second,
            to,
        ),
        !contains_text(s, first) && !contains_text(s, second) ==> replaced_either(
            s,
            first,
            second,
            to,
        ) == s,
{
    if first.len() > 0 && second.len() > 0 {
        lemma_replaced_either_from(s, first, second, to, 0);
    }
    if !contains_text(s, second) {
        lemma_replaced_absent(s, second, to);
    }
    if !contains_text(s, first) {
        lemma_replaced_absent(s, first, to);
    }
    if first.len() == 0 {
        assert(occurs_at(s, first, 0)) by {
            assert(s.subrange(0, 0) =~= first);
        }
    }
    if second.len() == 0 {
        assert(occurs_at(s, second, 0)) by {
            assert(s.subrange(0, 0) =~= second);
        }
    }
}

/// `distinct_of` holds no text twice, holds `text` exactly where `s` holds
/// it, and changes nothing where `s` holds no text twice.
pub proof fn lemma_distinct_of(s: Seq<Seq<char>>, text: Seq<char>)
    ensures
        distinct_of(s).no_duplicates(),
        distinct_of(s).contains(text) <==> s.contains(text),
        s.no_duplicates() ==> distinct_of(s) == s,
    decreases s.len(),
{
    if s.len() > 0 {
        let front = s.drop_last();
        let last = s.last();
        lemma_distinct_of(front, text);
        lemma_distinct_of(front, last);
        let d = distinct_of(front);
        let out = distinct_of(s);
        assert(s[s.len() - 1] == last);
        if out.contains(text) {
            let k = choose|k: int| 0 <= k < out.len() && out[k] == text;
            if k < d.len() {
                assert(d[k] == text);
                assert(d.contains(text));
                assert(front.contains(text));
                let m = choose|m: int| 0 <= m < front.len() && front[m] == text;
                assert(s[m] == text);
            }
        }
        if s.contains(text) {
            let m = choose|m: int| 0 <= m < s.len() && s[m] == text;
            if m < front.len() {
                assert(front[m] == text);
                assert(front.contains(text));
                assert(d.contains(text));
                let k = choose|k: int| 0 <= k < d.len() && d[k] == text;
                assert(out[k] == text);
            } else if !d.contains(last) {
                assert(out[d.len() as int] == last);
            } else {
                assert(out.contains(text));
            }
        }
        if !d.contains(last) {
            assert forall|a: int, b: int| 0 <= a < out.len() && 0 <= b < out.len() && a
                != b implies out[a] != out[b] by {
                if a < d.len() && b < d.len() {
                    assert(d[a] != d[b]);
                } else if a < d.len() {
                    assert(d.contains(d[a]));
                } else {
                    assert(d.contains(d[b]));
                }
            }
        }
        if s.no_duplicates() {
            assert forall|a: int, b: int| 0 <= a < front.len() && 0 <= b < front.len() && a
                != b implies front[a] != front[b] by {
                assert(front[a] == s[a] && front[b] == s[b]);
            }
            if front.contains(last) {
                let m = choose|m: int| 0 <= m < front.len() && front[m] == last;
                assert(s[m] == s[s.len() - 1]);
            }
            assert(out =~= s);
        }
    }
}

/// `word_end` stays within the sequence, moves past a character that is no
/// white space, and crosses no white space on its way.
pub proof fn lemma_word_end(s: Seq<char>, i: int)
    requires
        0 <= i <= s.len(),
    ensures
        i <= word_end(s, i) <= s.len(),
        i < s.len() && !is_space(s[i]) ==> i < word_end(s, i),
        forall|k: int| i <= k < word_end(s, i) ==> !is_space(#[trigger] s[k]),
        word_end(s, i) < s.len() ==> is_space(s[word_end(s, i)]),
    decreases s.len() - i,
{
    if i < s.len() && !is_space(s[i]) {
        lemma_word_end(s, i + 1);
    }
}

/// The leading run of `c` is a prefix of `s`, all of `c`, and followed by
/// another character or the end.
pub proof fn lemma_leading(s: Seq<char>, c: char)
    ensures
        0 <= leading(s, c) <= s.len(),
        forall|k: int| 0 <= k < leading(s, c) ==> #[trigger] s[k] == c,
        leading(s, c) < s.len() ==> s[leading(s, c)] != c,
    decreases s.len(),
{
    if s.len() > 0 && s[0] == c {
        lemma_leading(s.skip(1), c);
        assert forall|k: int| 0 <= k < leading(s, c) implies #[trigger] s[k] == c by {
            if k > 0 {
                assert(s.skip(1)[k - 1] == s[k]);
            }
        }
    }
}

/// The trailing run of `c` is a suffix of `s`, all of `c`, and preceded by
/// another character or the start.
pub proof fn lemma_trailing(s: Seq<char>, c: char)
    ensures
        0 <= trailing(s, c) <= s.len(),
        forall|k: int| s.len() - trailing(s, c) <= k < s.len() ==> #[trigger] s[k] == c,
        trailing(s, c) < s.len() ==> s[s.len() - trailing(s, c) - 1] != c,
    decreases s.len(),
{
    if s.len() > 0 && s.last() == c {
        lemma_trailing(s.drop_last(), c);
        assert forall|k: int| s.len() - trailing(s, c) <= k < s.len() implies #[trigger] s[k]
            == c by {
            if k < s.len() - 1 {
                assert(s.drop_last()[k] == s[k]);
            }
        }
    }
}

/// The index of the first `c` is within bounds, holds `c` unless it is the
/// length, and no earlier index holds `c`.
pub proof fn lemma_first_index_of<A>(s: Seq<A>, c: A)
    ensures
        0 <= first_index_of(s, c) <= s.len(),
        first_index_of(s, c) < s.len() ==> s[first_index_of(s, c)] == c,
        forall|k: int| 0 <= k < first_index_of(s, c) ==> #[trigger] s[k] != c,
        first_index_of(s, c) < s.len() <==> s.contains(c),
    decreases s.len(),
{
    if !(s.len() == 0 || s[0] == c) {
        lemma_first_index_of(s.skip(1), c);
        assert forall|k: int| 0 <= k < first_index_of(s, c) implies #[trigger] s[k] != c by {
            if k > 0 {
                assert(s.skip(1)[k - 1] == s[k]);
            }
        }
        if s.contains(c) {
            let k = choose|k: int| 0 <= k < s.len() && s[k] == c;
            assert(s.skip(1)[k - 1] == c);
        }
        if s.skip(1).contains(c) {
            let k = choose|k: int| 0 <= k < s.skip(1).len() && s.skip(1)[k] == c;
            assert(s[k + 1] == c);
        }
    } else if s.len() > 0 {
        assert(s[0] == c);
    }
}

} // verus!
