//! Note paths and note titles.
//!
//! A note's path is its file name; its title is derived from the path and
//! never stored.

use vstd::prelude::*;
use crate::pattern::{regex_replaced, Patterns, UNSAFE_CHARACTERS};
use crate::text::{
    append_chars, chars_of, copy_range, has_suffix, matches_at, replace_char, replaced_char,
    string_of, trim, trimmed,
};

verus! {

/// The extension of a note file.
pub open spec fn extension() -> Seq<char> {
    seq!['.', 'm', 'd']
}

/// The title of the note stored at `path`: every underscore reads as a
/// space, and the extension is left out.
pub open spec fn title_of(path: Seq<char>) -> Seq<char> {
    let spaced = replaced_char(path, '_', ' ');
    if has_suffix(spaced, extension()) {
        spaced.take(spaced.len() - 3)
    } else {
        spaced
    }
}

/// The file stem made of a title whose unsafe runs are already underscores:
/// no underscore at either end.
pub open spec fn stem_of(replaced: Seq<char>) -> Seq<char> {
    trimmed(replaced, '_')
}

/// The path made of a title whose unsafe runs are already underscores.
pub open spec fn path_of(replaced: Seq<char>) -> Seq<char> {
    stem_of(replaced) + extension()
}

fn extension_chars() -> (ext: Vec<char>)
    ensures
        ext@ == extension(),
{
    let mut ext: Vec<char> = Vec::new();
    ext.push('.');
    ext.push('m');
    ext.push('d');
    assert(ext@ =~= extension());
    ext
}

/// The title of the note stored at `path`.
pub fn path_to_title(path: &str) -> (title: String)
    ensures
        title@ == title_of(path@),
{
    let chars = chars_of(path);
    let spaced = replace_char(chars.as_slice(), '_', ' ');
    let ext = extension_chars();
    if spaced.len() >= 3 && matches_at(spaced.as_slice(), ext.as_slice(), spaced.len() - 3) {
        let stem = copy_range(spaced.as_slice(), 0, spaced.len() - 3);
        assert(stem@ =~= spaced@.take(spaced@.len() - 3));
        string_of(stem.as_slice())
    } else {
        string_of(spaced.as_slice())
    }
}

/// Strips the underscores at both ends of `replaced`.
pub fn trim_stem(replaced: &str) -> (stem: String)
    ensures
        stem@ == stem_of(replaced@),
{
    let chars = chars_of(replaced);
    let stem = trim(chars.as_slice(), '_');
    string_of(stem.as_slice())
}

/// Appends the extension of a note file to `stem`.
pub fn with_extension(stem: &str) -> (path: String)
    ensures
        path@ == stem@ + extension(),
{
    let mut chars = chars_of(stem);
    let ext = extension_chars();
    append_chars(&mut chars, ext.as_slice());
    string_of(chars.as_slice())
}

/// A file stem for `input`: every run of characters that a file name must
/// not hold becomes one underscore, and no underscore stays at either end.
pub fn sanitize_filename(input: &str, patterns: &Patterns) -> (stem: String)
    ensures
        stem@ == stem_of(regex_replaced(UNSAFE_CHARACTERS@, input@, seq!['_'])),
{
    proof {
        reveal_strlit("_");
        assert("_"@ =~= seq!['_']);
    }
    let replaced = patterns.replace_unsafe(input, "_");
    trim_stem(replaced.as_str())
}

/// The path under which a note with the given title is stored.
pub fn title_to_path(title: &str, patterns: &Patterns) -> (path: String)
    ensures
        path@ == path_of(regex_replaced(UNSAFE_CHARACTERS@, title@, seq!['_'])),
{
    let stem = sanitize_filename(title, patterns);
    with_extension(stem.as_str())
}

} // verus!
