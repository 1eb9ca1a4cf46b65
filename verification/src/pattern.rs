//! The two regular expressions of the note grammar, compiled once.
//!
//! Matching is done by the `regex` crate. What it returns is not proved here:
//! it is named, and the contracts of this crate speak of those names.

use vstd::prelude::*;
use crate::text::texts;

verus! {

#[verifier::external_type_specification]
#[verifier::external_body]
pub struct ExRegex(regex::Regex);

/// The pattern text that `Regex::new` compiled a regular expression from, as
/// `Regex::as_str` returns it; `None` for a regular expression that was made
/// another way, with options of its own. Only of the first kind is what the
/// expression finds a matter of the pattern text alone.
pub uninterp spec fn regex_source(re: regex::Regex) -> Option<Seq<char>>;

/// What `Regex::replace_all` returns for the regular expression compiled from
/// `pattern`, on `haystack`, with the replacement `rep`.
pub uninterp spec fn regex_replaced(pattern: Seq<char>, haystack: Seq<char>, rep: Seq<char>) -> Seq<
    char,
>;

/// The pieces that `Regex::split` yields for the regular expression compiled
/// from `pattern`, on `haystack`, in order.
pub uninterp spec fn regex_pieces(pattern: Seq<char>, haystack: Seq<char>) -> Seq<Seq<char>>;

/// `Regex::new`: compiles `pattern`. Where it succeeds, the regular expression
/// is the one of that pattern text. It fails on a pattern that is invalid or
/// too large; nothing is claimed about when.
#[verifier::external_body]
fn compile(pattern: &str) -> (r: Option<regex::Regex>)
    ensures
        r matches Some(re) ==> regex_source(re) == Some(pattern@),
{
    regex::Regex::new(pattern).ok()
}

/// `Regex::replace_all`: `haystack` with every match of `re` replaced by `rep`.
#[verifier::external_body]
fn replace_all(re: &regex::Regex, haystack: &str, rep: &str) -> (out: String)
    requires
        regex_source(*re) is Some,
    ensures
        out@ == regex_replaced(regex_source(*re)->0, haystack@, rep@),
{
    re.replace_all(haystack, rep).into_owned()
}

/// `Regex::split`: the pieces of `haystack` between the matches of `re`.
#[verifier::external_body]
fn split(re: &regex::Regex, haystack: &str) -> (out: Vec<String>)
    requires
        regex_source(*re) is Some,
    ensures
        texts(out@) == regex_pieces(regex_source(*re)->0, haystack@),
{
    re.split(haystack).map(|piece| piece.to_string()).collect()
}

/// One or more characters that a file name must not hold: white space, the
/// characters `< > : " / \ | ? *`, and the control characters below U+0020.
pub const UNSAFE_CHARACTERS: &'static str = r#"[\s<>:"/\\|?*\x00-\x1F]+"#;

/// Two or more dashes in a row: what separates the levels of a tag.
pub const TAG_SEPARATOR: &'static str = r"-{2,}";

/// The compiled regular expressions of the note grammar.
pub struct Patterns {
    unsafe_characters: regex::Regex,
    tag_separator: regex::Regex,
}

impl Patterns {
    #[verifier::type_invariant]
    spec fn well_formed(self) -> bool {
        &&& regex_source(self.unsafe_characters) == Some(UNSAFE_CHARACTERS@)
        &&& regex_source(self.tag_separator) == Some(TAG_SEPARATOR@)
    }

    /// The pattern texts that the two regular expressions were compiled
    /// from: that of the unsafe characters, and that of the tag separator.
    pub closed spec fn sources(&self) -> (Option<Seq<char>>, Option<Seq<char>>) {
        (regex_source(self.unsafe_characters), regex_source(self.tag_separator))
    }

    /// Compiles both patterns. `None` where the `regex` crate refuses one:
    /// whether it does is for that crate to say, and `from_compiled` says
    /// what is made of its answers.
    pub fn new() -> (r: Option<Patterns>)
        ensures
            r matches Some(patterns) ==> patterns.sources() == (
                Some(UNSAFE_CHARACTERS@),
                Some(TAG_SEPARATOR@),
            ),
    {
        let unsafe_characters = compile(UNSAFE_CHARACTERS);
        let tag_separator = compile(TAG_SEPARATOR);
        Patterns::from_compiled(unsafe_characters, tag_separator)
    }

    /// The patterns made of what compiling the two pattern texts gave: both
    /// regular expressions together where both compiled, and `None` where
    /// one of them did not. The two are to be what `Regex::new` makes of the
    /// two pattern texts: a regular expression built with other options
    /// finds other things under the same text.
    pub fn from_compiled(
        unsafe_characters: Option<regex::Regex>,
        tag_separator: Option<regex::Regex>,
    ) -> (r: Option<Patterns>)
        requires
            unsafe_characters matches Some(re) ==> regex_source(re) == Some(UNSAFE_CHARACTERS@),
            tag_separator matches Some(re) ==> regex_source(re) == Some(TAG_SEPARATOR@),
        ensures
            r is Some <==> unsafe_characters is Some && tag_separator is Some,
            r matches Some(patterns) ==> patterns.sources() == (
                Some(UNSAFE_CHARACTERS@),
                Some(TAG_SEPARATOR@),
            ),
    {
        match unsafe_characters {
            Some(unsafe_characters) => match tag_separator {
                Some(tag_separator) => Some(Patterns { unsafe_characters, tag_separator }),
                None => None,
            },
            None => None,
        }
    }

    /// `text` with every run of characters that a file name must not hold
    /// replaced by one `replacement`.
    pub fn replace_unsafe(&self, text: &str, replacement: &str) -> (out: String)
        ensures
            out@ == regex_replaced(UNSAFE_CHARACTERS@, text@, replacement@),
    {
        proof {
            use_type_invariant(self);
        }
        replace_all(&self.unsafe_characters, text, replacement)
    }

    /// The pieces of `text` between runs of two or more dashes.
    pub fn split_levels(&self, text: &str) -> (out: Vec<String>)
        ensures
            texts(out@) == regex_pieces(TAG_SEPARATOR@, text@),
    {
        proof {
            use_type_invariant(self);
        }
        split(&self.tag_separator, text)
    }
}

} // verus!
