//! Locaters: what a window shows.
//!
//! A locater is written in two ways: as a token (`note:` and a path,
//! `pinned`, `settings`, `new`) in documents and messages, and as the path
//! and query of the address that a window is opened with.

use vstd::prelude::*;
use crate::text::{chars_of, joined, copy_range, has_prefix, matches_at, string_of};

verus! {

/// What a window shows, as texts.
pub enum LocaterView {
    Note { path: Seq<char> },
    Pinned,
    Settings,
    New,
}

/// What a window shows.
#[derive(Debug, PartialEq, Eq, Hash)]
pub enum Locater {
    /// The note at `path`.
    Note { path: String },
    /// The pinned notes.
    Pinned,
    /// The settings.
    Settings,
    /// The form for a new note.
    New,
}

/// Why a token is no locater.
#[derive(Debug, PartialEq, Eq)]
pub enum LocaterError {
    /// The token is none of the four forms; it is kept for the message.
    Invalid(String),
}

impl LocaterError {
    /// The message of the error.
    pub fn message(&self) -> (text: String)
        ensures
            match *self {
                LocaterError::Invalid(token) => text@ == "Invalid Locater string: "@ + token@,
            },
    {
        match self {
            LocaterError::Invalid(token) => joined("Invalid Locater string: ", token.as_str()),
        }
    }
}

impl View for Locater {
    type V = LocaterView;

    open spec fn view(&self) -> LocaterView {
        match *self {
            Locater::Note { path } => LocaterView::Note { path: path@ },
            Locater::Pinned => LocaterView::Pinned,
            Locater::Settings => LocaterView::Settings,
            Locater::New => LocaterView::New,
        }
    }
}

impl Clone for Locater {
    fn clone(&self) -> (copy: Self)
        ensures
            copy@ == self@,
    {
        match self {
            Locater::Note { path } => Locater::Note { path: path.clone() },
            Locater::Pinned => Locater::Pinned,
            Locater::Settings => Locater::Settings,
            Locater::New => Locater::New,
        }
    }
}

/// What stands before the path in the token of a note.
pub open spec fn note_prefix() -> Seq<char> {
    seq!['n', 'o', 't', 'e', ':']
}

/// The token of a locater.
pub open spec fn token_of(locater: LocaterView) -> Seq<char> {
    match locater {
        LocaterView::Note { path } => note_prefix() + path,
        LocaterView::Pinned => seq!['p', 'i', 'n', 'n', 'e', 'd'],
        LocaterView::Settings => seq!['s', 'e', 't', 't', 'i', 'n', 'g', 's'],
        LocaterView::New => seq!['n', 'e', 'w'],
    }
}

/// The locater that a token stands for.
pub open spec fn locater_of(token: Seq<char>) -> Option<LocaterView> {
    if has_prefix(token, note_prefix()) {
        Some(LocaterView::Note { path: token.skip(5) })
    } else if token == token_of(LocaterView::Pinned) {
        Some(LocaterView::Pinned)
    } else if token == token_of(LocaterView::Settings) {
        Some(LocaterView::Settings)
    } else if token == token_of(LocaterView::New) {
        Some(LocaterView::New)
    } else {
        None
    }
}

/// The address of a locater: its path and, for a note, the query `p`.
pub open spec fn address_of(locater: LocaterView) -> Seq<char> {
    match locater {
        LocaterView::Settings => seq!['/', 's', 'e', 't', 't', 'i', 'n', 'g', 's'],
        LocaterView::Pinned => seq!['/'],
        LocaterView::New => seq!['/', 'n', 'e', 'w'],
        LocaterView::Note { path } => seq!['/', 'n', 'o', 't', 'e', '?', 'p', '='] + path,
    }
}

/// The value of the first pair of `query` whose key is `p`.
pub open spec fn note_parameter(query: Seq<(Seq<char>, Seq<char>)>) -> Option<Seq<char>>
    decreases query.len(),
{
    if query.len() == 0 {
        None
    } else if query[0].0 == seq!['p'] {
        Some(query[0].1)
    } else {
        note_parameter(query.skip(1))
    }
}

/// The locater of an address with the path `path` and the query pairs
/// `query`.
pub open spec fn locater_at(path: Seq<char>, query: Seq<(Seq<char>, Seq<char>)>) -> Option<
    LocaterView,
> {
    if path == address_of(LocaterView::Settings) {
        Some(LocaterView::Settings)
    } else if path == address_of(LocaterView::New) {
        Some(LocaterView::New)
    } else if path == address_of(LocaterView::Pinned) {
        Some(LocaterView::Pinned)
    } else if path == seq!['/', 'n', 'o', 't', 'e'] {
        match note_parameter(query) {
            Some(path) => Some(LocaterView::Note { path }),
            None => None,
        }
    } else {
        None
    }
}

/// The views of the query pairs of an address.
pub open spec fn pairs(query: Seq<(String, String)>) -> Seq<(Seq<char>, Seq<char>)> {
    query.map_values(|pair: (String, String)| (pair.0@, pair.1@))
}

/// The view of a locater that may be missing.
pub open spec fn locater_view(locater: Option<Locater>) -> Option<LocaterView> {
    match locater {
        Some(locater) => Some(locater@),
        None => None,
    }
}

/// Whether the text `s` is the literal `literal`.
fn is_text(s: &Vec<char>, literal: &str) -> (b: bool)
    ensures
        b == (s@ == literal@),
{
    let other = chars_of(literal);
    let b = s.len() == other.len() && matches_at(s.as_slice(), other.as_slice(), 0);
    proof {
        if b {
            assert(s@.subrange(0, s@.len() as int) =~= s@);
        }
        if s@ == literal@ {
            assert(s@.subrange(0, s@.len() as int) =~= s@);
        }
    }
    b
}

impl Locater {
    /// The locater of an address with the path `path` and the query pairs
    /// `query`.
    pub fn from_url(path: &str, query: &[(String, String)]) -> (r: Option<Locater>)
        ensures
            locater_view(r) == locater_at(path@, pairs(query@)),
    {
        proof {
            reveal_strlit("/settings");
            reveal_strlit("/new");
            reveal_strlit("/");
            reveal_strlit("/note");
            reveal_strlit("p");
            assert("/settings"@ =~= address_of(LocaterView::Settings));
            assert("/new"@ =~= address_of(LocaterView::New));
            assert("/"@ =~= address_of(LocaterView::Pinned));
            assert("/note"@ =~= seq!['/', 'n', 'o', 't', 'e']);
            assert("p"@ =~= seq!['p']);
        }
        let chars = chars_of(path);
        if is_text(&chars, "/settings") {
            Some(Locater::Settings)
        } else if is_text(&chars, "/new") {
            Some(Locater::New)
        } else if is_text(&chars, "/") {
            Some(Locater::Pinned)
        } else if is_text(&chars, "/note") {
            let mut i: usize = 0;
            assert(pairs(query@).skip(0) =~= pairs(query@));
            while i < query.len()
                invariant
                    i <= query@.len(),
                    "p"@ == seq!['p'],
                    locater_at(path@, pairs(query@)) == match note_parameter(pairs(query@)) {
                        Some(path) => Some(LocaterView::Note { path }),
                        None => None,
                    },
                    note_parameter(pairs(query@)) == note_parameter(pairs(query@).skip(i as int)),
                decreases query@.len() - i,
            {
                assert(pairs(query@).skip(i as int)[0] == pairs(query@)[i as int]);
                assert(pairs(query@).skip(i as int).skip(1) =~= pairs(query@).skip(i + 1));
                let key = chars_of(query[i].0.as_str());
                if is_text(&key, "p") {
                    return Some(Locater::Note { path: query[i].1.clone() });
                }
                i += 1;
            }
            None
        } else {
            None
        }
    }

    /// The address that a window for this locater is opened with.
    pub fn into_path(&self) -> (address: String)
        ensures
            address@ == address_of(self@),
    {
        proof {
            reveal_strlit("/settings");
            reveal_strlit("/new");
            reveal_strlit("/");
            reveal_strlit("/note?p=");
            assert("/settings"@ =~= address_of(LocaterView::Settings));
            assert("/new"@ =~= address_of(LocaterView::New));
            assert("/"@ =~= address_of(LocaterView::Pinned));
            assert("/note?p="@ =~= seq!['/', 'n', 'o', 't', 'e', '?', 'p', '=']);
        }
        match self {
            Locater::Settings => "/settings".to_owned(),
            Locater::Pinned => "/".to_owned(),
            Locater::New => "/new".to_owned(),
            Locater::Note { path } => joined("/note?p=", path.as_str()),
        }
    }

    /// The token of this locater.
    pub fn to_token(&self) -> (token: String)
        ensures
            token@ == token_of(self@),
    {
        proof {
            reveal_strlit("note:");
            reveal_strlit("pinned");
            reveal_strlit("settings");
            reveal_strlit("new");
            assert("note:"@ =~= note_prefix());
            assert("pinned"@ =~= token_of(LocaterView::Pinned));
            assert("settings"@ =~= token_of(LocaterView::Settings));
            assert("new"@ =~= token_of(LocaterView::New));
        }
        match self {
            Locater::Note { path } => joined("note:", path.as_str()),
            Locater::Pinned => "pinned".to_owned(),
            Locater::Settings => "settings".to_owned(),
            Locater::New => "new".to_owned(),
        }
    }

    /// The locater that `token` stands for.
    pub fn from_token(token: &str) -> (r: Result<Locater, LocaterError>)
        ensures
            match locater_of(token@) {
                Some(locater) => r matches Ok(found) && found@ == locater,
                None => r matches Err(LocaterError::Invalid(kept)) && kept@ == token@,
            },
    {
        proof {
            reveal_strlit("note:");
            reveal_strlit("pinned");
            reveal_strlit("settings");
            reveal_strlit("new");
            assert("note:"@ =~= note_prefix());
            assert("pinned"@ =~= token_of(LocaterView::Pinned));
            assert("settings"@ =~= token_of(LocaterView::Settings));
            assert("new"@ =~= token_of(LocaterView::New));
        }
        let chars = chars_of(token);
        let prefix = chars_of("note:");
        if matches_at(chars.as_slice(), prefix.as_slice(), 0) {
            let path = copy_range(chars.as_slice(), 5, chars.len());
            assert(path@ =~= token@.skip(5));
            Ok(Locater::Note { path: string_of(path.as_slice()) })
        } else if is_text(&chars, "pinned") {
            Ok(Locater::Pinned)
        } else if is_text(&chars, "settings") {
            Ok(Locater::Settings)
        } else if is_text(&chars, "new") {
            Ok(Locater::New)
        } else {
            Err(LocaterError::Invalid(token.to_owned()))
        }
    }
}

/// A token that was written for a locater reads back as that locater.
pub proof fn law_token_round_trip(locater: LocaterView)
    ensures
        locater_of(token_of(locater)) == Some(locater),
{
    match locater {
        LocaterView::Note { path } => {
            let token = note_prefix() + path;
            assert(token.subrange(0, 5) =~= note_prefix());
            assert(token.skip(5) =~= path);
        },
        LocaterView::Pinned => {
            assert(token_of(locater)[0] != note_prefix()[0]);
            assert(token_of(locater).subrange(0, 5)[0] == token_of(locater)[0]);
        },
        LocaterView::Settings => {
            assert(token_of(locater)[0] != note_prefix()[0]);
            assert(token_of(locater).subrange(0, 5)[0] == token_of(locater)[0]);
            assert(token_of(locater).len() != token_of(LocaterView::Pinned).len());
        },
        LocaterView::New => {
            assert(token_of(locater).len() < 5);
            assert(token_of(locater).len() != token_of(LocaterView::Pinned).len());
            assert(token_of(locater).len() != token_of(LocaterView::Settings).len());
        },
    }
}

/// An address that was written for a locater reads back as that locater,
/// where the query of a note's address holds the path under `p`.
pub proof fn law_address_round_trip(locater: LocaterView)
    ensures
        match locater {
            LocaterView::Note { path } => locater_at(
                seq!['/', 'n', 'o', 't', 'e'],
                seq![(seq!['p'], path)],
            ) == Some(locater),
            _ => locater_at(address_of(locater), Seq::empty()) == Some(locater),
        },
{
    match locater {
        LocaterView::Note { path } => {
            assert(seq!['/', 'n', 'o', 't', 'e'].len() != address_of(LocaterView::Settings).len());
            assert(seq!['/', 'n', 'o', 't', 'e'].len() != address_of(LocaterView::New).len());
            assert(seq!['/', 'n', 'o', 't', 'e'].len() != address_of(LocaterView::Pinned).len());
        },
        LocaterView::Pinned => {
            assert(address_of(locater).len() != address_of(LocaterView::Settings).len());
            assert(address_of(locater).len() != address_of(LocaterView::New).len());
        },
        LocaterView::Settings => {},
        LocaterView::New => {
            assert(address_of(locater).len() != address_of(LocaterView::Settings).len());
        },
    }
}

} // verus!
