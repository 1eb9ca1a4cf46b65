use brot::text::{
    chars_of, contains, distinct, ends_with, find_text, index_of, is_whitespace, joined,
    position_of, replace, replace_char, replace_either, split_words, starts_with, string_of, trim,
    trim_start,
};

fn chars(s: &str) -> Vec<char> {
    s.chars().collect()
}

fn text(v: &[char]) -> String {
    v.iter().collect()
}

#[test]
fn is_whitespace_agrees_with_the_standard_library_on_every_character() {
    for code in 0..=0x10FFFFu32 {
        if let Some(c) = char::from_u32(code) {
            assert_eq!(is_whitespace(c), c.is_whitespace(), "U+{code:04X}");
        }
    }
}

#[test]
fn chars_of_and_string_of_are_inverse() {
    for s in ["", "a", "héllo wörld", "日本語", "a\u{0301}"] {
        assert_eq!(chars_of(s), chars(s));
        assert_eq!(string_of(&chars(s)), s);
    }
}

#[test]
fn starts_with_and_ends_with_agree_with_the_standard_library() {
    let cases = [
        ("", ""),
        ("abc", ""),
        ("abc", "a"),
        ("abc", "abc"),
        ("abc", "abcd"),
        ("abc", "bc"),
        ("abc", "c"),
        ("note.md", ".md"),
        ("md", ".md"),
        ("éa", "é"),
        ("e", "é"),
    ];
    for (s, p) in cases {
        assert_eq!(starts_with(s, p), s.starts_with(p), "{s:?} {p:?}");
        assert_eq!(ends_with(s, p), s.ends_with(p), "{s:?} {p:?}");
    }
}

#[test]
fn contains_agrees_with_the_standard_library() {
    let cases = [
        ("Open $note_path", "$note_path"),
        ("Open $note_path", "$note_locater"),
        ("", ""),
        ("", "a"),
        ("aaa", "aa"),
        ("abcabc", "cab"),
        ("abc", "abcd"),
    ];
    for (s, p) in cases {
        assert_eq!(contains(s, p), s.contains(p), "{s:?} {p:?}");
    }
}

#[test]
fn find_text_gives_the_first_occurrence() {
    assert_eq!(find_text(&chars("abcabc"), &chars("bc")), Some(1));
    assert_eq!(find_text(&chars("abcabc"), &chars("")), Some(0));
    assert_eq!(find_text(&chars(""), &chars("")), Some(0));
    assert_eq!(find_text(&chars("abc"), &chars("d")), None);
    assert_eq!(find_text(&chars("ab"), &chars("abc")), None);
}

#[test]
fn replace_agrees_with_the_standard_library() {
    let cases = [
        ("Open $note_path", "$note_path", "a"),
        ("$x and $x", "$x", "long replacement"),
        ("aaaa", "aa", "b"),
        ("aaa", "aa", "b"),
        ("abc", "x", "y"),
        ("", "x", "y"),
        ("xx", "x", ""),
        ("a_b_c", "_", " "),
        ("ababab", "aba", "X"),
    ];
    for (s, from, to) in cases {
        assert_eq!(replace(s, from, to), s.replace(from, to), "{s:?} {from:?} {to:?}");
    }
}

#[test]
fn replace_of_the_empty_text_changes_nothing() {
    assert_eq!(replace("abc", "", "x"), "abc");
    assert_eq!(replace("", "", "x"), "");
}

#[test]
fn replace_char_turns_every_occurrence() {
    assert_eq!(text(&replace_char(&chars("a_b__c_"), '_', ' ')), "a b  c ");
    assert_eq!(text(&replace_char(&chars(""), '_', ' ')), "");
}

#[test]
fn split_words_agrees_with_the_standard_library() {
    let cases = [
        "",
        "   ",
        "one",
        " one  two\tthree\n",
        "-work--urgent task",
        "a\u{00A0}b\u{3000}c",
        "trailing ",
    ];
    for s in cases {
        let got: Vec<String> = split_words(&chars(s)).iter().map(|w| text(w)).collect();
        let want: Vec<String> = s.split_whitespace().map(|w| w.to_string()).collect();
        assert_eq!(got, want, "{s:?}");
    }
}

#[test]
fn trim_agrees_with_the_standard_library() {
    for s in ["", "_", "__", "_a_", "a", "__a_b__", "a__", "__a"] {
        assert_eq!(text(&trim(&chars(s), '_')), s.trim_matches('_'), "{s:?}");
        assert_eq!(text(&trim_start(&chars(s), '_')), s.trim_start_matches('_'), "{s:?}");
    }
}

#[test]
fn index_of_gives_the_first_index_or_the_length() {
    assert_eq!(index_of(&chars("!icon title here"), ' '), 5);
    assert_eq!(index_of(&chars("nospace"), ' '), 7);
    assert_eq!(index_of(&chars(""), ' '), 0);
}

#[test]
fn position_of_gives_the_first_equal_text() {
    let v = vec!["a".to_string(), "$note_path".to_string(), "$note_path".to_string()];
    assert_eq!(position_of(&v, "$note_path"), Some(1));
    assert_eq!(position_of(&v, "a"), Some(0));
    assert_eq!(position_of(&v, "b"), None);
}

#[test]
fn joined_appends() {
    assert_eq!(joined("note:", "a.md"), "note:a.md");
    assert_eq!(joined("", ""), "");
}

#[test]
fn replace_either_replaces_both_texts_in_one_pass() {
    assert_eq!(replace_either("a-b_c", "-", "_", "+"), "a+b+c");
    assert_eq!(replace_either("xaby", "ab", "b", "Z"), "xZy");
    assert_eq!(replace_either("xaby", "b", "ab", "Z"), "xZy");
    assert_eq!(replace_either("aXb", "X", "Y", "Y"), "aYb");
    assert_eq!(replace_either("abc", "x", "y", "z"), "abc");
    assert_eq!(replace_either("abc", "", "b", "z"), "azc");
    assert_eq!(replace_either("abc", "b", "", "z"), "azc");
    assert_eq!(replace_either("", "a", "b", "z"), "");
}

#[test]
fn distinct_keeps_each_text_where_it_first_stands() {
    let v: Vec<String> = ["b", "a", "b", "c", "a"].iter().map(|s| s.to_string()).collect();
    assert_eq!(distinct(&v), vec!["b", "a", "c"]);
    assert!(distinct(&vec![]).is_empty());
}
