use releasor2000::text::{
    contains, find, is_whitespace, matches_at, replace, same_chars, split, split_words,
    string_of, to_chars, trimmed,
};

fn chars(s: &str) -> Vec<char> {
    s.chars().collect()
}

fn strings(rows: &Vec<Vec<char>>) -> Vec<String> {
    rows.iter().map(|r| r.iter().collect()).collect()
}

#[test]
fn is_whitespace_agrees_with_the_unicode_property() {
    let mut code: u32 = 0;
    while code <= 0x10FFFF {
        if let Some(c) = char::from_u32(code) {
            assert_eq!(is_whitespace(c), c.is_whitespace(), "U+{code:04X}");
        }
        code += 1;
    }
}

#[test]
fn to_chars_and_back() {
    let samples = ["", "a", "héllo wörld", "tab\tand\nnewline", "日本語"];
    for s in samples {
        assert_eq!(to_chars(s), chars(s));
        assert_eq!(string_of(&to_chars(s)), s);
    }
}

#[test]
fn trimmed_agrees_with_trim() {
    let samples = [
        "",
        " ",
        "  a  ",
        "\t\n a b \r\n",
        "no-space",
        "\u{a0}x\u{3000}",
        " \u{85} inner  space \u{2003}",
    ];
    for s in samples {
        assert_eq!(string_of(&trimmed(&chars(s))), s.trim(), "{s:?}");
    }
}

#[test]
fn split_agrees_with_split() {
    let samples = ["", "a", "a\nb", "a\n", "\n", "\n\n", "a\n\nb\n", "x-y-z"];
    for s in samples {
        let expected: Vec<String> = s.split('\n').map(|p| p.to_string()).collect();
        assert_eq!(strings(&split(&chars(s), '\n')), expected, "{s:?}");
    }
    assert_eq!(strings(&split(&chars("x-y-z"), '-')), vec!["x", "y", "z"]);
}

#[test]
fn split_words_agrees_with_split_whitespace() {
    let samples = [
        "",
        "   ",
        "one",
        " one two  three ",
        "cargo build --release --target x86_64-apple-darwin",
        "a\tb\nc\r\nd",
        "abc123  file.tar.gz\n",
    ];
    for s in samples {
        let expected: Vec<String> = s.split_whitespace().map(|p| p.to_string()).collect();
        assert_eq!(strings(&split_words(&chars(s))), expected, "{s:?}");
    }
}

#[test]
fn replace_agrees_with_replace() {
    let cases = [
        ("hello {name}", "{name}", "world"),
        ("aaaa", "aa", "b"),
        ("aaa", "aa", "b"),
        ("abcabc", "bc", ""),
        ("abc", "abcd", "x"),
        ("", "a", "b"),
        ("cargo build && cargo build", "cargo build", "cargo zigbuild"),
        ("xx", "x", "xx"),
    ];
    for (s, pat, to) in cases {
        assert_eq!(
            string_of(&replace(&chars(s), &chars(pat), &chars(to))),
            s.replace(pat, to),
            "{s:?} {pat:?} {to:?}"
        );
    }
}

#[test]
fn replace_leaves_text_alone_for_an_empty_pattern() {
    assert_eq!(string_of(&replace(&chars("abc"), &chars(""), &chars("x"))), "abc");
}

#[test]
fn find_gives_the_first_occurrence() {
    assert_eq!(find(&chars("abcabc"), &chars("bc")), Some(1));
    assert_eq!(find(&chars("abcabc"), &chars("cb")), None);
    assert_eq!(find(&chars("abc"), &chars("")), Some(0));
    assert_eq!(find(&chars(""), &chars("")), Some(0));
    assert_eq!(find(&chars("ab"), &chars("abc")), None);
    assert_eq!(find(&chars("xxabc"), &chars("abc")), Some(2));
}

#[test]
fn contains_agrees_with_contains() {
    let cases = [
        ("cargo build --release", "cargo build"),
        ("make all", "cargo"),
        ("aarch64-apple-darwin", "apple-darwin"),
        ("", ""),
        ("a", ""),
        ("", "a"),
    ];
    for (s, pat) in cases {
        assert_eq!(contains(&chars(s), &chars(pat)), s.contains(pat), "{s:?} {pat:?}");
    }
}

#[test]
fn matches_at_checks_one_position() {
    assert!(matches_at(&chars("host: x"), &chars("host: "), 0));
    assert!(!matches_at(&chars(" host: x"), &chars("host: "), 0));
    assert!(matches_at(&chars(" host: x"), &chars("host: "), 1));
    assert!(!matches_at(&chars("ab"), &chars("b"), 2));
    assert!(matches_at(&chars("ab"), &chars(""), 2));
    assert!(!matches_at(&chars("ab"), &chars(""), 3));
}

#[test]
fn same_chars_compares_contents() {
    assert!(same_chars(&chars("abc"), &chars("abc")));
    assert!(!same_chars(&chars("abc"), &chars("abd")));
    assert!(!same_chars(&chars("abc"), &chars("ab")));
    assert!(same_chars(&chars(""), &chars("")));
}
