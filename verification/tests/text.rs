use kyle::text::{
    blank, chars_of, contains_text, decimal_of, ends_with, has_char, is_whitespace, join_with,
    lowercase, same_text, scan_run, slice, split_lines, split_words, starts_with, string_of,
    trimmed, CharClass,
};

fn chars(s: &str) -> Vec<char> {
    s.chars().collect()
}

fn text(v: &[char]) -> String {
    v.iter().collect()
}

const TEXTS: &[&str] = &[
    "",
    "a",
    "\n",
    "\n\n",
    "a\n",
    "a\nb",
    "a\nb\n",
    "a\r\nb\r\n",
    "a\r",
    "a\r\n",
    "\r\n",
    "\r",
    "a\r\r\n",
    "a\n\nb",
    "a\rb\nc",
    "  a  b  ",
    "\t a\u{a0}b\u{2003}c \n d",
    "é\n日本語\r\n",
    "x\u{85}y",
    "one two\tthree\nfour\u{3000}five",
];

#[test]
fn characters_cross_over_unchanged() {
    for t in TEXTS {
        assert_eq!(chars_of(t), chars(t));
        assert_eq!(string_of(&chars(t)), *t);
    }
}

#[test]
fn white_space_is_what_the_language_calls_so() {
    for n in 0..0x3100u32 {
        if let Some(c) = char::from_u32(n) {
            assert_eq!(is_whitespace(c), c.is_whitespace(), "{n:#x}");
        }
    }
    for c in ['\u{feff}', '\u{200b}', '\u{10ffff}', '\u{e000}'] {
        assert_eq!(is_whitespace(c), c.is_whitespace());
    }
}

#[test]
fn lines_are_split_as_the_language_splits_them() {
    for t in TEXTS {
        let ours: Vec<String> = split_lines(&chars(t)).iter().map(|l| text(l)).collect();
        let theirs: Vec<String> = t.lines().map(|l| l.to_string()).collect();
        assert_eq!(ours, theirs, "{t:?}");
    }
}

#[test]
fn words_are_split_as_the_language_splits_them() {
    for t in TEXTS {
        let ours: Vec<String> = split_words(&chars(t)).iter().map(|l| text(l)).collect();
        let theirs: Vec<String> = t.split_whitespace().map(|l| l.to_string()).collect();
        assert_eq!(ours, theirs, "{t:?}");
    }
}

#[test]
fn trimming_and_blankness() {
    for t in TEXTS {
        assert_eq!(text(&trimmed(&chars(t))), t.trim(), "{t:?}");
        assert_eq!(blank(&chars(t)), t.trim().is_empty(), "{t:?}");
    }
}

#[test]
fn joining() {
    let parts = |v: &[&str]| v.iter().map(|p| chars(p)).collect::<Vec<_>>();
    assert_eq!(text(&join_with(&parts(&[]), &chars(" && "))), "");
    assert_eq!(text(&join_with(&parts(&["a"]), &chars(" && "))), "a");
    assert_eq!(text(&join_with(&parts(&["a", "b", "c"]), &chars(" && "))), "a && b && c");
    assert_eq!(text(&join_with(&parts(&["", ""]), &chars(","))), ",");
    assert_eq!(text(&join_with(&parts(&["a", "b"]), &chars(""))), "ab");
}

#[test]
fn searching() {
    for (whole, part) in [
        ("", ""),
        ("a", ""),
        ("", "a"),
        ("abc", "abc"),
        ("abc", "bc"),
        ("abc", "ab"),
        ("abc", "b"),
        ("abc", "ac"),
        ("abc", "abcd"),
        ("aab", "ab"),
        ("kyle-x86_64-unknown-linux-musl.tar.gz", "x86_64-unknown-linux-musl"),
        ("kyle.zip", ".tar.gz"),
    ] {
        assert_eq!(contains_text(&chars(whole), &chars(part)), whole.contains(part));
        assert_eq!(starts_with(&chars(whole), &chars(part)), whole.starts_with(part));
        assert_eq!(ends_with(&chars(whole), &chars(part)), whole.ends_with(part));
        assert_eq!(same_text(&chars(whole), &chars(part)), whole == part);
    }
    assert!(has_char(&chars("a%b"), '%'));
    assert!(!has_char(&chars("ab"), '%'));
    assert!(!has_char(&chars(""), '%'));
}

#[test]
fn runs_and_slices() {
    let s = chars("  \tabc-1.x: y");
    assert_eq!(scan_run(&s, 0, CharClass::Space), 3);
    assert_eq!(scan_run(&s, 0, CharClass::Blank), 3);
    assert_eq!(scan_run(&s, 0, CharClass::Word), 0);
    assert_eq!(scan_run(&s, 3, CharClass::Name), 8);
    assert_eq!(scan_run(&s, 3, CharClass::DottedName), 10);
    assert_eq!(scan_run(&s, 3, CharClass::NotColon), 10);
    assert_eq!(scan_run(&s, 3, CharClass::Word), 11);
    assert_eq!(scan_run(&s, 2, CharClass::Tab), 3);
    assert_eq!(scan_run(&s, 3, CharClass::Is('a')), 4);
    assert_eq!(scan_run(&s, 0, CharClass::NotNewline), s.len());
    assert_eq!(scan_run(&s, s.len(), CharClass::Space), s.len());
    assert_eq!(text(&slice(&s, 3, 6)), "abc");
    assert_eq!(text(&slice(&s, 3, 3)), "");
}

#[test]
fn lower_case() {
    assert_eq!(text(&lowercase(&chars("YAML"))), "yaml");
    assert_eq!(text(&lowercase(&chars("ToMl-9 Ä"))), "toml-9 Ä");
    assert_eq!(text(&lowercase(&chars("@[`{AZ"))), "@[`{az");
}

#[test]
fn decimals() {
    for n in [0, 1, 9, 10, 11, 99, 100, 101, 255, 1000, -1, -9, -10, -128, i32::MAX, i32::MIN] {
        assert_eq!(text(&decimal_of(n)), n.to_string());
    }
}
