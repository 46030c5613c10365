use shannon::text::{
    ends_with, equals, find, from_chars, includes, index_of, join, lines, matches_at, replace,
    same, slice, split, split_whitespace, starts_with, strip_label, to_chars, trim, trim_end,
    trim_end_matches, trim_leading, trim_matches, trim_start, trim_start_matches, trim_trailing,
    whitespace,
};

fn chars(s: &str) -> Vec<char> {
    s.chars().collect()
}

fn text(v: &Vec<char>) -> String {
    v.iter().collect()
}

fn texts(v: &Vec<Vec<char>>) -> Vec<String> {
    v.iter().map(text).collect()
}

const SAMPLES: [&str; 24] = [
    "",
    "\n",
    "\r\n",
    "\r",
    "a",
    "a\n",
    "a\nb",
    "a\nb\n",
    "a\r\nb\r\n",
    "a\rb\n",
    "a\r",
    "a\r\r\n",
    "\n\n",
    "  lead and trail  \n\tmid\t\n",
    "one two  three\u{a0}four\u{2003}five",
    "address=/router.lan/192.168.4.1\n# note\naddress=/nas.lan/192.168.4.7",
    "x,y,,z,",
    ",",
    "::",
    "a:b:c",
    "\u{3000}wide\u{3000}",
    "é\nü\r\nß",
    "\n\na\n\n",
    " \u{85} \u{1680}\u{2028}\u{2029}\u{202f}\u{205f} ",
];

#[test]
fn whitespace_agrees_with_the_standard_set_on_every_character() {
    let mut n: u32 = 0;
    while n <= 0x10FFFF {
        if let Some(c) = char::from_u32(n) {
            assert_eq!(whitespace(c), c.is_whitespace(), "U+{:04X}", n);
        }
        n += 1;
    }
}

#[test]
fn to_chars_and_from_chars_are_inverse() {
    for s in SAMPLES {
        assert_eq!(to_chars(s), chars(s));
        assert_eq!(from_chars(&chars(s)), s);
    }
}

#[test]
fn same_compares_texts() {
    assert!(same("shannon", "shannon"));
    assert!(!same("shannon", "Shannon"));
    assert!(same("", ""));
    assert!(!same("a", ""));
}

#[test]
fn slice_cuts_between_characters() {
    let v = chars("héllo");
    assert_eq!(text(&slice(&v, 1, 3)), "él");
    assert_eq!(text(&slice(&v, 0, 0)), "");
    assert_eq!(text(&slice(&v, 0, 5)), "héllo");
}

#[test]
fn lines_agree_with_the_standard_lines() {
    for s in SAMPLES {
        let expected: Vec<String> = s.lines().map(|l| l.to_string()).collect();
        assert_eq!(texts(&lines(&chars(s))), expected, "{:?}", s);
    }
}

#[test]
fn lines_keep_a_carriage_return_that_ends_the_text() {
    assert_eq!(texts(&lines(&chars("a\r"))), vec!["a\r".to_string()]);
    assert_eq!(texts(&lines(&chars("a\r\n"))), vec!["a".to_string()]);
    assert_eq!(texts(&lines(&chars(""))), Vec::<String>::new());
    assert_eq!(texts(&lines(&chars("\n"))), vec!["".to_string()]);
}

#[test]
fn trims_agree_with_the_standard_trims() {
    for s in SAMPLES {
        assert_eq!(text(&trim(&chars(s))), s.trim(), "{:?}", s);
        assert_eq!(text(&trim_start(&chars(s))), s.trim_start(), "{:?}", s);
        assert_eq!(text(&trim_end(&chars(s))), s.trim_end(), "{:?}", s);
    }
}

#[test]
fn trim_of_white_space_is_empty() {
    assert_eq!(text(&trim(&chars(" \t\r\n "))), "");
    assert_eq!(text(&trim(&chars("  a b  "))), "a b");
}

#[test]
fn split_agrees_with_the_standard_split() {
    for s in SAMPLES {
        for sep in [',', ':', '/', '\n', ' '] {
            let expected: Vec<String> = s.split(sep).map(|l| l.to_string()).collect();
            assert_eq!(texts(&split(&chars(s), sep)), expected, "{:?} at {:?}", s, sep);
        }
    }
}

#[test]
fn split_keeps_empty_pieces() {
    assert_eq!(texts(&split(&chars("x,y,,z,"), ',')), vec!["x", "y", "", "z", ""]);
    assert_eq!(texts(&split(&chars(""), ',')), vec![""]);
}

#[test]
fn split_whitespace_agrees_with_the_standard_one() {
    for s in SAMPLES {
        let expected: Vec<String> = s.split_whitespace().map(|l| l.to_string()).collect();
        assert_eq!(texts(&split_whitespace(&chars(s))), expected, "{:?}", s);
    }
}

#[test]
fn split_whitespace_of_blank_text_is_empty() {
    assert_eq!(texts(&split_whitespace(&chars("   \t "))), Vec::<String>::new());
    assert_eq!(texts(&split_whitespace(&chars(" a  b "))), vec!["a", "b"]);
}

#[test]
fn prefix_suffix_and_substring_agree_with_the_standard_ones() {
    let patterns = ["", "a", "address=/", "\n", "b\n", "::", ":", "x,y", "z,", "two", "ß"];
    for s in SAMPLES {
        for p in patterns {
            assert_eq!(starts_with(&chars(s), &chars(p)), s.starts_with(p), "{:?} {:?}", s, p);
            assert_eq!(ends_with(&chars(s), &chars(p)), s.ends_with(p), "{:?} {:?}", s, p);
            assert_eq!(includes(&chars(s), &chars(p)), s.contains(p), "{:?} {:?}", s, p);
            let expected = s.find(p).map(|at| s[..at].chars().count());
            assert_eq!(find(&chars(s), &chars(p)), expected, "{:?} {:?}", s, p);
        }
    }
}

#[test]
fn matches_at_looks_at_one_place() {
    let s = chars("abcabc");
    assert!(matches_at(&s, &chars("bc"), 1));
    assert!(!matches_at(&s, &chars("bc"), 2));
    assert!(matches_at(&s, &chars("bc"), 4));
    assert!(!matches_at(&s, &chars("bc"), 5));
    assert!(matches_at(&s, &chars(""), 6));
    assert!(!matches_at(&s, &chars(""), 7));
}

#[test]
fn find_gives_the_first_place() {
    assert_eq!(find(&chars("abcabc"), &chars("bc")), Some(1));
    assert_eq!(find(&chars("abcabc"), &chars("cb")), None);
    assert_eq!(find(&chars(""), &chars("")), Some(0));
}

#[test]
fn index_of_gives_the_first_place_of_a_character() {
    assert_eq!(index_of(&chars("key = a = b"), '='), Some(4));
    assert_eq!(index_of(&chars("key"), '='), None);
    assert_eq!(index_of(&chars(""), '='), None);
}

#[test]
fn repeated_prefixes_and_suffixes_agree_with_the_standard_ones() {
    let cases = [
        ("address=/address=/x", "address=/"),
        ("address=/x", "address=/"),
        ("x", "address=/"),
        ("aaa", "a"),
        ("aaa", "aa"),
        ("abc", ""),
        ("", "a"),
        ("1.2 MiB sentsent", "sent"),
        ("sent", "sent"),
    ];
    for (s, p) in cases {
        assert_eq!(text(&trim_start_matches(&chars(s), &chars(p))), s.trim_start_matches(p));
        assert_eq!(text(&trim_end_matches(&chars(s), &chars(p))), s.trim_end_matches(p));
    }
}

#[test]
fn character_trims_agree_with_the_standard_ones() {
    let cases = [("\"quoted\"", '"'), ("\"\"", '"'), ("## note #", '#'), ("plain", '#'), ("", '#')];
    for (s, c) in cases {
        assert_eq!(text(&trim_leading(&chars(s), c)), s.trim_start_matches(c));
        assert_eq!(text(&trim_trailing(&chars(s), c)), s.trim_end_matches(c));
        assert_eq!(text(&trim_matches(&chars(s), c)), s.trim_matches(c));
    }
}

#[test]
fn replace_agrees_with_the_standard_replace() {
    let cases = [("it's", '\'', "'\\''"), ("''", '\'', "'\\''"), ("none", '\'', "x"), ("a\"b", '"', "\\\"")];
    for (s, c, with) in cases {
        assert_eq!(replace(s, c, with), s.replace(c, with));
    }
    assert_eq!(replace("it's", '\'', "'\\''"), "it'\\''s");
}

#[test]
fn strip_label_takes_the_label_and_trims() {
    assert_eq!(text(&strip_label(&chars("peer:  abc  "), &chars("peer:"))), "abc");
    assert_eq!(text(&strip_label(&chars("peer:peer: abc"), &chars("peer:"))), "abc");
    assert_eq!(text(&strip_label(&chars(" other "), &chars("peer:"))), "other");
}

#[test]
fn equals_compares_with_a_literal() {
    assert!(equals(&chars("-p"), "-p"));
    assert!(!equals(&chars("-p"), "--dport"));
    assert!(!equals(&chars("-px"), "-p"));
    assert!(equals(&chars(""), ""));
}

#[test]
fn join_puts_the_separator_between() {
    let parts = vec![chars("a"), chars(""), chars("c")];
    assert_eq!(join(&parts, "\n"), "a\n\nc");
    assert_eq!(join(&vec![chars("only")], ", "), "only");
    assert_eq!(join(&Vec::<Vec<char>>::new(), ", "), "");
    for s in SAMPLES {
        let ls: Vec<&str> = s.lines().collect();
        assert_eq!(join(&lines(&chars(s)), "\n"), ls.join("\n"));
    }
}

#[test]
fn pieces_joined_by_the_separator_give_the_text_back() {
    for s in SAMPLES {
        for sep in [',', ':', '/', '\n', ' '] {
            let parts = split(&chars(s), sep);
            assert_eq!(join(&parts, &sep.to_string()), s);
            assert!(parts.iter().all(|p| !p.contains(&sep)));
        }
    }
}

#[test]
fn trimming_twice_is_trimming_once() {
    for s in SAMPLES {
        let once = trim(&chars(s));
        assert_eq!(trim(&once), once);
        assert!(once.first().map_or(true, |c| !whitespace(*c)));
        assert!(once.last().map_or(true, |c| !whitespace(*c)));
    }
}

#[test]
fn words_are_not_empty_and_hold_no_white_space() {
    for s in SAMPLES {
        for word in split_whitespace(&chars(s)) {
            assert!(!word.is_empty());
            assert!(word.iter().all(|c| !whitespace(*c)));
        }
    }
}

#[test]
fn lines_hold_no_line_feed() {
    for s in SAMPLES {
        for line in lines(&chars(s)) {
            assert!(!line.contains(&'\n'));
        }
    }
}
