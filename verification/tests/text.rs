use vxug_scraper::text::{
    contains_text, from_chars, is_space_char, parse_u64, same_text, split_lines, split_pieces,
    split_words, to_chars, trim_spaces,
};

#[test]
fn characters_go_there_and_back() {
    assert_eq!(to_chars("aé😀"), vec!['a', 'é', '😀']);
    assert_eq!(from_chars(&vec!['x', 'ÿ']), "xÿ");
    assert_eq!(to_chars(""), Vec::<char>::new());
    assert_eq!(from_chars(&to_chars("héllo wörld")), "héllo wörld");
}

#[test]
fn white_space_is_what_the_standard_library_calls_so() {
    let mut code = 0u32;
    while code <= 0x10FFFF {
        if let Some(c) = char::from_u32(code) {
            assert_eq!(is_space_char(c), c.is_whitespace(), "U+{:04X}", code);
        }
        code += 1;
    }
}

#[test]
fn words_are_the_runs_between_white_space() {
    assert_eq!(split_words("-x 4 -s 4"), vec!["-x", "4", "-s", "4"]);
    assert_eq!(split_words("  a \t b\n"), vec!["a", "b"]);
    assert_eq!(split_words(""), Vec::<String>::new());
    assert_eq!(split_words(" \u{3000} "), Vec::<String>::new());
    assert_eq!(split_words("one"), vec!["one"]);
    for text in ["--max 5  --min=2", " x", "x ", "a\u{a0}b", "\tlead", "é è"] {
        let expected: Vec<String> = text.split_whitespace().map(|w| w.to_string()).collect();
        assert_eq!(split_words(text), expected);
    }
}

#[test]
fn pieces_are_what_lies_between_separators() {
    assert_eq!(split_pieces("Papers/Windows", '/'), vec!["Papers", "Windows"]);
    assert_eq!(split_pieces("", '/'), vec![""]);
    assert_eq!(split_pieces("/", '/'), vec!["", ""]);
    assert_eq!(split_pieces("a//b/", '/'), vec!["a", "", "b", ""]);
    for text in ["x", "/x", "a/b/c", "//", "é/ü"] {
        let expected: Vec<String> = text.split('/').map(|w| w.to_string()).collect();
        assert_eq!(split_pieces(text, '/'), expected);
    }
}

#[test]
fn lines_end_at_line_feeds() {
    assert_eq!(split_lines("a\nb"), vec!["a", "b"]);
    assert_eq!(split_lines("a\r\nb\r\n"), vec!["a", "b"]);
    assert_eq!(split_lines(""), Vec::<String>::new());
    assert_eq!(split_lines("\n"), vec![""]);
    assert_eq!(split_lines("\n\n"), vec!["", ""]);
    assert_eq!(split_lines("a\rb"), vec!["a\rb"]);
    assert_eq!(split_lines("a\r"), vec!["a\r"]);
    assert_eq!(split_lines("a\r\r\n"), vec!["a\r"]);
    for text in ["x\n\ny", "\r\n", "one", "one\n", "a\n\rb\n", "\n\r"] {
        let expected: Vec<String> = text.lines().map(|w| w.to_string()).collect();
        assert_eq!(split_lines(text), expected, "{:?}", text);
    }
}

#[test]
fn numbers_are_digits_behind_at_most_one_plus() {
    assert_eq!(parse_u64("0"), Some(0));
    assert_eq!(parse_u64("42"), Some(42));
    assert_eq!(parse_u64("+42"), Some(42));
    assert_eq!(parse_u64("007"), Some(7));
    assert_eq!(parse_u64("18446744073709551615"), Some(u64::MAX));
    assert_eq!(parse_u64("18446744073709551616"), None);
    assert_eq!(parse_u64("99999999999999999999999"), None);
    assert_eq!(parse_u64(""), None);
    assert_eq!(parse_u64("+"), None);
    assert_eq!(parse_u64("++1"), None);
    assert_eq!(parse_u64("-1"), None);
    assert_eq!(parse_u64("1 "), None);
    assert_eq!(parse_u64(" 1"), None);
    assert_eq!(parse_u64("1_000"), None);
    assert_eq!(parse_u64("12a"), None);
    assert_eq!(parse_u64("٣"), None);
    for text in ["5", "+0", "0000", "1844674407370955161", "18446744073709551620", "x", "+-1"] {
        assert_eq!(parse_u64(text), text.parse::<u64>().ok(), "{:?}", text);
    }
}

#[test]
fn trimming_takes_the_white_space_at_both_ends() {
    assert_eq!(trim_spaces("  Papers \n"), "Papers");
    assert_eq!(trim_spaces("a b"), "a b");
    assert_eq!(trim_spaces(""), "");
    assert_eq!(trim_spaces(" \t "), "");
    assert_eq!(trim_spaces("\u{a0}x\u{2003}"), "x");
    for text in [" x y ", "x", "\n\nx", "x\r\n", "  "] {
        assert_eq!(trim_spaces(text), text.trim());
    }
}

#[test]
fn texts_are_compared_by_their_characters() {
    assert!(same_text("abc", "abc"));
    assert!(same_text("", ""));
    assert!(!same_text("abc", "abd"));
    assert!(!same_text("abc", "ab"));
    let list = vec!["a".to_string(), "bc".to_string()];
    assert!(contains_text(&list, "bc"));
    assert!(!contains_text(&list, "b"));
    assert!(!contains_text(&Vec::new(), ""));
}
