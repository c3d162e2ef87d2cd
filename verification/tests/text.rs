use minhypr::text::{
    chars_of, contains, cut, find_char, matches_at, replace_char, split_spans, tail_of, trim_span,
    trimmed, white_space, Strip,
};

fn chars(text: &str) -> Vec<char> {
    text.chars().collect()
}

#[test]
fn chars_of_lists_every_character_in_order() {
    assert_eq!(chars_of("a\u{f066f}b"), vec!['a', '\u{f066f}', 'b']);
    assert_eq!(chars_of(""), Vec::<char>::new());
}

#[test]
fn cut_counts_characters_not_bytes() {
    let text = "\u{f066f}xy\u{e9}z";
    let all = chars_of(text);
    assert_eq!(cut(text, &all, 1, 4), "xy\u{e9}");
    assert_eq!(cut(text, &all, 0, 0), "");
    assert_eq!(cut(text, &all, 0, 5), text);
}

#[test]
fn find_char_gives_the_first_occurrence_in_the_span() {
    let text = chars("a:b:c");
    assert_eq!(find_char(&text, 0, 5, ':'), 1);
    assert_eq!(find_char(&text, 2, 5, ':'), 3);
    assert_eq!(find_char(&text, 4, 5, ':'), 5);
    assert_eq!(find_char(&text, 2, 2, ':'), 2);
}

#[test]
fn trim_span_takes_white_space_off_both_ends() {
    let text = chars(" \t hello world\n ");
    assert_eq!(trim_span(&text, 0, text.len(), Strip::WhiteSpace), (3, 14));
}

#[test]
fn trim_span_of_white_space_only_is_empty() {
    let text = chars(" \u{a0}\t");
    let (lo, hi) = trim_span(&text, 0, text.len(), Strip::WhiteSpace);
    assert_eq!(lo, hi);
}

#[test]
fn trim_span_takes_every_quote_off_both_ends() {
    let text = chars("\"\"a\"b\"\"\"");
    assert_eq!(trim_span(&text, 0, text.len(), Strip::Quotes), (2, 5));
}

#[test]
fn trim_span_leaves_inner_white_space() {
    let text = chars("a b");
    assert_eq!(trim_span(&text, 0, 3, Strip::WhiteSpace), (0, 3));
}

#[test]
fn split_spans_cuts_at_every_separator() {
    let text = chars("a,bc,,d");
    assert_eq!(split_spans(&text, 0, text.len(), ','), vec![(0, 1), (2, 4), (5, 5), (6, 7)]);
}

#[test]
fn split_spans_of_a_text_without_separator_is_one_piece() {
    let text = chars("abc");
    assert_eq!(split_spans(&text, 0, 3, ','), vec![(0, 3)]);
}

#[test]
fn split_spans_of_the_empty_text_is_one_empty_piece() {
    let text = chars("");
    assert_eq!(split_spans(&text, 0, 0, ','), vec![(0, 0)]);
}

#[test]
fn split_spans_keeps_the_empty_piece_after_a_last_separator() {
    let text = chars("a,");
    assert_eq!(split_spans(&text, 0, 2, ','), vec![(0, 1), (2, 2)]);
}

#[test]
fn contains_finds_a_part_anywhere() {
    assert!(contains(&chars("org.mozilla.firefox"), &chars("firefox")));
    assert!(contains(&chars("firefox"), &chars("firefox")));
    assert!(contains(&chars("xfirefoxy"), &chars("fox")));
    assert!(!contains(&chars("firefo"), &chars("firefox")));
    assert!(!contains(&chars("fire fox"), &chars("firefox")));
}

#[test]
fn contains_finds_the_empty_text_everywhere() {
    assert!(contains(&chars("abc"), &chars("")));
    assert!(contains(&chars(""), &chars("")));
    assert!(!contains(&chars(""), &chars("a")));
}

#[test]
fn matches_at_compares_at_one_position() {
    assert!(matches_at(&chars("abcabc"), &chars("bc"), 1));
    assert!(matches_at(&chars("abcabc"), &chars("bc"), 4));
    assert!(!matches_at(&chars("abcabc"), &chars("bc"), 0));
}

#[test]
fn replace_char_replaces_every_occurrence() {
    assert_eq!(replace_char("say \"hi\" now", '"', "\\\""), "say \\\"hi\\\" now");
    assert_eq!(replace_char("\"", '"', "\\\""), "\\\"");
    assert_eq!(replace_char("plain", '"', "\\\""), "plain");
    assert_eq!(replace_char("", '"', "\\\""), "");
    assert_eq!(replace_char("a-b-", '-', ""), "ab");
}

#[test]
fn tail_of_gives_the_last_characters() {
    assert_eq!(tail_of("0x55d0c8a1f2b0", 4), "f2b0");
    assert_eq!(tail_of("0x55d0c8a1f2b0", 8), "c8a1f2b0");
    assert_eq!(tail_of("abc", 4), "abc");
    assert_eq!(tail_of("abcd", 4), "abcd");
    assert_eq!(tail_of("", 4), "");
    assert_eq!(tail_of("abc", 0), "");
}

#[test]
fn white_space_is_what_the_standard_library_takes_for_it() {
    for code in 0..=0x10ffffu32 {
        if let Some(c) = char::from_u32(code) {
            assert_eq!(white_space(c), c.is_whitespace(), "U+{:04X}", code);
            assert_eq!(Strip::WhiteSpace.removes(c), c.is_whitespace(), "U+{:04X}", code);
        }
    }
}

#[test]
fn white_space_holds_the_common_blanks() {
    for c in [' ', '\t', '\n', '\r', '\u{b}', '\u{c}', '\u{a0}', '\u{2003}', '\u{3000}'] {
        assert!(white_space(c), "{:?}", c);
    }
    for c in ['a', '0', '"', '_', '\u{0}', '\u{200b}', '\u{180e}', '\u{feff}'] {
        assert!(!white_space(c), "{:?}", c);
    }
}

#[test]
fn quotes_are_the_double_quote_only() {
    assert!(Strip::Quotes.removes('"'));
    assert!(!Strip::Quotes.removes('\''));
    assert!(!Strip::Quotes.removes(' '));
}

#[test]
fn trimmed_takes_white_space_off_both_ends() {
    assert_eq!(trimmed("  a b \n"), "a b");
    assert_eq!(trimmed("ab"), "ab");
    assert_eq!(trimmed(" \t "), "");
    assert_eq!(trimmed(""), "");
    assert_eq!(trimmed("\u{a0}x\u{3000}"), "x");
    for text in [" a ", "\n\nb", "c\t", " ", "", "d e"] {
        assert_eq!(trimmed(text), text.trim());
    }
}
