use lds::text::{
    contains_text, count_words, from_chars, is_white_space, last_part, parse_unsigned, same_text,
    strip_extension, to_chars, to_decimal, trim,
};

const SAMPLES: [&str; 10] = [
    "",
    " ",
    "a",
    " a b ",
    "\u{2003}wide\u{a0}space\u{3000}",
    "tabs\tand\nlines\r\n",
    "über — straße",
    "one  two   three",
    "\u{85}x\u{200b}",
    "no-space",
];

#[test]
fn white_space_agrees_with_std() {
    for code in 0..=0x10ffffu32 {
        if let Some(c) = char::from_u32(code) {
            assert_eq!(is_white_space(c), c.is_whitespace(), "{code:x}");
        }
    }
}

#[test]
fn trimming_agrees_with_std() {
    for sample in SAMPLES {
        assert_eq!(trim(sample), sample.trim());
        assert_eq!(trim(&trim(sample)), trim(sample));
    }
}

#[test]
fn words_are_counted_as_std_does() {
    for sample in SAMPLES {
        assert_eq!(count_words(sample), sample.split_whitespace().count());
    }
}

#[test]
fn characters_make_the_text() {
    for sample in SAMPLES {
        let chars = to_chars(sample);
        assert_eq!(chars, sample.chars().collect::<Vec<char>>());
        assert_eq!(from_chars(&chars, 0, chars.len()), sample);
    }
    assert_eq!(from_chars(&['a', 'é', 'c'], 1, 3), "éc");
}

#[test]
fn texts_are_compared() {
    assert!(same_text("", ""));
    assert!(same_text("é", "é"));
    assert!(!same_text("a", "b"));
    assert!(!same_text("a", "ab"));
}

#[test]
fn parts_are_found() {
    assert!(contains_text("hello", "ell"));
    assert!(contains_text("hello", "hello"));
    assert!(contains_text("hello", ""));
    assert!(contains_text("", ""));
    assert!(!contains_text("hello", "elo"));
    assert!(!contains_text("a", "ab"));
    assert!(contains_text("aab", "ab"));
}

#[test]
fn last_parts() {
    assert_eq!(last_part("a_b_c", '_'), "c");
    assert_eq!(last_part("abc", '_'), "abc");
    assert_eq!(last_part("abc_", '_'), "");
    assert_eq!(last_part("", '_'), "");
}

#[test]
fn extensions() {
    assert_eq!(strip_extension("a.b.txt", "txt"), Some("a.b".to_string()));
    assert_eq!(strip_extension(".txt", "txt"), None);
    assert_eq!(strip_extension("txt", "txt"), None);
    assert_eq!(strip_extension("a.txt.gz", "txt"), None);
    assert_eq!(strip_extension("a.TXT", "txt"), None);
    assert_eq!(strip_extension("", "txt"), None);
}

#[test]
fn numbers_are_written_and_read_back() {
    for n in [0u64, 1, 9, 10, 99, 100, 1700000000, u64::MAX - 1, u64::MAX] {
        assert_eq!(to_decimal(n), n.to_string());
        assert_eq!(parse_unsigned(&to_decimal(n)), Some(n));
    }
}

#[test]
fn numbers_are_read_as_std_does() {
    for text in [
        "", "+", "-", "-1", "+5", "++5", "007", "12a", " 1", "18446744073709551615",
        "18446744073709551616", "99999999999999999999999", "٣", "0",
    ] {
        assert_eq!(parse_unsigned(text), text.parse::<u64>().ok(), "{text}");
    }
}
