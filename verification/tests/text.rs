use auto_prompt::numbers::{decimal, parse_unsigned};
use auto_prompt::segments::{join, lines, paragraphs, replace, split, words};
use auto_prompt::text::{
    ascii_lower, blank, byte_len, chars_of, contains, ends_with, find, is_ascii_word,
    is_white_space_char, rfind, starts_with, strip_prefix, to_ascii_lowercase, trim,
    trim_end, trim_end_char, trim_start, trim_start_char,
};

const SAMPLES: [&str; 14] = [
    "",
    " ",
    "\n",
    "plain",
    "  padded\t\r\n",
    "a\nb\r\nc\n",
    "a\r\r\nb",
    "\n\nblank\n\nlines\n\n\n",
    "日本語 テスト",
    "\u{a0}nbsp\u{2003}",
    "aaa",
    "x--y---z",
    "trailing\r",
    "Mixed CASE Ünïcode",
];

#[test]
fn whitespace_is_that_of_unicode() {
    for code in 0..=0x10ffffu32 {
        if let Some(c) = char::from_u32(code) {
            assert_eq!(is_white_space_char(c), c.is_whitespace(), "{code:x}");
            assert_eq!(is_ascii_word(c), c.is_ascii_alphanumeric(), "{code:x}");
            assert_eq!(ascii_lower(c), c.to_ascii_lowercase(), "{code:x}");
        }
    }
}

#[test]
fn trimming_agrees_with_the_standard_library() {
    for s in SAMPLES {
        assert_eq!(trim(s), s.trim());
        assert_eq!(trim_start(s), s.trim_start());
        assert_eq!(trim_end(s), s.trim_end());
        assert_eq!(blank(s), s.trim().is_empty());
        assert_eq!(trim_start_char(s, '\n'), s.trim_start_matches('\n'));
        assert_eq!(trim_end_char(s, 'a'), s.trim_end_matches('a'));
    }
}

#[test]
fn searching_agrees_with_the_standard_library() {
    for s in SAMPLES {
        for p in ["", "a", "aa", "\n", "--", "テスト", "zzz", " "] {
            assert_eq!(contains(s, p), s.contains(p));
            assert_eq!(starts_with(s, p), s.starts_with(p));
            assert_eq!(ends_with(s, p), s.ends_with(p));
            assert_eq!(strip_prefix(s, p), s.strip_prefix(p));
            let position = |byte: usize| s[..byte].chars().count();
            assert_eq!(find(s, p), s.find(p).map(position));
            assert_eq!(rfind(s, p), s.rfind(p).map(position));
        }
    }
}

#[test]
fn splitting_agrees_with_the_standard_library() {
    for s in SAMPLES {
        assert_eq!(lines(s), s.lines().collect::<Vec<_>>());
        assert_eq!(words(s), s.split_whitespace().collect::<Vec<_>>());
        for p in ["a", "\n\n", "--", " "] {
            assert_eq!(split(s, p), s.split(p).collect::<Vec<_>>());
            assert_eq!(replace(s, p, "<>"), s.replace(p, "<>"));
        }
    }
    assert_eq!(join(&vec!["a", "", "b"], ", "), "a, , b");
    assert_eq!(paragraphs("\n\n one \n\n\n\ntwo\nlines\n\n "), vec!["one", "two\nlines"]);
}

#[test]
fn characters_and_bytes_are_counted_apart() {
    let s = "日本";
    assert_eq!(chars_of(s), vec!['日', '本']);
    assert_eq!(byte_len(s), 6);
    assert_eq!(to_ascii_lowercase("ÄB c1"), "Äb c1");
}

#[test]
fn numbers_are_written_and_read_in_decimal() {
    for n in [0u64, 7, 10, 99, 100, 16_387, u64::MAX] {
        assert_eq!(decimal(n), n.to_string());
        assert_eq!(parse_unsigned(&n.to_string(), u64::MAX), Some(n));
    }
    for s in ["", "+", "-1", "1 ", " 1", "1.0", "0x10", "٣", "18446744073709551616", "+5", "007"] {
        assert_eq!(parse_unsigned(s, u64::MAX), s.parse::<u64>().ok(), "{s:?}");
        assert_eq!(
            parse_unsigned(s, u32::MAX as u64),
            s.parse::<u32>().ok().map(u64::from),
            "{s:?}"
        );
    }
    assert_eq!(parse_unsigned("4294967295", u32::MAX as u64), Some(4_294_967_295));
    assert_eq!(parse_unsigned("4294967296", u32::MAX as u64), None);
}
