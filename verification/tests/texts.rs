use smyx::text::{
    chars_of, decimal_string, is_white_space, join2, join3, parse_number, rest_after_last, same,
    split_lines, starts_with, strip_prefix, trim, trim_end_matches, trim_start_matches,
};
use smyx::ui::{fmt_ms, truncate};
use smyx::ui::words::number_field;

const SAMPLES: [&str; 12] = [
    "",
    " ",
    "abc",
    "  abc  ",
    "\t a\u{a0}b \u{2003}\u{3000}",
    "a\nb\r\nc\rd",
    "\n",
    "\r\n\r\n",
    "x\n\ny\n",
    "::a:b:",
    "♪︎ ü",
    "\u{feff}a\u{200b}",
];

#[test]
fn white_space_is_what_it_is_everywhere() {
    for code in 0..=0x10ffffu32 {
        if let Some(c) = char::from_u32(code) {
            assert_eq!(is_white_space(c), c.is_whitespace(), "{code:x}");
        }
    }
}

#[test]
fn trimming_is_the_usual_trimming() {
    for s in SAMPLES {
        assert_eq!(trim(s), s.trim());
        assert_eq!(trim_start_matches(s, ':'), s.trim_start_matches(':'));
        assert_eq!(trim_end_matches(s, ':'), s.trim_end_matches(':'));
    }
}

#[test]
fn lines_are_the_usual_lines() {
    for s in SAMPLES {
        let got: Vec<String> = split_lines(s).into_iter().map(|l| l.into_iter().collect()).collect();
        let want: Vec<&str> = s.lines().collect();
        assert_eq!(got, want);
    }
}

#[test]
fn prefixes_and_rests_are_the_usual_ones() {
    for s in SAMPLES {
        for p in ["", ":", "a", "  a", "♪"] {
            assert_eq!(starts_with(s, p), s.starts_with(p));
            assert_eq!(strip_prefix(s, p).as_deref(), s.strip_prefix(p));
        }
        assert_eq!(rest_after_last(s, ':'), s.rsplit(':').next().unwrap());
        assert_eq!(chars_of(s), s.chars().collect::<Vec<char>>());
        assert!(same(s, s));
        assert!(!same(s, "something else"));
    }
}

#[test]
fn numbers_are_read_as_usual() {
    for s in ["", "0", "007", "+5", "+", "-1", "4294967295", "4294967296", "12a", " 1", "１", "99999999999"] {
        let v = chars_of(s);
        assert_eq!(parse_number(&v, 0, v.len()), s.parse::<u32>().ok(), "{s}");
    }
}

#[test]
fn numbers_are_written_as_usual() {
    for n in [0u64, 7, 10, 99, 100, 4294967295, u64::MAX] {
        assert_eq!(decimal_string(n), n.to_string());
        assert_eq!(number_field(n, 2), format!("{n:>2}"));
        assert_eq!(number_field(n, 3), format!("{n:>3}"));
    }
}

#[test]
fn texts_are_joined() {
    assert_eq!(join2("a", "b"), "ab");
    assert_eq!(join3("a", "♪", "c"), "a♪c");
}

#[test]
fn long_texts_are_cut() {
    assert_eq!(truncate("hello", 5), "hello");
    assert_eq!(truncate("hello", 4), "hel…");
    assert_eq!(truncate("hello", 1), "…");
    assert_eq!(truncate("hello", 0), "…");
    assert_eq!(truncate("", 0), "");
    assert_eq!(truncate("ääää", 3), "ää…");
}

#[test]
fn times_are_minutes_and_seconds() {
    assert_eq!(fmt_ms(0), "0:00");
    assert_eq!(fmt_ms(999), "0:00");
    assert_eq!(fmt_ms(61_000), "1:01");
    assert_eq!(fmt_ms(600_000), "10:00");
    assert_eq!(fmt_ms(u32::MAX), "71582:47");
}
