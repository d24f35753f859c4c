use rust_wintun::text::{
    chars_of, contains_within, decimal_of, first_word_within, lines, matches_at,
    parse_i32, parse_u32, push_decimal, split, string_of, trim_within,
};

fn text_chars(text: &str) -> Vec<char> {
    text.chars().collect()
}

#[test]
fn characters_and_strings_convert_both_ways() {
    assert_eq!(chars_of("añ😀"), vec!['a', 'ñ', '😀']);
    assert_eq!(chars_of(""), Vec::<char>::new());
    assert_eq!(string_of(&['a', 'ñ', '😀']), "añ😀");
    assert_eq!(string_of(&[]), "");
    assert_eq!(string_of(&chars_of("héllo wörld")), "héllo wörld");
}

#[test]
fn split_cuts_at_each_separator() {
    assert_eq!(split(&text_chars("a&bc&"), '&'), vec![(0, 1), (2, 4), (5, 5)]);
    assert_eq!(split(&text_chars(""), '&'), vec![(0, 0)]);
    assert_eq!(split(&text_chars("&"), '&'), vec![(0, 0), (1, 1)]);
    assert_eq!(split(&text_chars("abc"), '&'), vec![(0, 3)]);
    assert_eq!(split(&text_chars("&&x"), '&'), vec![(0, 0), (1, 1), (2, 3)]);
}

#[test]
fn lines_end_at_line_feeds() {
    assert_eq!(lines(&text_chars("ab\ncd")), vec![(0, 2), (3, 5)]);
    assert_eq!(lines(&text_chars("ab\r\ncd\r\n")), vec![(0, 2), (4, 6)]);
    assert_eq!(lines(&text_chars("")), vec![]);
    assert_eq!(lines(&text_chars("\n")), vec![(0, 0)]);
    assert_eq!(lines(&text_chars("\n\n")), vec![(0, 0), (1, 1)]);
    assert_eq!(lines(&text_chars("a\r")), vec![(0, 2)]);
    assert_eq!(lines(&text_chars("a\r\r\n")), vec![(0, 2)]);
    assert_eq!(lines(&text_chars("\r\n")), vec![(0, 0)]);
    assert_eq!(lines(&text_chars("x\n\r")), vec![(0, 1), (2, 3)]);
}

#[test]
fn lines_agree_with_the_standard_library() {
    let samples = ["", "a", "a\n", "a\nb", "a\r\nb\r\n", "\r", "a\r", "\n\n\n", "a\n\rb", "é\r\n\r\nz\r"];
    for sample in samples {
        let chars = text_chars(sample);
        let cut: Vec<String> =
            lines(&chars).iter().map(|&(from, to)| chars[from..to].iter().collect()).collect();
        let expected: Vec<String> = sample.lines().map(|line| line.to_string()).collect();
        assert_eq!(cut, expected);
    }
}

#[test]
fn trim_takes_whitespace_from_both_ends() {
    let chars = text_chars("  a b \t\r\n");
    assert_eq!(trim_within(&chars, 0, chars.len()), (2, 5));
    assert_eq!(trim_within(&chars, 3, 5), (4, 5));
    assert_eq!(trim_within(&chars, 5, chars.len()), (5, 5));
    let blank = text_chars(" \u{a0}\u{3000} ");
    assert_eq!(trim_within(&blank, 0, blank.len()), (0, 0));
    assert_eq!(trim_within(&[], 0, 0), (0, 0));
    let plain = text_chars("x");
    assert_eq!(trim_within(&plain, 0, 1), (0, 1));
}

#[test]
fn trim_agrees_with_the_standard_library() {
    for sample in ["", " ", "a", " a", "a ", "\n\ta b\u{2003}", "\u{feff}x ", "  \u{85}y\u{85}"] {
        let chars = text_chars(sample);
        let (from, to) = trim_within(&chars, 0, chars.len());
        let trimmed: String = chars[from..to].iter().collect();
        assert_eq!(trimmed, sample.trim());
    }
}

#[test]
fn first_word_is_the_first_run_without_whitespace() {
    let chars = text_chars("  12  ab");
    assert_eq!(first_word_within(&chars, 0, chars.len()), Some((2, 4)));
    assert_eq!(first_word_within(&chars, 4, chars.len()), Some((6, 8)));
    assert_eq!(first_word_within(&chars, 4, 6), None);
    assert_eq!(first_word_within(&chars, 3, 4), Some((3, 4)));
    assert_eq!(first_word_within(&[], 0, 0), None);
}

#[test]
fn substring_is_found_where_it_stands() {
    let hay = text_chars("connected RustTun");
    assert!(contains_within(&hay, 0, hay.len(), &text_chars("RustTun")));
    assert!(contains_within(&hay, 0, hay.len(), &text_chars("")));
    assert!(contains_within(&hay, 0, hay.len(), &text_chars("connected RustTun")));
    assert!(!contains_within(&hay, 0, hay.len(), &text_chars("connected RustTun ")));
    assert!(!contains_within(&hay, 0, hay.len() - 1, &text_chars("RustTun")));
    assert!(!contains_within(&hay, 11, hay.len(), &text_chars("RustTun")));
    assert!(contains_within(&hay, 10, hay.len(), &text_chars("RustTun")));
    assert!(contains_within(&hay, 5, 5, &text_chars("")));
    assert!(!contains_within(&hay, 5, 5, &text_chars("c")));
    assert!(matches_at(&hay, &text_chars("Rust"), 10));
    assert!(!matches_at(&hay, &text_chars("Rust"), 9));
    assert!(!matches_at(&hay, &text_chars("Tunnel"), 14));
    assert!(matches_at(&hay, &text_chars(""), hay.len()));
    assert!(!matches_at(&hay, &text_chars(""), hay.len() + 1));
}

#[test]
fn unsigned_numbers_are_read() {
    assert_eq!(parse_u32(&text_chars("0")), Some(0));
    assert_eq!(parse_u32(&text_chars("34")), Some(34));
    assert_eq!(parse_u32(&text_chars("+34")), Some(34));
    assert_eq!(parse_u32(&text_chars("0034")), Some(34));
    assert_eq!(parse_u32(&text_chars("4294967295")), Some(4294967295));
    assert_eq!(parse_u32(&text_chars("4294967296")), None);
    assert_eq!(parse_u32(&text_chars("42949672950")), None);
    assert_eq!(parse_u32(&text_chars("")), None);
    assert_eq!(parse_u32(&text_chars("+")), None);
    assert_eq!(parse_u32(&text_chars("-1")), None);
    assert_eq!(parse_u32(&text_chars("++1")), None);
    assert_eq!(parse_u32(&text_chars("1_000")), None);
    assert_eq!(parse_u32(&text_chars(" 1")), None);
    assert_eq!(parse_u32(&text_chars("1 ")), None);
    assert_eq!(parse_u32(&text_chars("\u{663}")), None);
}

#[test]
fn numbers_are_read_as_the_standard_library_reads_them() {
    let samples = [
        "", "+", "-", "0", "-0", "+0", "12", "-12", "+12", "2147483647", "2147483648",
        "-2147483648", "-2147483649", "4294967295", "4294967296", "00000000000001", "1a", "a1",
        "1 ", "١٢", "1.5", "--1", "+-1", "９",
    ];
    for sample in samples {
        assert_eq!(parse_u32(&text_chars(sample)), sample.parse::<u32>().ok());
        assert_eq!(parse_i32(&text_chars(sample)), sample.parse::<i32>().ok());
    }
}

#[test]
fn numbers_are_written_in_decimal() {
    assert_eq!(decimal_of(0), vec!['0']);
    assert_eq!(decimal_of(7), vec!['7']);
    assert_eq!(decimal_of(10), vec!['1', '0']);
    assert_eq!(string_of(&decimal_of(4294967295)), "4294967295");
    let mut out = vec!['#'];
    push_decimal(120, &mut out);
    assert_eq!(out, vec!['#', '1', '2', '0']);
    for n in [0u32, 1, 9, 10, 99, 100, 65535, 1000000007, u32::MAX] {
        assert_eq!(string_of(&decimal_of(n)), n.to_string());
        assert_eq!(parse_u32(&decimal_of(n)), Some(n));
    }
}
