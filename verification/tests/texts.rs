use bol_scraper_empire::number::{float_literal, parse_u64, parse_usize};
use bol_scraper_empire::text::{
    append_decimal, chars_of, contains_char, is_text, replace_char, same_text, slice_of, split,
    string_of, strip_prefix, trim, white_space,
};

fn chars(s: &str) -> Vec<char> {
    s.chars().collect()
}

fn text(v: &Vec<char>) -> String {
    v.iter().collect()
}

#[test]
fn strings_and_characters_convert_both_ways() {
    assert_eq!(chars_of("a\u{e9}\u{20ac}z"), vec!['a', '\u{e9}', '\u{20ac}', 'z']);
    assert_eq!(chars_of(""), Vec::<char>::new());
    assert_eq!(string_of(&vec!['a', '\u{e9}', '\u{20ac}', 'z']), "a\u{e9}\u{20ac}z");
    assert_eq!(string_of(&Vec::new()), "");
}

#[test]
fn splitting_keeps_empty_pieces() {
    let pieces: Vec<String> = split(&chars("https://www.bol.com/nl/"), '/').iter().map(text).collect();
    assert_eq!(pieces, vec!["https:", "", "www.bol.com", "nl", ""]);
    let pieces: Vec<String> = split(&chars(""), '.').iter().map(text).collect();
    assert_eq!(pieces, vec![""]);
    let pieces: Vec<String> = split(&chars("abc"), '.').iter().map(text).collect();
    assert_eq!(pieces, vec!["abc"]);
    let pieces: Vec<String> = split(&chars(".."), '.').iter().map(text).collect();
    assert_eq!(pieces, vec!["", "", ""]);
    for s in ["a.b", ".a", "a.", "1.2.3", "...", "x"] {
        let ours: Vec<String> = split(&chars(s), '.').iter().map(text).collect();
        let theirs: Vec<String> = s.split('.').map(String::from).collect();
        assert_eq!(ours, theirs);
    }
}

#[test]
fn trimming_removes_white_space_at_both_ends() {
    assert_eq!(text(&trim(&chars("  a b \t\n"))), "a b");
    assert_eq!(text(&trim(&chars(" \u{a0}\u{3000}x\u{2003}\u{85}"))), "x");
    assert_eq!(text(&trim(&chars("   "))), "");
    assert_eq!(text(&trim(&chars(""))), "");
    assert_eq!(text(&trim(&chars("x"))), "x");
    // A zero-width space is no white space.
    assert_eq!(text(&trim(&chars("\u{200b}x\u{200b}"))), "\u{200b}x\u{200b}");
    for s in [" a ", "\u{1680}b\u{2028}", "\u{feff}c", "\u{202f}d\u{205f}", "\u{b}e\u{c}\r"] {
        assert_eq!(text(&trim(&chars(s))), s.trim());
    }
}

#[test]
fn white_space_is_what_the_standard_says() {
    for code in 0..0x3100u32 {
        if let Some(c) = char::from_u32(code) {
            assert_eq!(white_space(c), c.is_whitespace(), "U+{:04X}", code);
        }
    }
}

#[test]
fn small_helpers() {
    assert!(same_text(&chars("abc"), &chars("abc")));
    assert!(!same_text(&chars("abc"), &chars("abd")));
    assert!(!same_text(&chars("abc"), &chars("ab")));
    assert!(is_text(&chars("www"), "www"));
    assert!(!is_text(&chars("www"), "ww"));
    assert!(contains_char(&chars("a?b"), '?'));
    assert!(!contains_char(&chars("ab"), '?'));
    assert_eq!(text(&slice_of(&chars("hello"), 1, 3)), "el");
    assert_eq!(text(&slice_of(&chars("hello"), 2, 2)), "");
    assert_eq!(text(&replace_char(&chars("1.299,50,"), ',', '.')), "1.299.50.");
    assert_eq!(strip_prefix(&chars("v1.2"), &chars("v")).map(|r| text(&r)), Some("1.2".to_string()));
    assert_eq!(strip_prefix(&chars("1.2"), &chars("v")), None);
    assert_eq!(strip_prefix(&chars(""), &chars("v")), None);
    assert_eq!(strip_prefix(&chars("v"), &chars("")).map(|r| text(&r)), Some("v".to_string()));
}

#[test]
fn numbers_are_written_in_decimal() {
    for (n, expected) in [(0u64, "0"), (7, "7"), (10, "10"), (909, "909"), (u64::MAX, "18446744073709551615")] {
        let mut s = String::from("n=");
        append_decimal(&mut s, n);
        assert_eq!(s, format!("n={}", expected));
        assert_eq!(&s[2..], n.to_string());
    }
}

#[test]
fn unsigned_numbers_are_read_as_the_standard_reads_them() {
    for s in [
        "0", "7", "007", "+7", "+", "", "-7", "-0", "++7", "7+", " 7", "7 ", "1_000", "0x10", "1e3", "1.0",
        "18446744073709551615", "18446744073709551616", "99999999999999999999999", "\u{663}", "12ab",
    ] {
        assert_eq!(parse_u64(&chars(s)), s.parse::<u64>().ok(), "{:?}", s);
        assert_eq!(parse_usize(&chars(s)), s.parse::<usize>().ok(), "{:?}", s);
    }
    assert_eq!(parse_u64(&chars("42")), Some(42));
    assert_eq!(parse_usize(&chars("+0042")), Some(42));
}

#[test]
fn float_literals_are_what_the_standard_parses() {
    for s in [
        "0", "1", "12.99", "12.", ".5", ".", "", "+", "-", "+1", "-1", "+.5", "-0.", "1e5", "1E5", "1e+5",
        "1e-5", "1e", "1e+", "e5", ".e5", "1.e5", ".5e5", "1.5e5x", "1..5", "1.5.", "1,5", " 1", "1 ",
        "inf", "INF", "Inf", "+inf", "-infinity", "infinit", "infinityy", "nan", "NaN", "-nan", "na",
        "nanx", "1.299.00", "0x10", "1_0", "1f", "٣", "12.99€", "++1", "+-1", "1e5.0", "1e5e5",
        "00012.500", "1e00005", "iNfInItY", "n", "i", "in", "infi",
    ] {
        assert_eq!(float_literal(&chars(s)), s.parse::<f64>().is_ok(), "{:?}", s);
    }
}
