use powerline::text::{
    blank, chars_of, digit, find, is_whitespace, push_decimal, read_unsigned, spells, string_of,
    trim_bounds,
};

fn chars(s: &str) -> Vec<char> {
    s.chars().collect()
}

#[test]
fn push_decimal_appends_digits() {
    let mut s = String::from("n=");
    push_decimal(&mut s, 0);
    assert_eq!(s, "n=0");
    let mut s = String::new();
    push_decimal(&mut s, 9);
    push_decimal(&mut s, 10);
    push_decimal(&mut s, 1234567890);
    assert_eq!(s, "9101234567890");
}

#[test]
fn push_decimal_of_largest_number() {
    let mut s = String::new();
    push_decimal(&mut s, usize::MAX);
    assert_eq!(s, usize::MAX.to_string());
}

#[test]
fn chars_of_gives_every_character() {
    assert_eq!(chars_of(""), Vec::<char>::new());
    assert_eq!(chars_of("a\u{2605}b"), vec!['a', '\u{2605}', 'b']);
}

#[test]
fn string_of_takes_a_range() {
    let v = chars("hello world");
    assert_eq!(string_of(&v, 6, 11), "world");
    assert_eq!(string_of(&v, 0, 5), "hello");
    assert_eq!(string_of(&v, 11, 11), "");
}

#[test]
fn spells_compares_whole_words() {
    assert!(spells(&chars("path_bg"), "path_bg"));
    assert!(!spells(&chars("path_b"), "path_bg"));
    assert!(!spells(&chars("path_bgx"), "path_bg"));
    assert!(!spells(&chars("path_fg"), "path_bg"));
    assert!(spells(&chars(""), ""));
    assert!(!spells(&chars(""), "a"));
    assert!(!spells(&chars("a"), ""));
}

#[test]
fn is_whitespace_follows_unicode() {
    for c in [' ', '\t', '\n', '\r', '\u{b}', '\u{c}', '\u{85}', '\u{a0}', '\u{1680}', '\u{2000}',
        '\u{200a}', '\u{2028}', '\u{2029}', '\u{202f}', '\u{205f}', '\u{3000}']
    {
        assert!(is_whitespace(c));
        assert!(c.is_whitespace());
    }
    for c in ['a', '=', '#', '\u{8}', '\u{e}', '\u{200b}', '\u{180e}', '\u{feff}', '\u{2605}'] {
        assert!(!is_whitespace(c));
        assert!(!c.is_whitespace());
    }
}

#[test]
fn is_whitespace_agrees_with_std_everywhere() {
    let mut code: u32 = 0;
    while code <= 0x10FFFF {
        if let Some(c) = char::from_u32(code) {
            assert_eq!(is_whitespace(c), c.is_whitespace());
        }
        code += 1;
    }
}

#[test]
fn blank_ranges() {
    let v = chars("  \t a ");
    assert!(blank(&v, 0, 4));
    assert!(!blank(&v, 0, 5));
    assert!(blank(&v, 5, 6));
    assert!(blank(&v, 2, 2));
}

#[test]
fn trim_bounds_cuts_both_ends() {
    let v = chars("  name \t");
    assert_eq!(trim_bounds(&v, 0, v.len()), (2, 6));
    let v = chars("name");
    assert_eq!(trim_bounds(&v, 0, 4), (0, 4));
    let v = chars("a b");
    assert_eq!(trim_bounds(&v, 0, 3), (0, 3));
}

#[test]
fn trim_bounds_of_blank_range_is_empty() {
    let v = chars("x   y");
    let (from, to) = trim_bounds(&v, 1, 4);
    assert_eq!(from, to);
    let (from, to) = trim_bounds(&v, 2, 2);
    assert_eq!((from, to), (2, 2));
}

#[test]
fn find_first_occurrence() {
    assert_eq!(find(&chars("a=b=c"), '='), 1);
    assert_eq!(find(&chars("=x"), '='), 0);
    assert_eq!(find(&chars("abc"), '='), 3);
    assert_eq!(find(&chars(""), '='), 0);
}

#[test]
fn digit_values() {
    assert_eq!(digit('0', 10), Some(0));
    assert_eq!(digit('9', 10), Some(9));
    assert_eq!(digit('a', 10), None);
    assert_eq!(digit('a', 16), Some(10));
    assert_eq!(digit('F', 16), Some(15));
    assert_eq!(digit('g', 16), None);
    assert_eq!(digit('z', 36), Some(35));
    assert_eq!(digit('/', 10), None);
    assert_eq!(digit(':', 16), None);
    assert_eq!(digit('\u{663}', 10), None);
}

#[test]
fn read_unsigned_decimal() {
    let v = chars("255");
    assert_eq!(read_unsigned(&v, 0, 3, 10, 255), Some(255));
    let v = chars("256");
    assert_eq!(read_unsigned(&v, 0, 3, 10, 255), None);
    let v = chars("0000012");
    assert_eq!(read_unsigned(&v, 0, 7, 10, 255), Some(12));
    let v = chars("+7");
    assert_eq!(read_unsigned(&v, 0, 2, 10, 255), Some(7));
}

#[test]
fn read_unsigned_rejects_what_is_no_number() {
    for text in ["", "+", "-1", "1 2", "12a", "++1", "0x10", "1.5"] {
        let v = chars(text);
        assert_eq!(read_unsigned(&v, 0, v.len(), 10, 255), None);
        assert!(text.parse::<u8>().is_err());
    }
}

#[test]
fn read_unsigned_hexadecimal() {
    let v = chars("2605");
    assert_eq!(read_unsigned(&v, 0, 4, 16, u32::MAX), Some(0x2605));
    let v = chars("fFfFfFfF");
    assert_eq!(read_unsigned(&v, 0, 8, 16, u32::MAX), Some(u32::MAX));
    let v = chars("100000000");
    assert_eq!(read_unsigned(&v, 0, 9, 16, u32::MAX), None);
    let v = chars("e0a0");
    assert_eq!(read_unsigned(&v, 0, 4, 16, u32::MAX), Some(0xe0a0));
}

#[test]
fn read_unsigned_agrees_with_std() {
    for text in ["0", "9", "10", "99", "100", "199", "200", "249", "250", "255", "256", "260", "300",
        "999", "1000", "+0", "+255", "+256", "00255", "4294967295", "4294967296", "99999999999"]
    {
        let v = chars(text);
        assert_eq!(read_unsigned(&v, 0, v.len(), 10, 255), text.parse::<u8>().ok().map(u32::from));
        assert_eq!(read_unsigned(&v, 0, v.len(), 10, u32::MAX), text.parse::<u32>().ok());
        assert_eq!(
            read_unsigned(&v, 0, v.len(), 16, u32::MAX),
            u32::from_str_radix(text, 16).ok()
        );
    }
}

#[test]
fn read_unsigned_reads_the_range_only() {
    let v = chars("a=12,b");
    assert_eq!(read_unsigned(&v, 2, 4, 10, 255), Some(12));
    assert_eq!(read_unsigned(&v, 2, 5, 10, 255), None);
}
