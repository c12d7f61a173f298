use led_blinker::text::{
    char_is_whitespace, chars_of, contains_text, find_class, find_in, matches_at, parse_u32_in,
    rfind_class, starts_with_trimmed, CharClass,
};

fn chars(s: &str) -> Vec<char> {
    s.chars().collect()
}

/// The character index that corresponds to a byte index of `s`.
fn char_index(s: &str, byte_index: usize) -> usize {
    s[..byte_index].chars().count()
}

#[test]
fn chars_of_keeps_every_character() {
    assert_eq!(chars_of(""), Vec::<char>::new());
    assert_eq!(chars_of("a\"b"), vec!['a', '"', 'b']);
    assert_eq!(chars_of("né\u{3000}"), vec!['n', 'é', '\u{3000}']);
}

#[test]
fn whitespace_is_the_unicode_property() {
    let mut c: u32 = 0;
    while c <= 0x10FFFF {
        if let Some(ch) = char::from_u32(c) {
            assert_eq!(char_is_whitespace(ch), ch.is_whitespace(), "U+{:04X}", c);
        }
        c += 1;
    }
}

#[test]
fn char_class_membership() {
    assert!(CharClass::Exactly('"').test('"'));
    assert!(!CharClass::Exactly('"').test('\''));
    assert!(CharClass::Whitespace.test('\t'));
    assert!(!CharClass::Whitespace.test('x'));
    assert!(CharClass::NotWhitespace.test('x'));
    assert!(!CharClass::NotWhitespace.test(' '));
}

#[test]
fn find_class_gives_the_first_index() {
    let s = chars("ab \"cd\" e");
    assert_eq!(find_class(&s, CharClass::Exactly('"'), 0), Some(3));
    assert_eq!(find_class(&s, CharClass::Exactly('"'), 3), Some(3));
    assert_eq!(find_class(&s, CharClass::Exactly('"'), 4), Some(6));
    assert_eq!(find_class(&s, CharClass::Exactly('"'), 7), None);
    assert_eq!(find_class(&s, CharClass::Whitespace, 0), Some(2));
    assert_eq!(find_class(&s, CharClass::NotWhitespace, 2), Some(3));
    assert_eq!(find_class(&s, CharClass::Exactly('a'), 100), None);
    assert_eq!(find_class(&chars(""), CharClass::Whitespace, 0), None);
}

#[test]
fn rfind_class_gives_the_last_index() {
    let s = chars("  ab c  ");
    assert_eq!(rfind_class(&s, CharClass::NotWhitespace, s.len()), Some(5));
    assert_eq!(rfind_class(&s, CharClass::NotWhitespace, 5), Some(3));
    assert_eq!(rfind_class(&s, CharClass::NotWhitespace, 2), None);
    assert_eq!(rfind_class(&s, CharClass::NotWhitespace, 0), None);
    assert_eq!(rfind_class(&s, CharClass::Whitespace, s.len()), Some(7));
    assert_eq!(rfind_class(&s, CharClass::Whitespace, s.len() + 1), None);
}

#[test]
fn matches_at_compares_in_place() {
    let hay = chars("method call");
    assert!(matches_at(&hay, 0, &chars("method")));
    assert!(matches_at(&hay, 7, &chars("call")));
    assert!(!matches_at(&hay, 8, &chars("call")));
    assert!(!matches_at(&hay, 1, &chars("method")));
    assert!(matches_at(&hay, 11, &chars("")));
    assert!(!matches_at(&hay, 12, &chars("")));
}

#[test]
fn find_in_agrees_with_str_find() {
    let hays = [
        "",
        "a",
        "aaa",
        "abcabc",
        "string \"x\" string \"y\"",
        "   uint32 42",
        "ééé string é",
        "member=NotificationClosed",
        "aab",
    ];
    let needles = ["", "a", "ab", "abc", "string ", "uint32 ", "é", "member=Notify", "zz", "b"];
    for hay in hays {
        for needle in needles {
            let expected = hay.find(needle).map(|at| char_index(hay, at));
            assert_eq!(
                find_in(&chars(hay), &chars(needle), 0),
                expected,
                "{:?} in {:?}",
                needle,
                hay
            );
            assert_eq!(contains_text(&chars(hay), &chars(needle)), hay.contains(needle));
        }
    }
}

#[test]
fn find_in_starts_where_it_is_told() {
    let hay = chars("abcabc");
    assert_eq!(find_in(&hay, &chars("abc"), 1), Some(3));
    assert_eq!(find_in(&hay, &chars("abc"), 3), Some(3));
    assert_eq!(find_in(&hay, &chars("abc"), 4), None);
    assert_eq!(find_in(&hay, &chars(""), 6), Some(6));
    assert_eq!(find_in(&hay, &chars(""), 7), None);
}

#[test]
fn starts_with_trimmed_agrees_with_trim_and_starts_with() {
    let lines = [
        "",
        "   ",
        "string \"a\"",
        "   string \"a\"",
        "\t string \"a\"  ",
        "   string ",
        "   string",
        "x string \"a\"",
        "\u{3000}string \"a\"\u{a0}",
        " s",
    ];
    let prefixes = ["string ", "string", "", "s", " "];
    for line in lines {
        for prefix in prefixes {
            assert_eq!(
                starts_with_trimmed(&chars(line), &chars(prefix)),
                line.trim().starts_with(prefix),
                "{:?} / {:?}",
                line,
                prefix
            );
        }
    }
}

#[test]
fn parse_u32_agrees_with_str_parse() {
    let texts = [
        "",
        "+",
        "-",
        "0",
        "+0",
        "-0",
        "42",
        "+42",
        "-42",
        "++42",
        "0042",
        "00000000000000000000000042",
        "4294967295",
        "4294967296",
        "+4294967295",
        "99999999999999999999999999",
        "12a",
        "a12",
        " 12",
        "12 ",
        "1_000",
        "１２",
        "٤٢",
        "4 2",
    ];
    for text in texts {
        let v = chars(text);
        assert_eq!(parse_u32_in(&v, 0, v.len()), text.parse::<u32>().ok(), "{:?}", text);
    }
}

#[test]
fn parse_u32_exact_values() {
    let v = chars("xx 4294967295 yy");
    assert_eq!(parse_u32_in(&v, 3, 13), Some(4_294_967_295));
    assert_eq!(parse_u32_in(&v, 3, 12), Some(429_496_729));
    assert_eq!(parse_u32_in(&v, 2, 13), None);
    assert_eq!(parse_u32_in(&v, 5, 5), None);
    assert_eq!(parse_u32_in(&v, 13, 3), None);
    assert_eq!(parse_u32_in(&v, 3, 17), None);
}

#[test]
fn searches_agree_with_std_on_generated_text() {
    let pieces = [" ", "\t", "a", "b", "ab", "\u{e9}", "\u{2003}", "+", "1", "9"];
    let needles = ["", "a", "ab", "ba", " a", "\u{e9}a", "b\u{2003}"];
    let mut state: u64 = 11;
    for _ in 0..5_000 {
        let mut text = String::new();
        state = state.wrapping_mul(6364136223846793005).wrapping_add(1442695040888963407);
        let count = (state >> 33) % 8;
        for _ in 0..count {
            state = state.wrapping_mul(6364136223846793005).wrapping_add(1442695040888963407);
            text.push_str(pieces[((state >> 33) % pieces.len() as u64) as usize]);
        }
        let v = chars(&text);
        for needle in needles {
            let expected = text.find(needle).map(|at| char_index(&text, at));
            assert_eq!(find_in(&v, &chars(needle), 0), expected, "{:?} in {:?}", needle, text);
            assert_eq!(
                starts_with_trimmed(&v, &chars(needle)),
                text.trim().starts_with(needle),
                "{:?} / {:?}",
                text,
                needle
            );
        }
        assert_eq!(
            find_class(&v, CharClass::Whitespace, 0),
            text.find(char::is_whitespace).map(|at| char_index(&text, at))
        );
        assert_eq!(
            rfind_class(&v, CharClass::NotWhitespace, v.len()),
            text.rfind(|c: char| !c.is_whitespace()).map(|at| char_index(&text, at))
        );
        assert_eq!(parse_u32_in(&v, 0, v.len()), text.parse::<u32>().ok(), "{:?}", text);
    }
}
