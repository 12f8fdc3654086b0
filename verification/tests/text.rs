use zodiac_bot::text::{
    char_is_space, char_lower, chars_of, decimal, digit_text, fold_range, push_decimal,
    starts_with_folded, trim_bounds, word_end,
};

fn chars(s: &str) -> Vec<char> {
    s.chars().collect()
}

fn text(v: &[char]) -> String {
    v.iter().collect()
}

#[test]
fn whitespace_is_the_unicode_white_space_set() {
    let mut c = 0u32;
    while c <= 0x10FFFF {
        if let Some(ch) = char::from_u32(c) {
            assert_eq!(char_is_space(ch), ch.is_whitespace(), "code point {:#x}", c);
        }
        c += 1;
    }
}

#[test]
fn lower_is_ascii_lower_case() {
    let mut c = 0u32;
    while c <= 0x10FFFF {
        if let Some(ch) = char::from_u32(c) {
            assert_eq!(char_lower(ch), ch.to_ascii_lowercase(), "code point {:#x}", c);
        }
        c += 1;
    }
}

#[test]
fn lower_leaves_letters_outside_ascii_alone() {
    assert_eq!(char_lower('A'), 'a');
    assert_eq!(char_lower('Z'), 'z');
    assert_eq!(char_lower('m'), 'm');
    assert_eq!(char_lower('@'), '@');
    assert_eq!(char_lower('['), '[');
    assert_eq!(char_lower('É'), 'É');
    assert_eq!(char_lower('\u{212A}'), '\u{212A}');
}

#[test]
fn chars_of_gives_every_character_in_order() {
    assert_eq!(chars_of(""), Vec::<char>::new());
    assert_eq!(chars_of("leo"), vec!['l', 'e', 'o']);
    assert_eq!(chars_of("a\u{e9}\u{3000}z"), vec!['a', '\u{e9}', '\u{3000}', 'z']);
}

#[test]
fn trim_bounds_agrees_with_trim() {
    let cases = [
        "",
        " ",
        "   \t\n",
        "leo",
        "  leo",
        "leo  ",
        " \t leo \r\n",
        " a b ",
        "\u{3000}virgo\u{a0}",
        "x",
        " x",
        "x ",
    ];
    for case in cases {
        let v = chars(case);
        let (start, end) = trim_bounds(&v);
        assert!(start <= end && end <= v.len());
        assert_eq!(text(&v[start..end]), case.trim(), "case {:?}", case);
    }
}

#[test]
fn trim_bounds_of_blank_text_is_empty() {
    let v = chars(" \t ");
    let (start, end) = trim_bounds(&v);
    assert_eq!(start, end);
}

#[test]
fn fold_range_folds_the_range_only() {
    let v = chars("ABcdEF");
    assert_eq!(fold_range(&v, 1, 5), chars("bcde"));
    assert_eq!(fold_range(&v, 0, 6), chars("abcdef"));
    assert_eq!(fold_range(&v, 3, 3), Vec::<char>::new());
}

#[test]
fn word_end_stops_at_whitespace() {
    let v = chars("~set  Leo");
    assert_eq!(word_end(&v, 1), 4);
    assert_eq!(word_end(&v, 4), 4);
    assert_eq!(word_end(&v, 6), 9);
    assert_eq!(word_end(&v, 9), 9);
    let w = chars("ping");
    assert_eq!(word_end(&w, 0), 4);
}

#[test]
fn starts_with_folded_ignores_ascii_case() {
    assert!(starts_with_folded(&chars("~ping"), &chars("~")));
    assert!(starts_with_folded(&chars("BOT ping"), &chars("bot ")));
    assert!(starts_with_folded(&chars("bot ping"), &chars("BoT ")));
    assert!(starts_with_folded(&chars("anything"), &chars("")));
    assert!(!starts_with_folded(&chars("!ping"), &chars("~")));
    assert!(!starts_with_folded(&chars("b"), &chars("bot")));
    assert!(!starts_with_folded(&chars(""), &chars("~")));
}

#[test]
fn decimal_is_the_usual_notation() {
    assert_eq!(decimal(0), "0");
    assert_eq!(decimal(7), "7");
    assert_eq!(decimal(10), "10");
    assert_eq!(decimal(42), "42");
    assert_eq!(decimal(1000), "1000");
    assert_eq!(decimal(123456789012345678), "123456789012345678");
    assert_eq!(decimal(u64::MAX), "18446744073709551615");
    let mut n = 1u64;
    while n < u64::MAX / 7 {
        assert_eq!(decimal(n), n.to_string());
        n = n * 7 + 3;
    }
}

#[test]
fn push_decimal_appends() {
    let mut s = String::from("<@");
    push_decimal(&mut s, 905);
    assert_eq!(s, "<@905");
}

#[test]
fn digit_text_is_one_digit() {
    let digits = ["0", "1", "2", "3", "4", "5", "6", "7", "8", "9"];
    for d in 0..10u64 {
        assert_eq!(digit_text(d), digits[d as usize]);
    }
}
