use zodiac_bot::sign::{find_sign, normalize, same_chars, InvalidSign, Sign, SIGN_COUNT};

const ALL: [Sign; 12] = [
    Sign::Aries,
    Sign::Taurus,
    Sign::Gemini,
    Sign::Cancer,
    Sign::Leo,
    Sign::Virgo,
    Sign::Libra,
    Sign::Scorpio,
    Sign::Sagittarius,
    Sign::Capricorn,
    Sign::Aquarius,
    Sign::Pisces,
];

#[test]
fn there_are_twelve_signs() {
    assert_eq!(SIGN_COUNT, 12);
    for (i, sign) in ALL.iter().enumerate() {
        assert_eq!(sign.index(), i);
        assert_eq!(Sign::at(i), Some(*sign));
    }
    assert_eq!(Sign::at(12), None);
    assert_eq!(Sign::at(usize::MAX), None);
}

#[test]
fn canonical_names() {
    let names = [
        "aries",
        "taurus",
        "gemini",
        "cancer",
        "leo",
        "virgo",
        "libra",
        "scorpio",
        "sagittarius",
        "capricorn",
        "aquarius",
        "pisces",
    ];
    for (sign, name) in ALL.iter().zip(names) {
        assert_eq!(sign.name(), name);
    }
}

#[test]
fn titles_are_names_with_a_capital_initial() {
    for sign in ALL {
        let name = sign.name();
        let expected = format!("{}{}", name[..1].to_ascii_uppercase(), &name[1..]);
        assert_eq!(sign.title(), expected);
    }
    assert_eq!(Sign::Leo.title(), "Leo");
}

#[test]
fn normalize_accepts_every_casing_and_padding() {
    for sign in ALL {
        let name = sign.name();
        let upper = name.to_ascii_uppercase();
        let mixed: String = name
            .chars()
            .enumerate()
            .map(|(i, c)| if i % 2 == 0 { c.to_ascii_uppercase() } else { c })
            .collect();
        let variants = [
            name.to_string(),
            upper.clone(),
            mixed.clone(),
            sign.title().to_string(),
            format!("  {}", name),
            format!("{}  ", upper),
            format!("\t{}\n", mixed),
            format!("\u{3000}{}\u{a0}", name),
        ];
        for variant in variants {
            assert_eq!(normalize(&variant), Ok(sign), "variant {:?}", variant);
        }
    }
}

#[test]
fn normalize_is_idempotent() {
    for sign in ALL {
        let once = normalize(sign.title()).unwrap();
        let twice = normalize(once.name()).unwrap();
        assert_eq!(once, sign);
        assert_eq!(twice, sign);
    }
}

#[test]
fn normalize_rejects_everything_else() {
    let cases = [
        "",
        " ",
        "le",
        "leoo",
        "l eo",
        "leo.",
        "the leo",
        "leo virgo",
        "ophiuchus",
        "lion",
        "pisce",
        "ariess",
        "çancer",
        "le\u{f6}",
        "12",
        "default",
    ];
    for case in cases {
        assert_eq!(normalize(case), Err(InvalidSign { raw: case.to_string() }), "case {:?}", case);
    }
}

#[test]
fn invalid_sign_carries_the_text_as_given() {
    let e = normalize("  Not A Sign  ").unwrap_err();
    assert_eq!(e.raw, "  Not A Sign  ");
}

#[test]
fn normalize_folds_ascii_case_only() {
    // U+212A KELVIN SIGN lower-cases to `k` in Unicode, but is no ASCII letter.
    assert!(normalize("\u{212A}").is_err());
    // U+0130 is a capital I with dot above.
    assert!(normalize("p\u{130}sces").is_err());
}

#[test]
fn from_name_is_exact() {
    for sign in ALL {
        assert_eq!(Sign::from_name(sign.name()), Some(sign));
        assert_eq!(Sign::from_name(sign.title()), None);
    }
    assert_eq!(Sign::from_name(" leo"), None);
    assert_eq!(Sign::from_name(""), None);
}

#[test]
fn find_sign_looks_the_key_up() {
    let key: Vec<char> = "scorpio".chars().collect();
    assert_eq!(find_sign(&key), Some(Sign::Scorpio));
    let other: Vec<char> = "Scorpio".chars().collect();
    assert_eq!(find_sign(&other), None);
}

#[test]
fn same_chars_compares_texts() {
    let a: Vec<char> = "leo".chars().collect();
    let b: Vec<char> = "leo".chars().collect();
    let c: Vec<char> = "lea".chars().collect();
    let d: Vec<char> = "le".chars().collect();
    assert!(same_chars(&a, &b));
    assert!(!same_chars(&a, &c));
    assert!(!same_chars(&a, &d));
    assert!(same_chars(&Vec::new(), &Vec::new()));
}
