use bypaxdpi::text::{
    chars_of, contains, equal_ignoring_ascii_case, has_prefix, same_chars, string_of, trimmed,
    white_space,
};

fn chars(s: &str) -> Vec<char> {
    s.chars().collect()
}

#[test]
fn trim_matches_std() {
    for s in ["  a b  ", "\u{3000}x\u{a0}", "", "   ", "\t\r\nq\u{85}", "\u{200b}z"] {
        assert_eq!(trimmed(&chars(s)), chars(s.trim()));
    }
}

#[test]
fn white_space_matches_std() {
    for u in 0u32..0x3100 {
        if let Some(c) = char::from_u32(u) {
            assert_eq!(white_space(c), c.is_whitespace(), "{:x}", u);
        }
    }
}

#[test]
fn search_and_compare() {
    assert!(contains(&chars("hyper-v adapter"), &chars("hyper-v")));
    assert!(contains(&chars("abc"), &chars("")));
    assert!(!contains(&chars("ab"), &chars("abc")));
    assert!(has_prefix(&chars("GET /"), &chars("GET ")));
    assert!(!has_prefix(&chars("GE"), &chars("GET ")));
    assert!(equal_ignoring_ascii_case(&chars("TrUe"), &chars("true")));
    assert!(!equal_ignoring_ascii_case(&chars("trüe"), &chars("TRÜE")));
    assert!(same_chars(&chars("x"), &chars("x")));
    assert_eq!(string_of(&chars_of("ağ")), "ağ");
}
