use telly::text::{
    ends_with_str, first_space_token, last_space_token, parse_u32, str_eq, strip_suffix_str,
    trim_str,
};

#[test]
fn str_eq_compares_characters() {
    assert!(str_eq("", ""));
    assert!(str_eq("ZDF", "ZDF"));
    assert!(!str_eq("ZDF", "ZDf"));
    assert!(!str_eq("ZDF", "ZDF "));
    assert!(str_eq("größer", "größer"));
}

#[test]
fn suffix_stripping() {
    assert!(ends_with_str("ZDF Programm", " Programm"));
    assert!(!ends_with_str("ZDF", " Programm"));
    assert_eq!(strip_suffix_str("ZDF Programm", " Programm"), "ZDF");
    assert_eq!(strip_suffix_str("ZDF", " Programm"), "ZDF");
    assert_eq!(strip_suffix_str(" Programm", " Programm"), "");
}

#[test]
fn first_token_splits_at_first_space() {
    assert_eq!(first_space_token("Serie DE 2008"), "Serie");
    assert_eq!(first_space_token("Serie"), "Serie");
    assert_eq!(first_space_token(""), "");
    assert_eq!(first_space_token(" Serie"), "");
}

#[test]
fn last_token_splits_at_last_space() {
    assert_eq!(last_space_token("Krimiserie D 2008"), "2008");
    assert_eq!(last_space_token("2008"), "2008");
    assert_eq!(last_space_token(""), "");
    assert_eq!(last_space_token("Krimiserie "), "");
}

#[test]
fn parse_u32_exact_values() {
    assert_eq!(parse_u32("2008"), Some(2008));
    assert_eq!(parse_u32("0"), Some(0));
    assert_eq!(parse_u32("+7"), Some(7));
    assert_eq!(parse_u32("007"), Some(7));
    assert_eq!(parse_u32("4294967295"), Some(u32::MAX));
}

#[test]
fn parse_u32_rejects_what_is_no_number() {
    assert_eq!(parse_u32(""), None);
    assert_eq!(parse_u32("+"), None);
    assert_eq!(parse_u32("-7"), None);
    assert_eq!(parse_u32("20O8"), None);
    assert_eq!(parse_u32("4294967296"), None);
    assert_eq!(parse_u32("99999999999999999999"), None);
    assert_eq!(parse_u32("20 08"), None);
}

#[test]
fn trim_removes_surrounding_whitespace() {
    assert_eq!(trim_str(" Krimi "), "Krimi");
    assert_eq!(trim_str("\n\tSerie DE \n"), "Serie DE");
    assert_eq!(trim_str("Film"), "Film");
    assert_eq!(trim_str(""), "");
}
