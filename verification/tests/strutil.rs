use credential_agent::strutil::find_char;
use credential_agent::strutil::str_eq;
use credential_agent::strutil::u64_to_string;

#[test]
fn find_char_reports_first_occurrence() {
    assert_eq!(find_char("attr=value=more", '='), Some(4));
    assert_eq!(find_char("=leading", '='), Some(0));
    assert_eq!(find_char("no separator", '='), None);
    assert_eq!(find_char("", '='), None);
}

#[test]
fn find_char_counts_characters_not_bytes() {
    assert_eq!(find_char("héllo=x", '='), Some(5));
}

#[test]
fn str_eq_compares_contents() {
    assert!(str_eq("https", "https"));
    assert!(!str_eq("https", "http"));
    assert!(!str_eq("http", "https"));
    assert!(str_eq("", ""));
    assert!(str_eq("héllo", "héllo"));
    assert!(!str_eq("héllo", "hello"));
}

#[test]
fn u64_to_string_formats_decimal() {
    assert_eq!(u64_to_string(0), "0");
    assert_eq!(u64_to_string(7), "7");
    assert_eq!(u64_to_string(10), "10");
    assert_eq!(u64_to_string(90210), "90210");
    assert_eq!(u64_to_string(u64::MAX), "18446744073709551615");
}
