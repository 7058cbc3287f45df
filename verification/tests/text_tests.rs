use user_server::text::{no_slash_from, starts_with, str_eq, u64_to_string};

#[test]
fn renders_decimal_exactly() {
    assert_eq!(u64_to_string(0), "0");
    assert_eq!(u64_to_string(7), "7");
    assert_eq!(u64_to_string(10), "10");
    assert_eq!(u64_to_string(12345), "12345");
    assert_eq!(u64_to_string(65535), "65535");
    assert_eq!(u64_to_string(u64::MAX), "18446744073709551615");
}

#[test]
fn compares_by_characters() {
    assert!(str_eq("abc", "abc"));
    assert!(!str_eq("abc", "abd"));
    assert!(!str_eq("abc", "ab"));
    assert!(str_eq("", ""));
    assert!(str_eq("naïve", "naïve"));
}

#[test]
fn prefix_checks() {
    assert!(starts_with("/greet/Sam", "/greet/"));
    assert!(starts_with("abc", ""));
    assert!(!starts_with("/greet", "/greet/"));
    assert!(!starts_with("/greex/Sam", "/greet/"));
}

#[test]
fn slash_scans() {
    assert!(no_slash_from("/greet/Sam", 7));
    assert!(!no_slash_from("/greet/a/b", 7));
}
