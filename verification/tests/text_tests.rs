use event_forwarder::is_valid_qos;
use event_forwarder::text::{parse_u64_dec, split_str, trim_str};

#[test]
fn split_on_separator() {
    let parts = split_str("a,b,c", ',');
    assert_eq!(parts, vec!["a".to_owned(), "b".to_owned(), "c".to_owned()]);
    assert_eq!(split_str("", ','), vec!["".to_owned()]);
    assert_eq!(split_str("one", ','), vec!["one".to_owned()]);
    assert_eq!(
        split_str(",x,", ','),
        vec!["".to_owned(), "x".to_owned(), "".to_owned()]
    );
}

#[test]
fn trim_removes_only_edge_spaces() {
    assert_eq!(trim_str("  hello  "), "hello");
    assert_eq!(trim_str("a b"), "a b");
    assert_eq!(trim_str("   "), "");
    assert_eq!(trim_str(""), "");
}

#[test]
fn parse_u64_exact_values() {
    assert_eq!(parse_u64_dec("0"), Some(0));
    assert_eq!(parse_u64_dec("1883"), Some(1883));
    assert_eq!(parse_u64_dec("18446744073709551615"), Some(u64::MAX));
    assert_eq!(parse_u64_dec("18446744073709551616"), None);
    assert_eq!(parse_u64_dec(""), None);
    assert_eq!(parse_u64_dec("12a"), None);
    assert_eq!(parse_u64_dec("-3"), None);
}

#[test]
fn qos_levels_zero_one_two_are_valid() {
    assert!(is_valid_qos(0));
    assert!(is_valid_qos(1));
    assert!(is_valid_qos(2));
    assert!(!is_valid_qos(3));
    assert!(!is_valid_qos(200));
}
