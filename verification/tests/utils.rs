use rainbow_ls::utils::{os_string_graphene_len, starts_with_lowercase};

#[test]
fn os_string_graphene_len_counts_clusters() {
    assert_eq!(os_string_graphene_len(""), 0);
    assert_eq!(os_string_graphene_len("abc"), 3);
    assert_eq!(os_string_graphene_len("\u{1F1EB}\u{1F1F7}"), 1);
    assert_eq!(os_string_graphene_len("a\u{310}e\u{301}o\u{308}\u{332}"), 3);
    assert_eq!(os_string_graphene_len("a\r\nb"), 3);
}

#[test]
fn starts_with_lowercase_looks_at_the_first_letter() {
    assert!(starts_with_lowercase("a"));
    assert!(starts_with_lowercase("zebra"));
    assert!(starts_with_lowercase("aB"));
    assert!(!starts_with_lowercase("Ab"));
    assert!(!starts_with_lowercase(""));
    assert!(!starts_with_lowercase("1a"));
    assert!(!starts_with_lowercase("{a"));
    assert!(!starts_with_lowercase("`a"));
    assert!(!starts_with_lowercase("\u{e9}"));
}
