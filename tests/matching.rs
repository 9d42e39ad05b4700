use nil_ide::matching::{can_complete, compare_bytes};

#[test]
fn subsequence_filter() {
    assert!(can_complete("", "let"));
    assert!(can_complete("", ""));
    assert!(can_complete("t", "let"));
    assert!(can_complete("lt", "let"));
    assert!(can_complete("let", "let"));
    assert!(!can_complete("tl", "let"));
    assert!(!can_complete("lets", "let"));
    assert!(!can_complete("L", "let"));
    assert!(can_complete("toS", "toString"));
    assert!(!can_complete("a", ""));
}

#[test]
fn byte_order() {
    assert_eq!(compare_bytes("a", "b"), -1);
    assert_eq!(compare_bytes("b", "a"), 1);
    assert_eq!(compare_bytes("ab", "ab"), 0);
    assert_eq!(compare_bytes("ab", "abc"), -1);
    assert_eq!(compare_bytes("Z", "a"), -1);
    assert_eq!(compare_bytes("", ""), 0);
}
