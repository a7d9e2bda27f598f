use ldapmon::text::{chars_of, contains, ends_with, join};

#[test]
fn contains_finds_substrings() {
    assert!(contains("invalid credentials", "credential"));
    assert!(contains("abc", ""));
    assert!(contains("abc", "abc"));
    assert!(!contains("abc", "abcd"));
    assert!(!contains("", "a"));
    assert!(contains("xxdnxx", "dn"));
    assert!(!contains("d n", "dn"));
    assert!(contains("héllo wörld", "wö"));
}

#[test]
fn ends_with_checks_suffix() {
    assert!(ends_with("a.yaml", ".yaml"));
    assert!(!ends_with("a.yaml.bak", ".yaml"));
    assert!(ends_with("x", ""));
    assert!(!ends_with("ml", ".yml"));
}

#[test]
fn join_puts_separator_between_neighbours() {
    let parts = vec!["a".to_string(), "b".to_string(), "c".to_string()];
    assert_eq!(join(&parts, "; "), "a; b; c");
    assert_eq!(join(&vec!["only".to_string()], "; "), "only");
    assert_eq!(join(&Vec::new(), "; "), "");
}

#[test]
fn chars_of_lists_characters() {
    assert_eq!(chars_of("aé€"), vec!['a', 'é', '€']);
    assert!(chars_of("").is_empty());
}
