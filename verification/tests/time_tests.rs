use ldapmon::time::{later, later_opt, Timestamp};

#[test]
fn later_picks_the_later_point() {
    let a = Timestamp::new(10, 5);
    let b = Timestamp::new(10, 7);
    let c = Timestamp::new(9, 999_999_999);
    assert_eq!(later(a, b), b);
    assert_eq!(later(b, a), b);
    assert_eq!(later(a, c), a);
    assert!(c.le(&a));
    assert!(!a.le(&c));
    assert_eq!(later_opt(None, Some(a)), Some(a));
    assert_eq!(later_opt(Some(a), None), Some(a));
    assert_eq!(later_opt(None, None), None);
    assert_eq!(later_opt(Some(c), Some(b)), Some(b));
}
