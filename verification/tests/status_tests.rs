use ldapmon::config::{LdapTargetConfig, SearchCheckConfig, SearchScope};
use ldapmon::status::{is_up, LdapStatus};
use ldapmon::time::Timestamp;

fn target(id: &str, search: bool) -> LdapTargetConfig {
    LdapTargetConfig {
        id: id.to_string(),
        url: format!("ldap://{}", id),
        bind_dn: None,
        bind_password: None,
        bind_interval_secs: 10,
        search_interval_secs: 20,
        timeout_secs: 5,
        search_check: if search {
            Some(SearchCheckConfig {
                base: "dc=x".to_string(),
                filter: "(objectClass=*)".to_string(),
                scope: SearchScope::OneLevel,
            })
        } else {
            None
        },
    }
}

#[test]
fn initial_status_is_down_and_pending() {
    let s = LdapStatus::initial(&target("a", true));
    assert_eq!(s.id, "a");
    assert_eq!(s.url, "ldap://a");
    assert!(!s.up);
    assert_eq!(s.bind_error_message.as_deref(), Some("Initialized, bind check pending"));
    assert_eq!(s.search_error_message.as_deref(), Some("Initialized, search check pending"));
    assert_eq!(s.bind_success, None);
    assert_eq!(s.search_success, None);
    let t = LdapStatus::initial(&target("b", false));
    assert_eq!(t.search_error_message, None);
}

#[test]
fn up_needs_bind_success_and_no_failed_search() {
    assert!(!is_up(None, None));
    assert!(is_up(Some(true), None));
    assert!(is_up(Some(true), Some(true)));
    assert!(!is_up(Some(true), Some(false)));
    assert!(!is_up(Some(false), Some(true)));
    assert!(!is_up(None, Some(true)));
}

#[test]
fn recording_checks_updates_only_their_fields() {
    let mut s = LdapStatus::initial(&target("a", true));
    let t1 = Timestamp::new(100, 5);
    s.record_bind(t1, 12, Ok(()));
    assert!(s.up);
    assert_eq!(s.last_bind_time, Some(t1));
    assert_eq!(s.bind_latency_ms, Some(12));
    assert_eq!(s.bind_error_message, None);
    assert_eq!(s.bind_success, Some(true));
    assert_eq!(s.search_error_message.as_deref(), Some("Initialized, search check pending"));
    let t2 = Timestamp::new(101, 0);
    s.record_search(t2, 7, Err("Search failed: no such object".to_string()));
    assert!(!s.up);
    assert_eq!(s.last_search_time, Some(t2));
    assert_eq!(s.search_latency_ms, Some(7));
    assert_eq!(s.search_success, Some(false));
    assert_eq!(s.search_error_message.as_deref(), Some("Search failed: no such object"));
    assert_eq!(s.last_bind_time, Some(t1));
    s.record_search(t2, 8, Ok(()));
    assert!(s.up);
    s.record_bind(t2, 9, Err("Bind failed: invalid credentials".to_string()));
    assert!(!s.up);
    assert_eq!(s.bind_error_message.as_deref(), Some("Bind failed: invalid credentials"));
}

#[test]
fn duplicate_copies_everything() {
    let mut s = LdapStatus::initial(&target("a", true));
    s.record_bind(Timestamp::new(3, 4), 1, Err("x".to_string()));
    let d = s.duplicate();
    assert_eq!(d.id, s.id);
    assert_eq!(d.bind_error_message, s.bind_error_message);
    assert_eq!(d.last_bind_time, s.last_bind_time);
    assert_eq!(d.up, s.up);
}
