use ldapmon::config::{Config, LdapTargetConfig, SearchCheckConfig, SearchScope};
use ldapmon::monitor::{monitor_tasks, MonitorTask, StatusStore};
use ldapmon::probe::CheckKind;
use ldapmon::time::Timestamp;

fn target(id: &str, url: &str, search: bool) -> LdapTargetConfig {
    LdapTargetConfig {
        id: id.to_string(),
        url: url.to_string(),
        bind_dn: Some("cn=a".to_string()),
        bind_password: None,
        bind_interval_secs: 10,
        search_interval_secs: 30,
        timeout_secs: 5,
        search_check: if search {
            Some(SearchCheckConfig {
                base: "dc=x".to_string(),
                filter: "(uid=*)".to_string(),
                scope: SearchScope::Base,
            })
        } else {
            None
        },
    }
}

fn config(targets: Vec<LdapTargetConfig>) -> Config {
    Config { bind_address: "127.0.0.1:1".to_string(), ldaps: targets }
}

#[test]
fn reset_keeps_one_initial_status_per_target() {
    let mut store = StatusStore::new();
    assert_eq!(store.len(), 0);
    store.reset_for_config(&config(vec![target("a", "u1", true), target("b", "u2", false)]));
    assert_eq!(store.len(), 2);
    let a = store.get(&"a".to_string()).unwrap();
    assert!(!a.up);
    assert_eq!(a.url, "u1");
    assert!(store.get(&"c".to_string()).is_none());
}

#[test]
fn reset_drops_unconfigured_targets_and_restarts_kept_ones() {
    let mut store = StatusStore::new();
    store.reset_for_config(&config(vec![target("a", "u1", false), target("b", "u2", false)]));
    store.record_bind_check_at(&"a".to_string(), Timestamp::new(5, 0), 3, Ok(()));
    assert!(store.get(&"a".to_string()).unwrap().up);
    store.reset_for_config(&config(vec![target("a", "u1", false)]));
    assert_eq!(store.len(), 1);
    assert!(!store.contains(&"b".to_string()));
    let a = store.get(&"a".to_string()).unwrap();
    assert!(!a.up);
    assert_eq!(a.last_bind_time, None);
}

#[test]
fn later_target_with_same_id_wins() {
    let mut store = StatusStore::new();
    store.reset_for_config(&config(vec![target("a", "first", false), target("a", "second", true)]));
    assert_eq!(store.len(), 1);
    let a = store.get(&"a".to_string()).unwrap();
    assert_eq!(a.url, "second");
    assert_eq!(a.search_error_message.as_deref(), Some("Initialized, search check pending"));
}

#[test]
fn recorded_results_are_read_back() {
    let mut store = StatusStore::new();
    store.reset_for_config(&config(vec![target("a", "u1", true)]));
    let id = "a".to_string();
    store.record_bind_check_at(&id, Timestamp::new(10, 1), 4, Ok(()));
    let s = store.get(&id).unwrap();
    assert!(s.up);
    assert_eq!(s.last_bind_time, Some(Timestamp::new(10, 1)));
    assert_eq!(s.bind_latency_ms, Some(4));
    store.record_search_check_at(&id, Timestamp::new(11, 0), 6, Err("Search error: gone".to_string()));
    let s = store.get(&id).unwrap();
    assert!(!s.up);
    assert_eq!(s.search_error_message.as_deref(), Some("Search error: gone"));
    assert_eq!(s.last_bind_time, Some(Timestamp::new(10, 1)));
    let snap = store.snapshot();
    assert_eq!(snap.len(), 1);
    assert_eq!(snap[0].search_latency_ms, Some(6));
}

#[test]
fn results_for_unknown_targets_are_ignored() {
    let mut store = StatusStore::new();
    store.reset_for_config(&config(vec![target("a", "u1", false)]));
    store.record_bind_check_at(&"zz".to_string(), Timestamp::new(1, 0), 1, Ok(()));
    assert!(store.record_search_check(&"zz".to_string(), 1, Ok(())));
    assert_eq!(store.len(), 1);
    assert!(!store.contains(&"zz".to_string()));
    assert!(!store.get(&"a".to_string()).unwrap().up);
}

#[test]
fn clocked_record_stamps_current_time() {
    let mut store = StatusStore::new();
    store.reset_for_config(&config(vec![target("a", "u1", false)]));
    assert!(store.record_bind_check(&"a".to_string(), 2, Ok(())));
    let s = store.get(&"a".to_string()).unwrap();
    let t = s.last_bind_time.unwrap();
    assert!(t.secs > 1_600_000_000);
    assert!(s.up);
}

#[test]
fn tasks_are_a_bind_loop_per_target_and_search_loops_where_configured() {
    let tasks = monitor_tasks(&config(vec![target("a", "u", true), target("b", "v", false)]));
    assert_eq!(
        tasks,
        vec![
            MonitorTask { target: 0, kind: CheckKind::Bind, interval_secs: 10 },
            MonitorTask { target: 0, kind: CheckKind::Search, interval_secs: 30 },
            MonitorTask { target: 1, kind: CheckKind::Bind, interval_secs: 10 },
        ]
    );
    assert!(monitor_tasks(&config(vec![])).is_empty());
}

#[test]
fn stored_statuses_follow_the_last_configuration() {
    let mut store = StatusStore::new();
    store.reset_for_config(&config(vec![target("a", "old", true)]));
    let id = "a".to_string();
    store.record_bind_check_at(&id, Timestamp::new(1, 0), 2, Err("Bind failed: x".to_string()));
    store.record_search_check_at(&id, Timestamp::new(2, 0), 3, Ok(()));
    store.reset_for_config(&config(vec![target("a", "new1", false), target("a", "new2", false)]));
    store.record_bind_check_at(&id, Timestamp::new(3, 0), 4, Ok(()));
    for s in store.snapshot() {
        assert_eq!(s.id, "a");
        assert_eq!(s.url, "new2");
        assert_eq!(s.bind_success.is_some(), s.last_bind_time.is_some());
        assert_eq!(s.bind_success.is_some(), s.bind_latency_ms.is_some());
        assert_eq!(s.bind_success == Some(true), s.bind_error_message.is_none());
        assert_eq!(s.search_success, None);
        assert_eq!(s.last_search_time, None);
        assert_eq!(s.search_latency_ms, None);
    }
}
