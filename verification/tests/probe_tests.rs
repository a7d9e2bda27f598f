use ldapmon::config::{LdapTargetConfig, SearchCheckConfig, SearchScope};
use ldapmon::probe::{check_step, credentials, CheckAction, CheckEvent, CheckKind, CheckPhase};

fn target(dn: Option<&str>, password: Option<&str>, search: bool) -> LdapTargetConfig {
    LdapTargetConfig {
        id: "t".to_string(),
        url: "ldap://host:389".to_string(),
        bind_dn: dn.map(|s| s.to_string()),
        bind_password: password.map(|s| s.to_string()),
        bind_interval_secs: 10,
        search_interval_secs: 10,
        timeout_secs: 5,
        search_check: if search {
            Some(SearchCheckConfig {
                base: "dc=example,dc=com".to_string(),
                filter: "(objectClass=*)".to_string(),
                scope: SearchScope::OneLevel,
            })
        } else {
            None
        },
    }
}

fn finish(a: CheckAction) -> Result<(), String> {
    match a {
        CheckAction::Finish { outcome } => outcome,
        other => panic!("expected a finished check, got {:?}", other),
    }
}

#[test]
fn credentials_default_to_empty() {
    assert_eq!(credentials(&target(Some("cn=a"), Some("pw"), false)), ("cn=a".to_string(), "pw".to_string()));
    assert_eq!(credentials(&target(Some("cn=a"), None, false)), ("cn=a".to_string(), String::new()));
    assert_eq!(credentials(&target(None, Some("pw"), false)), (String::new(), String::new()));
}

#[test]
fn successful_bind_check_runs_connect_bind_unbind() {
    let t = target(Some("cn=a"), Some("pw"), true);
    let (p, a) = check_step(&t, CheckKind::Bind, CheckPhase::Idle, &CheckEvent::Start);
    assert_eq!(p, CheckPhase::Connecting);
    assert!(matches!(a, CheckAction::Connect { ref url } if url == "ldap://host:389"));
    let (p, a) = check_step(&t, CheckKind::Bind, p, &CheckEvent::Connected);
    assert_eq!(p, CheckPhase::Binding);
    assert!(matches!(a, CheckAction::Bind { ref dn, ref password } if dn == "cn=a" && password == "pw"));
    let (p, a) = check_step(&t, CheckKind::Bind, p, &CheckEvent::BindAccepted);
    assert_eq!(p, CheckPhase::Unbinding);
    assert!(matches!(a, CheckAction::Unbind));
    let (p, a) = check_step(&t, CheckKind::Bind, p, &CheckEvent::Unbound);
    assert_eq!(p, CheckPhase::Finished);
    assert_eq!(finish(a), Ok(()));
    let (p, a) = check_step(&t, CheckKind::Bind, p, &CheckEvent::TimedOut);
    assert_eq!(p, CheckPhase::Finished);
    assert!(matches!(a, CheckAction::Wait));
}

#[test]
fn search_check_searches_after_bind() {
    let t = target(None, None, true);
    let (p, _) = check_step(&t, CheckKind::Search, CheckPhase::Idle, &CheckEvent::Start);
    let (p, a) = check_step(&t, CheckKind::Search, p, &CheckEvent::Connected);
    assert!(matches!(a, CheckAction::Bind { ref dn, ref password } if dn.is_empty() && password.is_empty()));
    let (p, a) = check_step(&t, CheckKind::Search, p, &CheckEvent::BindAccepted);
    assert_eq!(p, CheckPhase::Searching);
    match a {
        CheckAction::Search { base, scope, filter, attrs } => {
            assert_eq!(base, "dc=example,dc=com");
            assert_eq!(scope, SearchScope::OneLevel);
            assert_eq!(filter, "(objectClass=*)");
            assert_eq!(attrs, vec!["1.1".to_string()]);
        }
        other => panic!("expected a search, got {:?}", other),
    }
    let (p, a) = check_step(&t, CheckKind::Search, p, &CheckEvent::SearchRejected("noSuchObject".to_string()));
    assert_eq!(p, CheckPhase::Finished);
    assert_eq!(finish(a), Err("Search failed: noSuchObject".to_string()));
}

#[test]
fn search_check_without_search_succeeds_at_once() {
    let t = target(None, None, false);
    let (p, a) = check_step(&t, CheckKind::Search, CheckPhase::Idle, &CheckEvent::Start);
    assert_eq!(p, CheckPhase::Finished);
    assert_eq!(finish(a), Ok(()));
}

#[test]
fn failure_messages_name_their_step() {
    let named = target(Some("cn=a"), None, true);
    let anon = target(None, None, true);
    let cases: Vec<(&LdapTargetConfig, CheckKind, CheckPhase, CheckEvent, &str)> = vec![
        (&named, CheckKind::Bind, CheckPhase::Connecting, CheckEvent::ConnectFailed("refused".to_string()), "Connection error: refused"),
        (&named, CheckKind::Bind, CheckPhase::Binding, CheckEvent::BindError("io".to_string()), "Bind error: io"),
        (&named, CheckKind::Bind, CheckPhase::Binding, CheckEvent::BindRejected("rc=49".to_string()), "Bind failed: rc=49"),
        (&anon, CheckKind::Bind, CheckPhase::Binding, CheckEvent::BindError("io".to_string()), "Anonymous bind error: io"),
        (&anon, CheckKind::Bind, CheckPhase::Binding, CheckEvent::BindRejected("rc=49".to_string()), "Anonymous bind failed: rc=49"),
        (&named, CheckKind::Search, CheckPhase::Binding, CheckEvent::BindError("io".to_string()), "Bind error before search: io"),
        (&named, CheckKind::Search, CheckPhase::Binding, CheckEvent::BindRejected("rc=49".to_string()), "Bind failed before search: rc=49"),
        (&anon, CheckKind::Search, CheckPhase::Binding, CheckEvent::BindError("io".to_string()), "Anonymous bind error before search: io"),
        (&anon, CheckKind::Search, CheckPhase::Binding, CheckEvent::BindRejected("rc=49".to_string()), "Anonymous bind failed before search: rc=49"),
        (&named, CheckKind::Search, CheckPhase::Searching, CheckEvent::SearchError("io".to_string()), "Search error: io"),
        (&named, CheckKind::Bind, CheckPhase::Binding, CheckEvent::TimedOut, "Timeout exceeded"),
        (&named, CheckKind::Search, CheckPhase::Unbinding, CheckEvent::TimedOut, "Timeout exceeded"),
    ];
    for (t, kind, phase, event, expected) in cases {
        let (p, a) = check_step(t, kind, phase, &event);
        assert_eq!(p, CheckPhase::Finished);
        assert_eq!(finish(a), Err(expected.to_string()));
    }
}

#[test]
fn out_of_order_events_change_nothing() {
    let t = target(None, None, false);
    let (p, a) = check_step(&t, CheckKind::Bind, CheckPhase::Idle, &CheckEvent::Connected);
    assert_eq!(p, CheckPhase::Idle);
    assert!(matches!(a, CheckAction::Wait));
    let (p, a) = check_step(&t, CheckKind::Bind, CheckPhase::Binding, &CheckEvent::SearchAccepted);
    assert_eq!(p, CheckPhase::Binding);
    assert!(matches!(a, CheckAction::Wait));
}
