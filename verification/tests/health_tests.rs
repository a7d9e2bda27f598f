use ldapmon::config::{LdapTargetConfig, SearchCheckConfig, SearchScope};
use ldapmon::health::{
    classify_status, classify_status_at, is_permanent_error_text, is_permanent_message, otel_health,
    summarize_health, ComponentAttributes, ComponentStatus, OTelStatus,
};
use ldapmon::status::LdapStatus;
use ldapmon::time::Timestamp;

fn status(id: &str) -> LdapStatus {
    LdapStatus::initial(&LdapTargetConfig {
        id: id.to_string(),
        url: format!("ldap://{}", id),
        bind_dn: None,
        bind_password: None,
        bind_interval_secs: 10,
        search_interval_secs: 10,
        timeout_secs: 5,
        search_check: Some(SearchCheckConfig {
            base: "dc=x".to_string(),
            filter: "(objectClass=*)".to_string(),
            scope: SearchScope::Subtree,
        }),
    })
}

fn component(healthy: bool, st: OTelStatus, error: Option<&str>, secs: i64) -> ComponentStatus {
    ComponentStatus {
        healthy,
        status: st,
        error: error.map(|e| e.to_string()),
        status_time: Timestamp::new(secs, 0),
        attributes: ComponentAttributes { url: "u".to_string(), bind_latency_ms: None, search_latency_ms: None },
    }
}

#[test]
fn status_names() {
    assert_eq!(OTelStatus::Healthy.as_str(), "StatusOK");
    assert_eq!(OTelStatus::RecoverableError.as_str(), "StatusRecoverableError");
    assert_eq!(OTelStatus::PermanentError.as_str(), "StatusPermanentError");
}

#[test]
fn permanent_keywords() {
    assert!(is_permanent_error_text("bad credentials"));
    assert!(is_permanent_error_text("wrong password"));
    assert!(is_permanent_error_text("unauthorized"));
    assert!(is_permanent_error_text("no such dn"));
    assert!(is_permanent_error_text("invalid syntax"));
    assert!(!is_permanent_error_text("connection refused"));
    assert!(!is_permanent_error_text("INVALID"));
    assert!(is_permanent_message(&Some("INVALID DN SYNTAX".to_string())));
    assert!(!is_permanent_message(&Some("Timeout exceeded".to_string())));
    assert!(!is_permanent_message(&None));
}

#[test]
fn up_server_is_healthy_without_error() {
    let mut s = status("a");
    s.record_bind(Timestamp::new(100, 0), 3, Ok(()));
    s.record_search(Timestamp::new(90, 0), 4, Ok(()));
    let c = classify_status_at(&s, Timestamp::new(1, 0));
    assert!(c.healthy);
    assert_eq!(c.status, OTelStatus::Healthy);
    assert_eq!(c.error, None);
    assert_eq!(c.status_time, Timestamp::new(100, 0));
    assert_eq!(c.attributes.url, "ldap://a");
    assert_eq!(c.attributes.bind_latency_ms, Some(3));
    assert_eq!(c.attributes.search_latency_ms, Some(4));
}

#[test]
fn down_server_lists_both_errors() {
    let mut s = status("a");
    s.record_bind(Timestamp::new(100, 0), 3, Err("Connection error: refused".to_string()));
    s.record_search(Timestamp::new(100, 7), 4, Err("Timeout exceeded".to_string()));
    let c = classify_status_at(&s, Timestamp::new(1, 0));
    assert!(!c.healthy);
    assert_eq!(c.status, OTelStatus::RecoverableError);
    assert_eq!(c.error.as_deref(), Some("Bind: Connection error: refused; Search: Timeout exceeded"));
    assert_eq!(c.status_time, Timestamp::new(100, 7));
}

#[test]
fn credential_problems_are_permanent() {
    let mut s = status("a");
    s.record_bind(Timestamp::new(5, 0), 3, Err("Bind failed: INVALID CREDENTIALS".to_string()));
    s.record_search(Timestamp::new(4, 0), 3, Ok(()));
    let c = classify_status_at(&s, Timestamp::new(1, 0));
    assert_eq!(c.status, OTelStatus::PermanentError);
    assert_eq!(c.error.as_deref(), Some("Bind: Bind failed: INVALID CREDENTIALS"));
}

#[test]
fn down_server_without_messages_reports_check_failed() {
    let mut s = status("a");
    s.bind_error_message = None;
    s.search_error_message = None;
    let c = classify_status_at(&s, Timestamp::new(42, 9));
    assert_eq!(c.error.as_deref(), Some("Check failed"));
    assert_eq!(c.status, OTelStatus::RecoverableError);
    assert_eq!(c.status_time, Timestamp::new(42, 9));
}

#[test]
fn pending_server_is_recoverable_and_stamped_now() {
    let s = status("a");
    let c = classify_status(&s).unwrap();
    assert_eq!(c.status, OTelStatus::RecoverableError);
    assert_eq!(
        c.error.as_deref(),
        Some("Bind: Initialized, bind check pending; Search: Initialized, search check pending")
    );
    assert!(c.status_time.secs > 1_600_000_000);
    assert!(c.status_time.nanos < 1_000_000_000);
}

#[test]
fn checked_server_needs_no_clock() {
    let mut s = status("a");
    s.record_search(Timestamp::new(7, 3), 1, Ok(()));
    let c = classify_status(&s).unwrap();
    assert_eq!(c.status_time, Timestamp::new(7, 3));
}

#[test]
fn summary_of_healthy_components() {
    let comps = vec![
        ("a".to_string(), component(true, OTelStatus::Healthy, None, 50)),
        ("b".to_string(), component(true, OTelStatus::Healthy, None, 70)),
    ];
    let (code, r) = summarize_health(Timestamp::new(60, 0), &comps, false);
    assert_eq!(code, 200);
    assert!(r.healthy);
    assert_eq!(r.status, OTelStatus::Healthy);
    assert_eq!(r.error, None);
    assert_eq!(r.status_time, Timestamp::new(70, 0));
    assert_eq!(r.start_time, Timestamp::new(60, 0));
    assert!(r.components.is_none());
}

#[test]
fn summary_with_failures() {
    let comps = vec![
        ("a".to_string(), component(false, OTelStatus::RecoverableError, Some("Bind: x"), 10)),
        ("b".to_string(), component(true, OTelStatus::Healthy, None, 20)),
        ("c".to_string(), component(false, OTelStatus::PermanentError, Some("Bind: bad password"), 5)),
    ];
    let (code, r) = summarize_health(Timestamp::new(1, 0), &comps, true);
    assert_eq!(code, 503);
    assert!(!r.healthy);
    assert_eq!(r.status, OTelStatus::PermanentError);
    assert_eq!(r.error.as_deref(), Some("a: Bind: x; c: Bind: bad password"));
    assert_eq!(r.status_time, Timestamp::new(20, 0));
    let listed = r.components.unwrap();
    assert_eq!(listed.len(), 3);
    assert_eq!(listed[2].0, "c");
}

#[test]
fn summary_order_does_not_change_verdict() {
    let a = ("a".to_string(), component(false, OTelStatus::RecoverableError, Some("e1"), 10));
    let b = ("b".to_string(), component(false, OTelStatus::PermanentError, Some("e2"), 30));
    let (c1, r1) = summarize_health(Timestamp::new(0, 0), &vec![a.clone(), b.clone()], false);
    let (c2, r2) = summarize_health(Timestamp::new(0, 0), &vec![b, a], false);
    assert_eq!(c1, c2);
    assert_eq!(r1.status, r2.status);
    assert_eq!(r1.status_time, r2.status_time);
    assert_eq!(r1.healthy, r2.healthy);
}

#[test]
fn empty_service_is_healthy_at_start() {
    let (code, r) = summarize_health(Timestamp::new(9, 9), &Vec::new(), true);
    assert_eq!(code, 200);
    assert!(r.healthy);
    assert_eq!(r.status_time, Timestamp::new(9, 9));
    assert_eq!(r.components.unwrap().len(), 0);
}

#[test]
fn health_of_store_statuses() {
    let mut a = status("a");
    a.record_bind(Timestamp::new(100, 0), 1, Ok(()));
    a.record_search(Timestamp::new(100, 0), 1, Ok(()));
    let mut b = status("b");
    b.record_bind(Timestamp::new(200, 0), 1, Err("Anonymous bind failed: auth required".to_string()));
    let (code, r) = otel_health(Timestamp::new(50, 0), &vec![a.duplicate(), b], false).unwrap();
    assert_eq!(code, 503);
    assert_eq!(r.status, OTelStatus::PermanentError);
    assert_eq!(
        r.error.as_deref(),
        Some("b: Bind: Anonymous bind failed: auth required; Search: Initialized, search check pending")
    );
    assert_eq!(r.status_time, Timestamp::new(200, 0));
    let (code, r) = otel_health(Timestamp::new(50, 0), &vec![a], true).unwrap();
    assert_eq!(code, 200);
    assert!(r.healthy);
    assert_eq!(r.components.unwrap()[0].0, "a");
}
