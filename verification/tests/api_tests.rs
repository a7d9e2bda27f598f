use ldapmon::api::{config_update_reply, ConfigUpdateOutcome, ReplyStatus, StatusParams};

#[test]
fn status_params_default_to_quiet() {
    assert!(!StatusParams::new().verbose);
}

#[test]
fn update_replies() {
    let r = config_update_reply(&ConfigUpdateOutcome::SerializeFailed("bad".to_string()));
    assert_eq!(r.status_code, 400);
    assert_eq!(r.status, ReplyStatus::Error);
    assert_eq!(r.status.as_str(), "error");
    assert_eq!(r.message, "Failed to serialize config: bad");
    let r = config_update_reply(&ConfigUpdateOutcome::WriteFailed("denied".to_string()));
    assert_eq!(r.status_code, 500);
    assert_eq!(r.message, "Failed to write configuration file to disk: denied");
    let r = config_update_reply(&ConfigUpdateOutcome::Applied);
    assert_eq!(r.status_code, 200);
    assert_eq!(r.status.as_str(), "success");
    assert_eq!(
        r.message,
        "Configuration updated and monitors reloaded. Note: Any changes to bind_address will take effect only after app restart."
    );
}
