use ldapmon::config::{
    choose_config_path, default_check_interval, default_config, default_filter, default_scope,
    default_timeout, format_for_existing_path, format_for_path, ConfigFormat, SearchScope,
};

#[test]
fn defaults_match_documented_values() {
    assert_eq!(default_check_interval(), 10);
    assert_eq!(default_timeout(), 5);
    assert_eq!(default_filter(), "(objectClass=*)");
    assert_eq!(default_scope(), SearchScope::Subtree);
}

#[test]
fn default_config_holds_one_sample_target() {
    let c = default_config();
    assert_eq!(c.bind_address, "0.0.0.0:8080");
    assert_eq!(c.ldaps.len(), 1);
    let t = &c.ldaps[0];
    assert_eq!(t.id, "local_ldap_sample");
    assert_eq!(t.url, "ldap://localhost:389");
    assert_eq!(t.bind_dn.as_deref(), Some("cn=admin,dc=example,dc=com"));
    assert_eq!(t.bind_password.as_deref(), Some("adminpassword"));
    assert_eq!(t.bind_interval_secs, default_check_interval());
    assert_eq!(t.search_interval_secs, default_check_interval());
    assert_eq!(t.timeout_secs, default_timeout());
    let s = t.search_check.as_ref().unwrap();
    assert_eq!(s.base, "dc=example,dc=com");
    assert_eq!(s.filter, default_filter());
    assert_eq!(s.scope, SearchScope::Subtree);
}

#[test]
fn new_file_format_follows_the_ending_as_written() {
    assert_eq!(format_for_path("config.yaml"), ConfigFormat::Yaml);
    assert_eq!(format_for_path("dir/config.yml"), ConfigFormat::Yaml);
    assert_eq!(format_for_path("config.json"), ConfigFormat::Json);
    assert_eq!(format_for_path("config.YAML"), ConfigFormat::Json);
    assert_eq!(format_for_path("yaml"), ConfigFormat::Json);
    assert_eq!(format_for_path(""), ConfigFormat::Json);
}

#[test]
fn existing_file_format_ignores_case() {
    assert_eq!(format_for_existing_path("CONFIG.YAML"), ConfigFormat::Yaml);
    assert_eq!(format_for_existing_path("Config.Yml"), ConfigFormat::Yaml);
    assert_eq!(format_for_existing_path("config.JSON"), ConfigFormat::Json);
    assert_eq!(format_for_existing_path("config.txt"), ConfigFormat::Json);
}

#[test]
fn config_path_prefers_argument_then_existing_files() {
    assert_eq!(choose_config_path(Some("x.json".to_string()), true, true), "x.json");
    assert_eq!(choose_config_path(None, true, true), "config.yaml");
    assert_eq!(choose_config_path(None, false, true), "config.json");
    assert_eq!(choose_config_path(None, false, false), "config.yaml");
    assert_eq!(choose_config_path(None, true, false), "config.yaml");
}
