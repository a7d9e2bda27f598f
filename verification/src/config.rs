use vstd::prelude::*;
use vstd::string::*;

use crate::text::{ends_with, ends_with_text, lowercase, to_lowercase};

verus! {

/// How deep below the base entry a search check looks.
#[derive(Clone, Copy, Debug, PartialEq, Eq, Structural)]
pub enum SearchScope {
    Base,
    OneLevel,
    Subtree,
}

/// The search that a search check performs after binding.
#[derive(Clone, Debug, PartialEq, Eq)]
pub struct SearchCheckConfig {
    pub base: String,
    pub filter: String,
    pub scope: SearchScope,
}

/// One directory server to watch.
#[derive(Clone, Debug, PartialEq, Eq)]
pub struct LdapTargetConfig {
    pub id: String,
    pub url: String,
    pub bind_dn: Option<String>,
    pub bind_password: Option<String>,
    pub bind_interval_secs: u64,
    pub search_interval_secs: u64,
    pub timeout_secs: u64,
    pub search_check: Option<SearchCheckConfig>,
}

/// The whole service configuration.
#[derive(Clone, Debug, PartialEq, Eq)]
pub struct Config {
    pub bind_address: String,
    pub ldaps: Vec<LdapTargetConfig>,
}

/// Mathematical model of a [`SearchCheckConfig`].
pub struct SearchCheckView {
    pub base: Seq<char>,
    pub filter: Seq<char>,
    pub scope: SearchScope,
}

/// Mathematical model of an [`LdapTargetConfig`].
pub struct LdapTargetView {
    pub id: Seq<char>,
    pub url: Seq<char>,
    pub bind_dn: Option<Seq<char>>,
    pub bind_password: Option<Seq<char>>,
    pub bind_interval_secs: u64,
    pub search_interval_secs: u64,
    pub timeout_secs: u64,
    pub search_check: Option<SearchCheckView>,
}

/// Mathematical model of a [`Config`].
pub struct ConfigView {
    pub bind_address: Seq<char>,
    pub ldaps: Seq<LdapTargetView>,
}

impl View for SearchCheckConfig {
    type V = SearchCheckView;

    open spec fn view(&self) -> SearchCheckView {
        SearchCheckView { base: self.base@, filter: self.filter@, scope: self.scope }
    }
}

/// The model of an optional search check.
pub open spec fn search_check_view(s: Option<SearchCheckConfig>) -> Option<SearchCheckView> {
    match s {
        Some(c) => Some(c@),
        None => None,
    }
}

impl View for LdapTargetConfig {
    type V = LdapTargetView;

    open spec fn view(&self) -> LdapTargetView {
        LdapTargetView {
            id: self.id@,
            url: self.url@,
            bind_dn: self.bind_dn.deep_view(),
            bind_password: self.bind_password.deep_view(),
            bind_interval_secs: self.bind_interval_secs,
            search_interval_secs: self.search_interval_secs,
            timeout_secs: self.timeout_secs,
            search_check: search_check_view(self.search_check),
        }
    }
}

impl View for Config {
    type V = ConfigView;

    open spec fn view(&self) -> ConfigView {
        ConfigView {
            bind_address: self.bind_address@,
            ldaps: self.ldaps@.map_values(|t: LdapTargetConfig| t@),
        }
    }
}

/// Interval between two checks of one kind when the configuration names none.
pub fn default_check_interval() -> (secs: u64)
    ensures
        secs == 10,
{
    10
}

/// Timeout of one check when the configuration names none.
pub fn default_timeout() -> (secs: u64)
    ensures
        secs == 5,
{
    5
}

/// Search filter of a search check when the configuration names none.
pub fn default_filter() -> (filter: String)
    ensures
        filter@ == "(objectClass=*)"@,
{
    String::from_str("(objectClass=*)")
}

/// Search scope of a search check when the configuration names none.
pub fn default_scope() -> (scope: SearchScope)
    ensures
        scope == SearchScope::Subtree,
{
    SearchScope::Subtree
}

/// The sample configuration written when no configuration file exists.
pub open spec fn spec_default_config() -> ConfigView {
    ConfigView {
        bind_address: "0.0.0.0:8080"@,
        ldaps: seq![
            LdapTargetView {
                id: "local_ldap_sample"@,
                url: "ldap://localhost:389"@,
                bind_dn: Some("cn=admin,dc=example,dc=com"@),
                bind_password: Some("adminpassword"@),
                bind_interval_secs: 10,
                search_interval_secs: 10,
                timeout_secs: 5,
                search_check: Some(
                    SearchCheckView {
                        base: "dc=example,dc=com"@,
                        filter: "(objectClass=*)"@,
                        scope: SearchScope::Subtree,
                    },
                ),
            },
        ],
    }
}

/// Builds the sample configuration: one local target checked every ten
/// seconds with a five second timeout and a subtree search.
pub fn default_config() -> (config: Config)
    ensures
        config@ == spec_default_config(),
{
    let search = SearchCheckConfig {
        base: String::from_str("dc=example,dc=com"),
        filter: String::from_str("(objectClass=*)"),
        scope: SearchScope::Subtree,
    };
    let target = LdapTargetConfig {
        id: String::from_str("local_ldap_sample"),
        url: String::from_str("ldap://localhost:389"),
        bind_dn: Some(String::from_str("cn=admin,dc=example,dc=com")),
        bind_password: Some(String::from_str("adminpassword")),
        bind_interval_secs: 10,
        search_interval_secs: 10,
        timeout_secs: 5,
        search_check: Some(search),
    };
    let mut ldaps: Vec<LdapTargetConfig> = Vec::new();
    ldaps.push(target);
    let config = Config { bind_address: String::from_str("0.0.0.0:8080"), ldaps };
    assert(config@.ldaps =~= spec_default_config().ldaps);
    config
}

/// The two file formats a configuration file can have.
#[derive(Clone, Copy, Debug, PartialEq, Eq, Structural)]
pub enum ConfigFormat {
    Yaml,
    Json,
}

/// YAML for a path ending in `.yaml` or `.yml`, JSON for every other path.
pub open spec fn spec_format_for(path: Seq<char>) -> ConfigFormat {
    if ends_with_text(path, ".yaml"@) || ends_with_text(path, ".yml"@) {
        ConfigFormat::Yaml
    } else {
        ConfigFormat::Json
    }
}

/// The file format follows the path's ending alone, over every path: any
/// path ending in ".yaml" or ".yml", whatever comes before (directories,
/// further dots), is YAML, and every path with neither ending is JSON.
pub proof fn lemma_format_by_ending(prefix: Seq<char>, path: Seq<char>)
    ensures
        spec_format_for(prefix + ".yaml"@) == ConfigFormat::Yaml,
        spec_format_for(prefix + ".yml"@) == ConfigFormat::Yaml,
        !(path.len() >= 5 && path.subrange(path.len() - 5, path.len() as int) == ".yaml"@) && !(
        path.len() >= 4 && path.subrange(path.len() - 4, path.len() as int) == ".yml"@)
            ==> spec_format_for(path) == ConfigFormat::Json,
{
    reveal_strlit(".yaml");
    reveal_strlit(".yml");
    let a = prefix + ".yaml"@;
    assert(a.subrange(a.len() - 5, a.len() as int) =~= ".yaml"@);
    let b = prefix + ".yml"@;
    assert(b.subrange(b.len() - 4, b.len() as int) =~= ".yml"@);
}

/// The format in which a new configuration file is written, by the path's
/// ending as written.
pub fn format_for_path(path: &str) -> (format: ConfigFormat)
    ensures
        format == spec_format_for(path@),
{
    if ends_with(path, ".yaml") || ends_with(path, ".yml") {
        ConfigFormat::Yaml
    } else {
        ConfigFormat::Json
    }
}

/// The format in which an existing configuration file is read: by the ending
/// of the lowercased path, so `.YAML` and `.Yml` count as YAML.
pub fn format_for_existing_path(path: &str) -> (format: ConfigFormat)
    ensures
        format == spec_format_for(lowercase(path@)),
{
    let lower = to_lowercase(path);
    format_for_path(lower.as_str())
}

/// Which configuration file to use: the first command-line argument when
/// there is one; otherwise `config.yaml` if it exists, else `config.json` if
/// that exists, else `config.yaml`.
pub open spec fn spec_config_path(argument: Option<Seq<char>>, yaml_exists: bool, json_exists: bool) -> Seq<char> {
    match argument {
        Some(p) => p,
        None => if yaml_exists {
            "config.yaml"@
        } else if json_exists {
            "config.json"@
        } else {
            "config.yaml"@
        },
    }
}

/// Chooses the configuration path from the first argument and which of the
/// two default files exist.
pub fn choose_config_path(argument: Option<String>, yaml_exists: bool, json_exists: bool) -> (path: String)
    ensures
        path@ == spec_config_path(argument.deep_view(), yaml_exists, json_exists),
{
    match argument {
        Some(p) => p,
        None => {
            if yaml_exists {
                String::from_str("config.yaml")
            } else if json_exists {
                String::from_str("config.json")
            } else {
                String::from_str("config.yaml")
            }
        },
    }
}

} // verus!
