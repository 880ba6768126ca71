use neo::auth::{choose_credential, choose_site, Choice};
use neo::config::{self, Config, ConfigError};
use neo::path::ancestors;
use neo::site;

fn key(k: &str) -> config::Auth {
    config::Auth::Key(config::Key { key: k.to_string() })
}

fn password(p: &str) -> config::Auth {
    config::Auth::Password(config::Password { password: p.to_string() })
}

fn layer(default_site: Option<&str>, sites: Vec<(&str, config::Auth)>) -> Config {
    Config {
        site_root: None,
        default_site: default_site.map(|s| s.to_string()),
        sites: sites.into_iter().map(|(n, a)| (n.to_string(), a)).collect(),
    }
}

fn failed() -> ConfigError {
    ConfigError { message: "bad file".to_string() }
}

#[test]
fn project_two_levels_up_gives_key_and_site_root() {
    let cwd = "/home/u/proj/src/pages";
    let dirs = ancestors(cwd);
    let project_dir = dirs[2].clone();
    assert_eq!(project_dir, "/home/u/proj");
    let project = layer(Some("foo"), vec![("foo", key("abc"))]);
    let cfg = Config::build(Ok(Config::empty()), Some((project_dir, Ok(project))));
    assert_eq!(cfg.site_root, Some("/home/u/proj".to_string()));
    let name = match choose_site(None, &cfg, true) {
        Ok(Choice::Ready(s)) => s,
        other => panic!("unexpected {:?}", other),
    };
    assert_eq!(name, "foo");
    assert_eq!(
        choose_credential(&name, None, &cfg, true),
        Ok(Choice::Ready(site::Auth::Key(site::Key { key: "abc".to_string() })))
    );
}

#[test]
fn project_values_override_global_ones() {
    let global = layer(Some("g"), vec![("foo", key("k1")), ("bar", password("pw"))]);
    let project = layer(Some("p"), vec![("foo", password("pw2"))]);
    let cfg = Config::build(Ok(global), Some(("/w".to_string(), Ok(project))));
    assert_eq!(cfg.default_site, Some("p".to_string()));
    assert_eq!(cfg.site(&"foo".to_string()), Some(&password("pw2")));
    assert_eq!(cfg.site(&"bar".to_string()), Some(&password("pw")));
    assert_eq!(cfg.site(&"baz".to_string()), None);
}

#[test]
fn global_default_stays_without_project_default() {
    let global = layer(Some("g"), vec![]);
    let project = layer(None, vec![]);
    let cfg = Config::build(Ok(global), Some(("/w".to_string(), Ok(project))));
    assert_eq!(cfg.default_site, Some("g".to_string()));
    assert_eq!(cfg.site_root, Some("/w".to_string()));
}

#[test]
fn no_project_file_leaves_site_root_unset() {
    let mut global = layer(Some("g"), vec![("foo", key("k"))]);
    global.site_root = Some("/elsewhere".to_string());
    let cfg = Config::build(Ok(global), None);
    assert_eq!(cfg.site_root, None);
    assert_eq!(cfg.default_site, Some("g".to_string()));
    assert_eq!(cfg.site(&"foo".to_string()), Some(&key("k")));
}

#[test]
fn unreadable_settings_give_empty_config() {
    let cfg = Config::build(Err(failed()), None);
    assert_eq!(cfg, Config::empty());
    let cfg = Config::build(
        Ok(layer(Some("g"), vec![])),
        Some(("/w".to_string(), Err(failed()))),
    );
    assert_eq!(cfg, Config::empty());
    assert_eq!(cfg.site_root, None);
    assert_eq!(cfg.default_site, None);
    assert!(cfg.sites.is_empty());
}

#[test]
fn later_entry_for_a_site_wins() {
    let cfg = layer(None, vec![("foo", key("old")), ("foo", key("new"))]);
    assert_eq!(cfg.site(&"foo".to_string()), Some(&key("new")));
}

#[test]
fn stored_credential_is_told_apart_by_its_field() {
    assert_eq!(config::Auth::from_fields(Some("k".to_string()), None), Some(key("k")));
    assert_eq!(config::Auth::from_fields(None, Some("p".to_string())), Some(password("p")));
    assert_eq!(config::Auth::from_fields(Some("k".to_string()), Some("p".to_string())), None);
    assert_eq!(config::Auth::from_fields(None, None), None);
}

fn fields(name: &str, k: Option<&str>, p: Option<&str>) -> config::SiteFields {
    config::SiteFields {
        name: name.to_string(),
        key: k.map(|s| s.to_string()),
        password: p.map(|s| s.to_string()),
    }
}

#[test]
fn file_entries_become_credentials_in_order() {
    let cfg = Config::from_entries(
        None,
        Some("a".to_string()),
        vec![fields("a", Some("k"), None), fields("b", None, Some("pw"))],
    )
    .unwrap();
    assert_eq!(cfg.default_site, Some("a".to_string()));
    assert_eq!(cfg.site_root, None);
    assert_eq!(cfg.sites, vec![("a".to_string(), key("k")), ("b".to_string(), password("pw"))]);
}

#[test]
fn file_entry_without_credential_spoils_the_file() {
    assert_eq!(
        Config::from_entries(None, None, vec![fields("a", Some("k"), None), fields("b", None, None)]),
        None
    );
    assert_eq!(
        Config::from_entries(None, None, vec![fields("a", Some("k"), Some("pw"))]),
        None
    );
    assert_eq!(Config::from_entries(None, None, vec![]), Some(Config::empty()));
}

#[test]
fn nearest_directory_with_project_file_wins() {
    assert_eq!(config::nearest_project(&vec![false, false, true, true]), Some(2));
    assert_eq!(config::nearest_project(&vec![true, true]), Some(0));
    assert_eq!(config::nearest_project(&vec![false, false]), None);
    assert_eq!(config::nearest_project(&vec![]), None);
}
