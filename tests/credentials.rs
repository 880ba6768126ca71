use neo::auth::{choose_credential, choose_site, credential_from_reply, site_from_reply, Choice};
use neo::config::{self, Config};
use neo::site::{Auth, Key, Password};
use neo::Error;

fn with_sites(default_site: Option<&str>, sites: Vec<(&str, config::Auth)>) -> Config {
    Config {
        site_root: None,
        default_site: default_site.map(|s| s.to_string()),
        sites: sites.into_iter().map(|(n, a)| (n.to_string(), a)).collect(),
    }
}

#[test]
fn flags_alone_give_password_credential() {
    let cfg = Config::empty();
    let site = choose_site(Some("bar".to_string()), &cfg, true);
    assert_eq!(site, Ok(Choice::Ready("bar".to_string())));
    let auth = choose_credential(&"bar".to_string(), Some("secret".to_string()), &cfg, true);
    assert_eq!(
        auth,
        Ok(Choice::Ready(Auth::Password(Password {
            user: "bar".to_string(),
            password: "secret".to_string()
        })))
    );
}

#[test]
fn flag_site_beats_default_site() {
    let cfg = with_sites(Some("dflt"), vec![]);
    assert_eq!(choose_site(Some("x".to_string()), &cfg, false), Ok(Choice::Ready("x".to_string())));
    assert_eq!(choose_site(None, &cfg, false), Ok(Choice::Ready("dflt".to_string())));
}

#[test]
fn missing_site_fails_or_prompts() {
    let cfg = Config::empty();
    assert_eq!(choose_site(None, &cfg, true), Err(Error::MissingSite));
    assert_eq!(choose_site(None, &cfg, false), Ok(Choice::Prompt));
}

#[test]
fn site_reply_is_taken_as_typed() {
    assert_eq!(site_from_reply(Some("s".to_string())), Ok("s".to_string()));
    assert_eq!(site_from_reply(Some(String::new())), Ok(String::new()));
    assert_eq!(site_from_reply(None), Err(Error::MissingSite));
}

#[test]
fn flag_password_beats_stored_key() {
    let cfg = with_sites(None, vec![("s", config::Auth::Key(config::Key { key: "k".to_string() }))]);
    assert_eq!(
        choose_credential(&"s".to_string(), Some("pw".to_string()), &cfg, true),
        Ok(Choice::Ready(Auth::Password(Password {
            user: "s".to_string(),
            password: "pw".to_string()
        })))
    );
    assert_eq!(
        choose_credential(&"s".to_string(), None, &cfg, true),
        Ok(Choice::Ready(Auth::Key(Key { key: "k".to_string() })))
    );
}

#[test]
fn stored_password_signs_in_as_site_name() {
    let cfg = with_sites(
        None,
        vec![("s", config::Auth::Password(config::Password { password: "pw".to_string() }))],
    );
    assert_eq!(
        choose_credential(&"s".to_string(), None, &cfg, true),
        Ok(Choice::Ready(Auth::Password(Password {
            user: "s".to_string(),
            password: "pw".to_string()
        })))
    );
}

#[test]
fn missing_credential_fails_or_prompts() {
    let cfg = with_sites(None, vec![("other", config::Auth::Key(config::Key { key: "k".to_string() }))]);
    assert_eq!(choose_credential(&"s".to_string(), None, &cfg, true), Err(Error::MissingCredential));
    assert_eq!(choose_credential(&"s".to_string(), None, &cfg, false), Ok(Choice::Prompt));
}

#[test]
fn password_reply_becomes_credential() {
    assert_eq!(
        credential_from_reply("s".to_string(), Some("pw".to_string())),
        Ok(Auth::Password(Password { user: "s".to_string(), password: "pw".to_string() }))
    );
    assert_eq!(credential_from_reply("s".to_string(), None), Err(Error::MissingCredential));
}
