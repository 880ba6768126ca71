//! Choosing the site and the credential of an invocation, from what was
//! given on the command line, the settings, and what the user answers.
use vstd::prelude::*;

use crate::config::{self, Config};
use crate::site;
use crate::Error;

verus! {

/// A decision, or the need to ask the user first.
#[derive(Debug, Clone, PartialEq, Eq)]
pub enum Choice<T> {
    Ready(T),
    Prompt,
}

/// The client credential for the stored credential `stored` of site `site`:
/// a stored password signs in with the site's name as user name.
pub open spec fn credential_of(site: String, stored: config::Auth) -> site::Auth {
    match stored {
        config::Auth::Key(k) => site::Auth::Key(site::Key { key: k.key }),
        config::Auth::Password(p) => site::Auth::Password(
            site::Password { user: site, password: p.password },
        ),
    }
}

/// The site to work on: the one named on the command line, else the default
/// of the settings, else the user is to be asked, which `no_interactive`
/// forbids.
pub fn choose_site(cli_site: Option<String>, config: &Config, no_interactive: bool) -> (r: Result<
    Choice<String>,
    Error,
>)
    ensures
        cli_site matches Some(s) ==> r == Ok::<Choice<String>, Error>(Choice::Ready(s)),
        cli_site is None ==> (config.default_site matches Some(d) ==> r == Ok::<
            Choice<String>,
            Error,
        >(Choice::Ready(d))),
        cli_site is None && config.default_site is None ==> r == if no_interactive {
            Err::<Choice<String>, Error>(Error::MissingSite)
        } else {
            Ok::<Choice<String>, Error>(Choice::Prompt)
        },
{
    match cli_site {
        Some(s) => Ok(Choice::Ready(s)),
        None => match &config.default_site {
            Some(d) => Ok(Choice::Ready(d.clone())),
            None => if no_interactive {
                Err(Error::MissingSite)
            } else {
                Ok(Choice::Prompt)
            },
        },
    }
}

/// The site named in the user's answer, taken as it was typed; no answer
/// (the input ended) names none.
pub fn site_from_reply(reply: Option<String>) -> (r: Result<String, Error>)
    ensures
        reply matches Some(s) ==> r == Ok::<String, Error>(s),
        reply is None ==> r == Err::<String, Error>(Error::MissingSite),
{
    match reply {
        Some(s) => Ok(s),
        None => Err(Error::MissingSite),
    }
}

/// The credential for `site`: a password given on the command line, else
/// the credential the settings store for the site, else the user is to be
/// asked for a password, which `no_interactive` forbids.
pub fn choose_credential(
    site: &String,
    cli_password: Option<String>,
    config: &Config,
    no_interactive: bool,
) -> (r: Result<Choice<site::Auth>, Error>)
    ensures
        cli_password matches Some(p) ==> r == Ok::<Choice<site::Auth>, Error>(
            Choice::Ready(site::Auth::Password(site::Password { user: *site, password: p })),
        ),
        cli_password is None ==> (config@.sites.contains_key(site@) ==> r == Ok::<
            Choice<site::Auth>,
            Error,
        >(Choice::Ready(credential_of(*site, config@.sites[site@])))),
        cli_password is None && !config@.sites.contains_key(site@) ==> r == if no_interactive {
            Err::<Choice<site::Auth>, Error>(Error::MissingCredential)
        } else {
            Ok::<Choice<site::Auth>, Error>(Choice::Prompt)
        },
{
    match cli_password {
        Some(p) => Ok(
            Choice::Ready(site::Auth::Password(site::Password { user: site.clone(), password: p })),
        ),
        None => match config.site(site) {
            Some(config::Auth::Key(k)) => Ok(
                Choice::Ready(site::Auth::Key(site::Key { key: k.key.clone() })),
            ),
            Some(config::Auth::Password(p)) => Ok(
                Choice::Ready(
                    site::Auth::Password(
                        site::Password { user: site.clone(), password: p.password.clone() },
                    ),
                ),
            ),
            None => if no_interactive {
                Err(Error::MissingCredential)
            } else {
                Ok(Choice::Prompt)
            },
        },
    }
}

/// The credential made of the password the user answered for `site`; no
/// answer gives none.
pub fn credential_from_reply(site: String, reply: Option<String>) -> (r: Result<site::Auth, Error>)
    ensures
        reply matches Some(p) ==> r == Ok::<site::Auth, Error>(
            site::Auth::Password(site::Password { user: site, password: p }),
        ),
        reply is None ==> r == Err::<site::Auth, Error>(Error::MissingCredential),
{
    match reply {
        Some(p) => Ok(site::Auth::Password(site::Password { user: site, password: p })),
        None => Err(Error::MissingCredential),
    }
}

} // verus!
