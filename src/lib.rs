//! A client library for a static-site hosting service: credentials, local
//! configuration, path mapping and the requests and responses of its API.
use vstd::prelude::*;

pub mod auth;
pub mod config;
pub mod path;
pub mod site;

pub use crate::site::Site;

verus! {

/// The version of this client, as sent in its user agent.
pub const VERSION: &'static str = "0.1.0";

/// Everything that can make an operation of this library fail.
#[derive(Debug, Clone, PartialEq, Eq)]
pub enum Error {
    /// The service rejected the request and said why.
    ServerError(site::ErrorResult),
    /// The service could not be reached, or answered in a shape this client
    /// does not know; the text carries the detail.
    UnexpectedResponse(String),
    /// No site was named, and none could be asked for.
    MissingSite,
    /// No credential was given, and none could be asked for.
    MissingCredential,
    /// A local path could not be mapped to a remote one.
    Path(path::PathError),
    /// A local file could not be read; the text carries the detail.
    LocalFile(String),
}

} // verus!
