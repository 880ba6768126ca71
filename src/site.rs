//! The four operations of the hosting service's API, as requests to send and
//! as the interpretation of what comes back.
use vstd::prelude::*;

use crate::Error;

verus! {

/// Sent as the user agent with every request.
pub const USER_AGENT: &'static str = "neo/0.1.0";

/// Where site information is fetched.
pub const INFO_URL: &'static str = "https://neocities.org/api/info";

/// Where the file listing is fetched.
pub const LIST_URL: &'static str = "https://neocities.org/api/list";

/// Where files are uploaded.
pub const UPLOAD_URL: &'static str = "https://neocities.org/api/upload";

/// Where files are deleted.
pub const DELETE_URL: &'static str = "https://neocities.org/api/delete";

/// The query field that names one file to delete.
pub const DELETE_FIELD: &'static str = "filenames[]";

/// The reply of the service to a request it refused.
#[derive(Debug, Clone, PartialEq, Eq)]
pub struct ErrorResult {
    pub result: String,
    pub error_type: String,
    pub message: String,
}

/// What the service tells about a site.
#[derive(Debug, Clone, PartialEq, Eq)]
pub struct Info {
    pub sitename: String,
    pub views: i64,
    pub hits: i64,
    pub created_at: String,
    pub last_updated: Option<String>,
    pub domain: Option<String>,
    pub tags: Vec<String>,
    pub latest_ipfs_hash: Option<String>,
}

/// One entry of a site's file listing.
#[derive(Debug, Clone, PartialEq, Eq)]
pub struct File {
    /// Relative to the site root, with `/` between segments.
    pub path: String,
    pub is_directory: bool,
    /// In bytes; the service gives none for a directory.
    pub size: Option<u64>,
    pub updated_at: String,
}

/// An API key.
#[derive(Debug, Clone, PartialEq, Eq)]
pub struct Key {
    pub key: String,
}

/// A user name with its password.
#[derive(Debug, Clone, PartialEq, Eq)]
pub struct Password {
    pub user: String,
    pub password: String,
}

/// The one credential a client signs its requests with.
#[derive(Debug, Clone, PartialEq, Eq)]
pub enum Auth {
    Password(Password),
    Key(Key),
}

/// How a request is authenticated.
#[derive(Debug, Clone, PartialEq, Eq)]
pub enum Authorization {
    /// HTTP basic authentication.
    Basic { user: String, password: String },
    /// A bearer token.
    Bearer { token: String },
}

/// The HTTP method of a request.
#[derive(Debug, Clone, Copy, PartialEq, Eq, Structural)]
pub enum Method {
    Get,
    Post,
}

/// One `name=value` entry of a query string.
#[derive(Debug, Clone, PartialEq, Eq)]
pub struct QueryParam {
    pub name: String,
    pub value: String,
}

/// One part of a multipart form: a file's contents under a field name.
#[derive(Debug, Clone, PartialEq, Eq)]
pub struct FormPart {
    pub name: String,
    pub file_name: String,
    pub contents: Vec<u8>,
}

/// A request to the service, ready to be sent as it stands.
#[derive(Debug, Clone, PartialEq, Eq)]
pub struct Request {
    pub method: Method,
    pub url: String,
    pub user_agent: String,
    pub authorization: Authorization,
    /// Appended to `url` in this order; a name may repeat.
    pub query: Vec<QueryParam>,
    /// Sent as a multipart form where there is any.
    pub parts: Vec<FormPart>,
}

/// A client of the service for one site, holding one credential.
#[derive(Debug, Clone)]
pub struct Site {
    auth: Auth,
}

/// The authentication that a credential calls for: basic with a password,
/// bearer with a key.
pub open spec fn authorization_for(auth: Auth) -> Authorization {
    match auth {
        Auth::Password(p) => Authorization::Basic { user: p.user, password: p.password },
        Auth::Key(k) => Authorization::Bearer { token: k.key },
    }
}

/// `r` is a request of `method` to `url`, signed for `auth`, with the user
/// agent of this client.
pub open spec fn is_signed_request(r: Request, method: Method, url: Seq<char>, auth: Auth) -> bool {
    &&& r.method == method
    &&& r.url@ == url
    &&& r.user_agent@ == USER_AGENT@
    &&& r.authorization == authorization_for(auth)
}

/// `r` deletes `files` for `auth`: one query entry per file, in order.
pub open spec fn is_delete_request(r: Request, auth: Auth, files: Seq<String>) -> bool {
    &&& is_signed_request(r, Method::Post, DELETE_URL@, auth)
    &&& r.parts@.len() == 0
    &&& r.query@.len() == files.len()
    &&& forall|i: int|
        0 <= i < files.len() ==> (#[trigger] r.query@[i]).name@ == DELETE_FIELD@
            && r.query@[i].value@ == files[i]@
}

/// `a` and `b` would put the same bytes on the wire.
pub open spec fn same_request(a: Request, b: Request) -> bool {
    &&& a.method == b.method
    &&& a.url@ == b.url@
    &&& a.user_agent@ == b.user_agent@
    &&& a.authorization == b.authorization
    &&& a.query@.len() == b.query@.len()
    &&& forall|i: int|
        0 <= i < a.query@.len() ==> (#[trigger] a.query@[i]).name@ == b.query@[i].name@
            && a.query@[i].value@ == b.query@[i].value@
    &&& a.parts@.len() == b.parts@.len()
    &&& forall|i: int|
        0 <= i < a.parts@.len() ==> (#[trigger] a.parts@[i]).name@ == b.parts@[i].name@
            && a.parts@[i].file_name@ == b.parts@[i].file_name@
            && a.parts@[i].contents@ == b.parts@[i].contents@
}

/// A status in the success class.
pub open spec fn is_success_status(status: u16) -> bool {
    200 <= status <= 299
}

/// What a reply with `status` means, given its body decoded as the
/// operation's result (`body`) and as the service's error reply (`error`);
/// `detail` describes the reply for a caller where neither fits.
pub open spec fn outcome_of<T>(
    status: u16,
    body: Option<T>,
    error: Option<ErrorResult>,
    detail: String,
) -> Result<T, Error> {
    if is_success_status(status) {
        match body {
            Some(v) => Ok(v),
            None => Err(Error::UnexpectedResponse(detail)),
        }
    } else {
        match error {
            Some(e) => Err(Error::ServerError(e)),
            None => Err(Error::UnexpectedResponse(detail)),
        }
    }
}


/// Whether `status` is in the success class.
pub fn is_success(status: u16) -> (r: bool)
    ensures
        r == is_success_status(status),
{
    200 <= status && status <= 299
}

/// Interprets a reply of the service.
///
/// A success status gives the decoded result, or `UnexpectedResponse` where
/// the body did not decode as one. Any other status gives `ServerError` with
/// the service's own error type and message where the body decoded as an
/// error reply, and `UnexpectedResponse` otherwise.
pub fn response_outcome<T>(
    status: u16,
    body: Option<T>,
    error: Option<ErrorResult>,
    detail: String,
) -> (r: Result<T, Error>)
    ensures
        r == outcome_of(status, body, error, detail),
{
    if is_success(status) {
        match body {
            Some(v) => Ok(v),
            None => Err(Error::UnexpectedResponse(detail)),
        }
    } else {
        match error {
            Some(e) => Err(Error::ServerError(e)),
            None => Err(Error::UnexpectedResponse(detail)),
        }
    }
}

impl Site {
    /// The credential this client signs with.
    pub closed spec fn credential(&self) -> Auth {
        self.auth
    }

    /// A client signing with `auth`.
    pub fn new(auth: Auth) -> (r: Site)
        ensures
            r.credential() == auth,
    {
        Site { auth }
    }

    /// A client signing with the API key `key`.
    pub fn with_key(key: String) -> (r: Site)
        ensures
            r.credential() == Auth::Key(Key { key }),
    {
        Site { auth: Auth::Key(Key { key }) }
    }

    /// A client signing in as `user` with `password`.
    pub fn with_password(user: String, password: String) -> (r: Site)
        ensures
            r.credential() == Auth::Password(Password { user, password }),
    {
        Site { auth: Auth::Password(Password { user, password }) }
    }

    /// The credential this client signs with.
    pub fn auth(&self) -> (r: &Auth)
        ensures
            *r == self.credential(),
    {
        &self.auth
    }

    /// The authentication every request of this client carries.
    pub fn authorization(&self) -> (r: Authorization)
        ensures
            r == authorization_for(self.credential()),
    {
        match &self.auth {
            Auth::Key(k) => Authorization::Bearer { token: k.key.clone() },
            Auth::Password(p) => Authorization::Basic {
                user: p.user.clone(),
                password: p.password.clone(),
            },
        }
    }

    fn signed(&self, method: Method, url: &str) -> (r: Request)
        ensures
            is_signed_request(r, method, url@, self.credential()),
            r.query@.len() == 0,
            r.parts@.len() == 0,
    {
        Request {
            method,
            url: String::from_str(url),
            user_agent: String::from_str(USER_AGENT),
            authorization: self.authorization(),
            query: Vec::new(),
            parts: Vec::new(),
        }
    }

    /// The request for the site's information.
    pub fn info_request(&self) -> (r: Request)
        ensures
            is_signed_request(r, Method::Get, INFO_URL@, self.credential()),
            r.query@.len() == 0,
            r.parts@.len() == 0,
    {
        self.signed(Method::Get, INFO_URL)
    }

    /// The request for the site's file listing.
    pub fn list_request(&self) -> (r: Request)
        ensures
            is_signed_request(r, Method::Get, LIST_URL@, self.credential()),
            r.query@.len() == 0,
            r.parts@.len() == 0,
    {
        self.signed(Method::Get, LIST_URL)
    }

    /// The request that stores `contents` at the remote `path`: one form
    /// part, named after the path.
    pub fn upload_request(&self, path: String, contents: Vec<u8>) -> (r: Request)
        ensures
            is_signed_request(r, Method::Post, UPLOAD_URL@, self.credential()),
            r.query@.len() == 0,
            r.parts@.len() == 1,
            r.parts@[0].name@ == path@,
            r.parts@[0].file_name@ == path@,
            r.parts@[0].contents@ == contents@,
    {
        let mut r = self.signed(Method::Post, UPLOAD_URL);
        r.parts.push(FormPart { name: path.clone(), file_name: path, contents });
        r
    }

    /// The one request that deletes every file of `files`: each becomes a
    /// query entry, in the given order, none dropped or merged.
    pub fn delete_request(&self, files: Vec<String>) -> (r: Request)
        ensures
            is_delete_request(r, self.credential(), files@),
    {
        let mut r = self.signed(Method::Post, DELETE_URL);
        let mut i: usize = 0;
        while i < files.len()
            invariant
                is_signed_request(r, Method::Post, DELETE_URL@, self.credential()),
                r.parts@.len() == 0,
                i <= files@.len(),
                r.query@.len() == i,
                forall|j: int|
                    0 <= j < i ==> (#[trigger] r.query@[j]).name@ == DELETE_FIELD@
                        && r.query@[j].value@ == files@[j]@,
            decreases files@.len() - i,
        {
            r.query.push(QueryParam { name: String::from_str(DELETE_FIELD), value: files[i].clone() });
            i = i + 1;
        }
        r
    }
}


/// A key is always sent as a bearer token and a password always with basic
/// authentication; every request carries exactly one of the two schemes.
pub proof fn authorization_follows_credential(auth: Auth)
    ensures
        (auth is Key) <==> (authorization_for(auth) is Bearer),
        (auth is Password) <==> (authorization_for(auth) is Basic),
        (authorization_for(auth) is Bearer) != (authorization_for(auth) is Basic),
        auth matches Auth::Key(k) ==> authorization_for(auth) == (Authorization::Bearer {
            token: k.key,
        }),
        auth matches Auth::Password(p) ==> authorization_for(auth) == (Authorization::Basic {
            user: p.user,
            password: p.password,
        }),
{
}

/// Deleting the same paths again asks the same thing: the two requests are
/// alike, each keeps every path (duplicates too), and a success reply to
/// either is reported as success.
pub proof fn delete_is_repeatable(
    auth: Auth,
    files: Seq<String>,
    first: Request,
    second: Request,
    status: u16,
    error: Option<ErrorResult>,
    detail: String,
)
    requires
        is_delete_request(first, auth, files),
        is_delete_request(second, auth, files),
        is_success_status(status),
    ensures
        same_request(first, second),
        first.query@.len() == files.len(),
        outcome_of(status, Some(()), error, detail) == Ok::<(), Error>(()),
{
    assert forall|i: int| 0 <= i < first.query@.len() implies (#[trigger] first.query@[i]).name@
        == second.query@[i].name@ && first.query@[i].value@ == second.query@[i].value@ by {
        assert(second.query@[i].name@ == DELETE_FIELD@);
    }
}

} // verus!
