//! What the helper sends to Infrahub: the URLs, the authentication it uses,
//! the headers of every request, and how it sets up TLS.
use vstd::prelude::*;
use crate::config::{
    InfrahubConfig, API_KEY_HEADER, AUTHORIZATION_HEADER, MISSING_ACCESS_TOKEN, TRACKER_HEADER,
    TRACKER_VALUE,
};
use crate::text::{is_slash_trimmed, law_trim_trailing_slashes, trim_end_slashes, trim_trailing_slashes};

verus! {

/// The name of the repository credential query.
pub const CREDENTIAL_QUERY_OPERATION: &'static str = "GetRepoCredential";

/// The repository credential query: the repositories at `$location`, and for
/// each its credential's username and password.
pub const CREDENTIAL_QUERY: &'static str = "query GetRepoCredential($location: String!) {
  CoreGenericRepository(location__value: $location) {
    edges {
      node {
        __typename
        id
        credential {
          node {
            __typename
            id
            ... on CorePasswordCredential {
              username {
                value
              }
              password {
                value
              }
            }
          }
        }
      }
    }
  }
}
";

/// One HTTP header.
#[derive(Debug)]
pub struct Header {
    pub name: String,
    pub value: String,
}

/// How the helper authenticates.
#[derive(Debug)]
pub enum AuthPlan {
    /// Send this header with every request.
    Send(Header),
    /// Log in at `url` first; the reply's access token then becomes a bearer header.
    Login { url: String, username: String, password: String },
    /// Send no credentials.
    Anonymous,
}

/// How the helper checks the server's certificate.
#[derive(Debug)]
pub enum TlsSetup {
    /// Not at all.
    NoVerification,
    /// Against the roots in this PEM file.
    CustomRoots(String),
    /// Against the platform's default roots.
    PlatformRoots,
}

/// The login endpoint of the server at `address`.
pub open spec fn login_url_of(address: Seq<char>) -> Seq<char> {
    trim_trailing_slashes(address) + "/api/auth/login"@
}

/// The GraphQL endpoint of the server at `address`.
pub open spec fn graphql_url_of(address: Seq<char>) -> Seq<char> {
    trim_trailing_slashes(address) + "/graphql/main"@
}

/// Whether `h` is the header `name: value`.
pub open spec fn is_header(h: Header, name: Seq<char>, value: Seq<char>) -> bool {
    h.name@ == name && h.value@ == value
}

/// The header `name: value`.
fn header(name: &str, value: &str) -> (h: Header)
    ensures
        is_header(h, name@, value@),
{
    Header { name: String::from_str(name), value: String::from_str(value) }
}

impl InfrahubConfig {
    /// The login endpoint of the configured server.
    pub fn login_url(&self) -> (r: String)
        ensures
            r@ == login_url_of(self.address@),
            r@.len() >= "/api/auth/login"@.len(),
            r@.skip(r@.len() - "/api/auth/login"@.len()) == "/api/auth/login"@,
            is_slash_trimmed(self.address@, r@.take(r@.len() - "/api/auth/login"@.len())),
    {
        proof {
            law_login_url_is_trimmed_address_then_path(self.address@);
        }
        String::from_str(trim_end_slashes(self.address.as_str())).concat("/api/auth/login")
    }

    /// The GraphQL endpoint of the configured server.
    pub fn graphql_url(&self) -> (r: String)
        ensures
            r@ == graphql_url_of(self.address@),
            r@.len() >= "/graphql/main"@.len(),
            r@.skip(r@.len() - "/graphql/main"@.len()) == "/graphql/main"@,
            is_slash_trimmed(self.address@, r@.take(r@.len() - "/graphql/main"@.len())),
    {
        proof {
            law_graphql_url_is_trimmed_address_then_path(self.address@);
        }
        String::from_str(trim_end_slashes(self.address.as_str())).concat("/graphql/main")
    }

    /// How to authenticate: with the API token when there is one, else by
    /// logging in when both a username and a password are set, else not at all.
    pub fn auth_plan(&self) -> (r: AuthPlan)
        ensures
            match r {
                AuthPlan::Send(h) => (self.api_token matches Some(t) && is_header(
                    h,
                    API_KEY_HEADER@,
                    t@,
                )),
                AuthPlan::Login { url, username, password } => {
                    &&& self.api_token is None
                    &&& (self.username matches Some(u) && username@ == u@)
                    &&& (self.password matches Some(p) && password@ == p@)
                    &&& url@ == login_url_of(self.address@)
                },
                AuthPlan::Anonymous => self.api_token is None && !(self.username is Some
                    && self.password is Some),
            },
    {
        match &self.api_token {
            Some(token) => AuthPlan::Send(header(API_KEY_HEADER, token.as_str())),
            None => match (&self.username, &self.password) {
                (Some(u), Some(p)) => AuthPlan::Login {
                    url: self.login_url(),
                    username: u.clone(),
                    password: p.clone(),
                },
                _ => AuthPlan::Anonymous,
            },
        }
    }

    /// How to check certificates: not at all when `tls_insecure` is set, else
    /// against the CA file when one is named, else against the platform's roots.
    pub fn tls_setup(&self) -> (r: TlsSetup)
        ensures
            match r {
                TlsSetup::NoVerification => self.tls_insecure,
                TlsSetup::CustomRoots(f) => !self.tls_insecure && (self.tls_ca_file matches Some(
                    g,
                ) && f@ == g@),
                TlsSetup::PlatformRoots => !self.tls_insecure && self.tls_ca_file is None,
            },
    {
        if self.tls_insecure {
            TlsSetup::NoVerification
        } else {
            match &self.tls_ca_file {
                Some(f) => TlsSetup::CustomRoots(f.clone()),
                None => TlsSetup::PlatformRoots,
            }
        }
    }
}

/// The header that a login reply's `access_token` gives, or the refusal of a
/// reply without one.
pub fn bearer_header(access_token: Option<String>) -> (r: Result<Header, String>)
    ensures
        match access_token {
            Some(t) => (r matches Ok(h) && is_header(h, AUTHORIZATION_HEADER@, "Bearer "@ + t@)),
            None => (r matches Err(e) && e@ == MISSING_ACCESS_TOKEN@),
        },
{
    match access_token {
        Some(t) => Ok(
            Header {
                name: String::from_str(AUTHORIZATION_HEADER),
                value: String::from_str("Bearer ").concat(t.as_str()),
            },
        ),
        None => Err(String::from_str(MISSING_ACCESS_TOKEN)),
    }
}

/// The headers of a request: JSON content, the tracker, then the
/// authentication header if there is one.
pub fn request_headers(auth: Option<Header>) -> (r: Vec<Header>)
    ensures
        r@.len() == if auth is Some {
            3int
        } else {
            2int
        },
        is_header(r@[0], "Content-Type"@, "application/json"@),
        is_header(r@[1], TRACKER_HEADER@, TRACKER_VALUE@),
        auth matches Some(h) ==> r@[2] == h,
{
    let mut r: Vec<Header> = Vec::new();
    r.push(header("Content-Type", "application/json"));
    r.push(header(TRACKER_HEADER, TRACKER_VALUE));
    match auth {
        Some(h) => r.push(h),
        None => {},
    }
    r
}

/// Law: trailing slashes on the configured address change no URL: the
/// address with one more `/` gives the same endpoints.
pub proof fn law_trailing_slash_changes_no_url(address: Seq<char>)
    ensures
        graphql_url_of(address + "/"@) == graphql_url_of(address),
        login_url_of(address + "/"@) == login_url_of(address),
{
    reveal_strlit("/");
    let a = address + "/"@;
    assert(a.last() == '/');
    assert(a.drop_last() =~= address);
}

/// Law: the login endpoint is the address without its trailing `/`, followed
/// at once by `/api/auth/login`: nothing put between them, nothing else changed.
pub proof fn law_login_url_is_trimmed_address_then_path(address: Seq<char>)
    ensures
        login_url_of(address).len() >= "/api/auth/login"@.len(),
        login_url_of(address).skip(login_url_of(address).len() - "/api/auth/login"@.len())
            == "/api/auth/login"@,
        is_slash_trimmed(
            address,
            login_url_of(address).take(login_url_of(address).len() - "/api/auth/login"@.len()),
        ),
{
    law_trim_trailing_slashes(address, trim_trailing_slashes(address));
    let t = trim_trailing_slashes(address);
    let u = login_url_of(address);
    assert(u.take(u.len() - "/api/auth/login"@.len()) =~= t);
    assert(u.skip(u.len() - "/api/auth/login"@.len()) =~= "/api/auth/login"@);
}

/// Law: the GraphQL endpoint is the address without its trailing `/`, followed
/// at once by `/graphql/main`: nothing put between them, nothing else changed.
pub proof fn law_graphql_url_is_trimmed_address_then_path(address: Seq<char>)
    ensures
        graphql_url_of(address).len() >= "/graphql/main"@.len(),
        graphql_url_of(address).skip(graphql_url_of(address).len() - "/graphql/main"@.len())
            == "/graphql/main"@,
        is_slash_trimmed(
            address,
            graphql_url_of(address).take(graphql_url_of(address).len() - "/graphql/main"@.len()),
        ),
{
    law_trim_trailing_slashes(address, trim_trailing_slashes(address));
    let t = trim_trailing_slashes(address);
    let u = graphql_url_of(address);
    assert(u.take(u.len() - "/graphql/main"@.len()) =~= t);
    assert(u.skip(u.len() - "/graphql/main"@.len()) =~= "/graphql/main"@);
}

} // verus!
