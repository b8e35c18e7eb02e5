//! The transport's configurable surface: the user-agent string and the
//! name of the authentication header.
//!
//! The network side of a transport (performing the verbs, storing a
//! cookie) is I/O and lives with the program that wires the library to
//! a concrete HTTP backend; what the library itself pins down is the
//! headers each verb operation must send.

use vstd::prelude::*;
use vstd::string::*;

use crate::request::pairs_view;

verus! {

/// The default name of the authentication header.
pub const AUTH_HEADER_NAME: &'static str = "authorization";

/// The headers a verb operation sends: the locale header, the
/// authentication header (under the given name) carrying the bearer
/// token, and, for body-bearing verbs, the JSON content type.
pub open spec fn spec_request_headers(
    auth: Seq<char>,
    has_body: bool,
    token: Seq<char>,
) -> Seq<(Seq<char>, Seq<char>)> {
    let base = seq![("accept-language"@, "*"@), (auth, token)];
    if has_body {
        base.push(("content-type"@, "application/json"@))
    } else {
        base
    }
}

/// The configuration of an HTTP backend: its user-agent string and the
/// (overridable) name of the authentication header.
pub struct UreqApiHttpClient {
    agent: String,
    auth: String,
}

impl UreqApiHttpClient {
    /// The configured user-agent string.
    pub closed spec fn spec_agent(&self) -> Seq<char> {
        self.agent@
    }

    /// The name under which the bearer token is sent.
    pub closed spec fn spec_auth_header(&self) -> Seq<char> {
        self.auth@
    }

    /// The configured user-agent string.
    pub fn agent(&self) -> (r: &str)
        ensures
            r@ == self.spec_agent(),
    {
        self.agent.as_str()
    }

    /// Builds a backend configuration around a user-agent string, with
    /// the default authentication header name.
    pub fn new(agent: &str) -> (r: Self)
        ensures
            r.spec_agent() == agent@,
            r.spec_auth_header() == "authorization"@,
    {
        Self { agent: agent.to_owned(), auth: AUTH_HEADER_NAME.to_owned() }
    }

    /// Overrides the name of the authentication header.
    pub fn set_authorisation_header_name(&mut self, name: &str)
        ensures
            final(self).spec_auth_header() == name@,
            final(self).spec_agent() == old(self).spec_agent(),
    {
        self.auth = name.to_owned();
    }

    /// The headers a verb operation must send for this configuration:
    /// exactly those of [`spec_request_headers`], in that order.
    pub fn request_headers(&self, has_body: bool, bearer_token: &str) -> (hs: Vec<(String, String)>)
        ensures
            pairs_view(hs@) == spec_request_headers(
                self.spec_auth_header(),
                has_body,
                bearer_token@,
            ),
    {
        let mut hs: Vec<(String, String)> = Vec::new();
        hs.push(("accept-language".to_owned(), "*".to_owned()));
        hs.push((self.auth.clone(), bearer_token.to_owned()));
        if has_body {
            hs.push(("content-type".to_owned(), "application/json".to_owned()));
        }
        proof {
            assert(pairs_view(hs@) =~= spec_request_headers(
                self.spec_auth_header(),
                has_body,
                bearer_token@,
            ));
        }
        hs
    }
}

} // verus!
