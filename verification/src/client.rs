//! The client: dispatches a built request through a pluggable transport
//! and classifies every outcome as a reportable value.
//!
//! The transport hands back raw response bytes or its own error.  The
//! client sorts each outcome into the error taxonomy: a transport error
//! is surfaced as [`ApiBackendError::HttpError`], bytes that are not
//! text as [`ApiBackendError::ReadError`], and text that is not
//! well-formed JSON as [`ApiBackendError::ParseError`].  A successful
//! result is always well-formed JSON text, ready for an external
//! decoder.

use vstd::prelude::*;
use vstd::string::*;
use vstd::utf8::{decode_utf8, valid_utf8};

use crate::request::endpoints::Endpoint;
use crate::request::ApiRequest;
use crate::{HttpMethod, RequestHandler};

verus! {

/// The user agent offered to transports that want one.
pub const AGENT: &'static str =
    "Mozilla/5.0 (Macintosh; Intel Mac OS X 10_15_7) AppleWebKit/537.36 (KHTML, like Gecko) Chrome/136.0.0.0 Safari/537.36 Edg/136.0.0.0";

/// Whether a string is well-formed JSON text.
pub uninterp spec fn json_wellformed(s: Seq<char>) -> bool;

/// Relies on serde_json's `from_str` for `Value`: whether text parses
/// as JSON depends on its characters alone.
#[verifier::external_body]
fn parse_json_ok(s: &str) -> (r: bool)
    ensures
        r == json_wellformed(s@),
{
    serde_json::from_str::<serde_json::Value>(s).is_ok()
}

/// Relies on std's `str::from_utf8`: it succeeds exactly on valid UTF-8
/// and yields its decoding.
#[verifier::external_body]
fn bytes_to_string(bytes: &Vec<u8>) -> (r: Option<String>)
    ensures
        (r is Some) == valid_utf8(bytes@),
        r matches Some(s) ==> s@ == decode_utf8(bytes@),
{
    match std::str::from_utf8(bytes.as_slice()) {
        Ok(s) => Some(s.to_owned()),
        Err(_) => None,
    }
}

/// Every way a dispatched request can fail.
#[derive(Debug)]
pub enum ApiBackendError<E> {
    /// The transport operation itself failed; carried verbatim.
    HttpError(E),
    /// The response was text but not well-formed JSON; carries the text.
    ParseError(String),
    /// The response bytes could not be read as text; carries the bytes.
    ReadError(Vec<u8>),
}

/// The result of dispatching a request through the transport `C`.
pub type ApiBackendResult<O, C> = Result<O, ApiBackendError<<C as ApiHttpClient>::Error>>;

/// Sorts a transport's response bytes as plain text: the decoded text
/// exactly when the bytes are valid UTF-8, else a read-error value
/// carrying exactly those bytes.
pub fn classify_text<E>(bytes: Vec<u8>) -> (res: Result<String, ApiBackendError<E>>)
    ensures
        (res is Ok) == valid_utf8(bytes@),
        res matches Ok(t) ==> t@ == decode_utf8(bytes@),
        res matches Err(e) ==> (e matches ApiBackendError::ReadError(b) && b@ == bytes@),
{
    match bytes_to_string(&bytes) {
        None => Err(ApiBackendError::ReadError(bytes)),
        Some(t) => Ok(t),
    }
}

/// Sorts a transport's response bytes: the decoded text when it is
/// well-formed JSON, else the matching error value.
pub fn classify_response<E>(bytes: Vec<u8>) -> (res: Result<String, ApiBackendError<E>>)
    ensures
        (res is Ok) == (valid_utf8(bytes@) && json_wellformed(decode_utf8(bytes@))),
        res matches Ok(t) ==> t@ == decode_utf8(bytes@),
        res matches Err(e) ==> (match e {
            ApiBackendError::HttpError(_) => false,
            ApiBackendError::ParseError(t) => valid_utf8(bytes@) && t@ == decode_utf8(bytes@)
                && !json_wellformed(t@),
            ApiBackendError::ReadError(b) => !valid_utf8(bytes@) && b@ == bytes@,
        }),
{
    match classify_text(bytes) {
        Err(e) => Err(e),
        Ok(text) => if parse_json_ok(text.as_str()) {
            Ok(text)
        } else {
            Err(ApiBackendError::ParseError(text))
        },
    }
}

/// A transport able to perform the four verbs: each takes a URI and a
/// bearer token and yields the raw response bytes or the transport's
/// own error.  The transport promises nothing about its outcomes; the
/// client states what holds of every one.
pub trait ApiHttpClient {
    /// The transport's error type.
    type Error;

    /// Stores one persistent cookie for the given fixed URI.
    fn set_cookie(&self, cookie: &str, uri: &'static str);

    /// Performs a PATCH request.
    fn patch(&self, uri: &str, bearer_token: &str) -> Result<Vec<u8>, Self::Error>;

    /// Performs a GET request.
    fn get(&self, uri: &str, bearer_token: &str) -> Result<Vec<u8>, Self::Error>;

    /// Performs a PUT request.
    fn put(&self, uri: &str, bearer_token: &str) -> Result<Vec<u8>, Self::Error>;

    /// Performs a POST request.
    fn post(&self, uri: &str, bearer_token: &str) -> Result<Vec<u8>, Self::Error>;
}

/// A client: a transport, a bearer token, and a server root.
pub struct ApiClient<T: ApiHttpClient> {
    inner: T,
    token: String,
    root: String,
}

impl<C: ApiHttpClient> ApiClient<C> {
    /// The bearer token sent with every request.
    pub closed spec fn spec_token(&self) -> Seq<char> {
        self.token@
    }

    /// The stored server root.
    pub closed spec fn spec_root(&self) -> Seq<char> {
        self.root@
    }

    /// The transport in use.
    pub closed spec fn spec_backend(&self) -> C {
        self.inner
    }

    /// Builds a client around a transport, a token, and a root.
    pub fn new(backend: C, token: &str, root: &str) -> (r: Self)
        ensures
            r.spec_backend() == backend,
            r.spec_token() == token@,
            r.spec_root() == root@,
    {
        Self { inner: backend, token: token.to_owned(), root: root.to_owned() }
    }

    /// Dispatches a built request through the one transport operation
    /// matching the endpoint's verb.  A successful result is the
    /// response body, well-formed JSON text.
    pub fn request<P: Endpoint>(&self, r: &ApiRequest<P>) -> (res: ApiBackendResult<String, C>)
        ensures
            res matches Ok(body) ==> json_wellformed(body@),
    {
        P::Method::request(self, r)
    }

    /// Fetches a URI's response body as plain text, without asking it
    /// to be JSON.  Whatever the transport hands back: no outcome is a
    /// parse error, and a read error carries exactly the transport's
    /// bytes, which are then not valid UTF-8.
    pub fn get_raw(&self, uri: &str) -> (res: ApiBackendResult<String, C>)
        ensures
            res matches Err(e) ==> !(e is ParseError),
            res matches Err(ApiBackendError::ReadError(b)) ==> !valid_utf8(b@),
    {
        match self.inner.get(uri, self.token.as_str()) {
            Err(e) => Err(ApiBackendError::HttpError(e)),
            Ok(bytes) => classify_text(bytes),
        }
    }
}

impl<C: ApiHttpClient> RequestHandler for ApiClient<C> {
    type E = ApiBackendError<C::Error>;

    fn get<P>(&self, r: &ApiRequest<P>) -> (res: Result<String, Self::E>)
        ensures
            res matches Err(ApiBackendError::ParseError(t)) ==> !json_wellformed(t@),
            res matches Err(ApiBackendError::ReadError(b)) ==> !valid_utf8(b@),
    {
        match self.inner.get(r.uri(), self.token.as_str()) {
            Err(e) => Err(ApiBackendError::HttpError(e)),
            Ok(bytes) => classify_response(bytes),
        }
    }

    fn patch<P>(&self, r: &ApiRequest<P>) -> (res: Result<String, Self::E>)
        ensures
            res matches Err(ApiBackendError::ParseError(t)) ==> !json_wellformed(t@),
            res matches Err(ApiBackendError::ReadError(b)) ==> !valid_utf8(b@),
    {
        match self.inner.patch(r.uri(), self.token.as_str()) {
            Err(e) => Err(ApiBackendError::HttpError(e)),
            Ok(bytes) => classify_response(bytes),
        }
    }

    fn put<P>(&self, r: &ApiRequest<P>) -> (res: Result<String, Self::E>)
        ensures
            res matches Err(ApiBackendError::ParseError(t)) ==> !json_wellformed(t@),
            res matches Err(ApiBackendError::ReadError(b)) ==> !valid_utf8(b@),
    {
        match self.inner.put(r.uri(), self.token.as_str()) {
            Err(e) => Err(ApiBackendError::HttpError(e)),
            Ok(bytes) => classify_response(bytes),
        }
    }

    fn post<P>(&self, r: &ApiRequest<P>) -> (res: Result<String, Self::E>)
        ensures
            res matches Err(ApiBackendError::ParseError(t)) ==> !json_wellformed(t@),
            res matches Err(ApiBackendError::ReadError(b)) ==> !valid_utf8(b@),
    {
        match self.inner.post(r.uri(), self.token.as_str()) {
            Err(e) => Err(ApiBackendError::HttpError(e)),
            Ok(bytes) => classify_response(bytes),
        }
    }
}

} // verus!
