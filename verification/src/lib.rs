//! Typed construction and dispatch of REST requests.
//!
//! A request's URI is assembled from a chain of path segments (each
//! contributing a literal word and, optionally, a value drawn from a
//! caller-supplied configuration), a server root, and an optional query
//! string.  An endpoint fixes its HTTP verb at the type level, and the
//! verb markers dispatch to the one matching operation of a request
//! handler, so a handler lacking a verb can never be asked for it.

pub mod client;
pub mod request;
pub mod ureq;

use vstd::prelude::*;

use crate::client::json_wellformed;
use crate::request::ApiRequest;

verus! {

/// One HTTP verb, as a type: resolving it against a request handler
/// picks the one operation of the handler that implements the verb, so
/// a handler lacking the verb cannot serve an endpoint requiring it.
pub trait HttpMethod {
    /// Issues the request through the handler operation matching this
    /// verb.  A successful result is the response body, well-formed
    /// JSON text.
    fn request<H: RequestHandler, P>(handler: &H, r: &ApiRequest<P>) -> (res: Result<
        String,
        H::E,
    >)
        ensures
            res matches Ok(body) ==> json_wellformed(body@),
    ;
}

/// The PATCH verb.
pub struct PATCH;

/// The GET verb.
pub struct GET;

/// The PUT verb.
pub struct PUT;

/// The POST verb.
pub struct POST;

impl HttpMethod for PATCH {
    fn request<H: RequestHandler, P>(handler: &H, r: &ApiRequest<P>) -> (res: Result<
        String,
        H::E,
    >) {
        handler.patch(r)
    }
}

impl HttpMethod for GET {
    fn request<H: RequestHandler, P>(handler: &H, r: &ApiRequest<P>) -> (res: Result<
        String,
        H::E,
    >) {
        handler.get(r)
    }
}

impl HttpMethod for PUT {
    fn request<H: RequestHandler, P>(handler: &H, r: &ApiRequest<P>) -> (res: Result<
        String,
        H::E,
    >) {
        handler.put(r)
    }
}

impl HttpMethod for POST {
    fn request<H: RequestHandler, P>(handler: &H, r: &ApiRequest<P>) -> (res: Result<
        String,
        H::E,
    >) {
        handler.post(r)
    }
}

/// A handler able to issue each of the four verbs.  A successful result
/// is always the response body, well-formed JSON text, ready for an
/// external decoder.
pub trait RequestHandler {
    /// The handler's error type.
    type E;

    /// Issues a GET request.
    fn get<P>(&self, r: &ApiRequest<P>) -> (res: Result<String, Self::E>)
        ensures
            res matches Ok(body) ==> json_wellformed(body@),
    ;

    /// Issues a PATCH request.
    fn patch<P>(&self, r: &ApiRequest<P>) -> (res: Result<String, Self::E>)
        ensures
            res matches Ok(body) ==> json_wellformed(body@),
    ;

    /// Issues a PUT request.
    fn put<P>(&self, r: &ApiRequest<P>) -> (res: Result<String, Self::E>)
        ensures
            res matches Ok(body) ==> json_wellformed(body@),
    ;

    /// Issues a POST request.
    fn post<P>(&self, r: &ApiRequest<P>) -> (res: Result<String, Self::E>)
        ensures
            res matches Ok(body) ==> json_wellformed(body@),
    ;
}

/// A server root: the scheme-and-authority prefix a path chain is appended
/// to.  The root is never empty and never ends in `/`.
pub trait Server {}

/// A server whose root is a compile-time constant.
pub trait ConstServer: Server {
    /// The root as a mathematical value.  Impls of the library override
    /// this; the default stands only so that unverified impls need not
    /// mention ghost items.
    open spec fn spec_root() -> Seq<char> {
        Seq::empty()
    }

    /// The root string; non-empty and without a trailing slash.
    fn root() -> (r: &'static str)
        ensures
            r@ == Self::spec_root(),
            Self::spec_root().len() > 0,
            Self::spec_root().last() != '/',
    ;
}

/// A server whose root is carried by a runtime value.
pub trait DynamicServer: Server {
    /// The current root as a mathematical value.  Impls of the library
    /// override this; the default stands only so that unverified impls
    /// need not mention ghost items.
    open spec fn spec_root(&self) -> Seq<char> {
        Seq::empty()
    }

    /// The current root string; non-empty and without a trailing slash.
    fn get_root(&self) -> (r: &str)
        ensures
            r@ == self.spec_root(),
            self.spec_root().len() > 0,
            self.spec_root().last() != '/',
    ;
}

} // verus!
