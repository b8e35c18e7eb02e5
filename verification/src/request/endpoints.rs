//! Endpoint descriptors: the static binding of a path chain to an HTTP
//! verb, a response shape, an optional parameter shape, and a server.

use vstd::prelude::*;

use crate::request::QueryParameters;
use crate::{HttpMethod, Server};

verus! {

/// The static description of one endpoint.
pub trait Endpoint {
    /// The HTTP verb this endpoint uses.
    type Method: HttpMethod;

    /// The response shape an external decoder produces from the body.
    type Res;

    /// The server this endpoint addresses.
    type Ser: Server;
}

/// An endpoint that takes no query parameters.
pub trait EndpointWithNoPara: Endpoint {}

/// An endpoint that takes query parameters of a fixed shape.
pub trait EndpointWithParameters: Endpoint {
    /// The parameter shape.
    type P: QueryParameters;
}

} // verus!
