//! The request type the router dispatches on, and the read-only access that
//! handlers get to per-request metadata.

use vstd::prelude::*;

pub mod ext;
pub mod params;

use self::ext::{RemoteAddrExt, RouteParamsExt};
use self::params::RouteParams;
use crate::method::Method;

verus! {

/// An incoming request: method, path and query of the URI, headers, body
/// text, and the metadata the router attaches before a handler runs.
#[derive(Debug)]
pub struct Request {
    pub method: Method,
    pub path: String,
    pub query: Option<String>,
    pub headers: Vec<(String, String)>,
    pub body: String,
    pub remote_addr: Option<RemoteAddrExt>,
    pub params: Option<RouteParamsExt>,
}

impl Request {
    /// A bare request: the given method and path, no query, no headers, an
    /// empty body, and no attached metadata.
    pub fn new(method: Method, path: String) -> (r: Request)
        ensures
            r.method == method,
            r.path == path,
            r.query is None,
            r.headers@.len() == 0,
            r.body@ == Seq::<char>::empty(),
            r.remote_addr is None,
            r.params is None,
    {
        Request {
            method,
            path,
            query: None,
            headers: Vec::new(),
            body: String::new(),
            remote_addr: None,
            params: None,
        }
    }
}

/// Read-only access to the metadata the router attaches. Reading either
/// slot of a request that never went through routing is a caller error,
/// ruled out by precondition.
pub trait RequestExt {
    /// The attached parameter set, if the request was routed to a matched
    /// pattern.
    spec fn spec_params(&self) -> Option<RouteParamsExt>;

    /// The attached caller address, if one was recorded.
    spec fn spec_remote_address(&self) -> Option<RemoteAddrExt>;

    fn params(&self) -> (r: &RouteParams)
        requires
            self.spec_params() is Some,
        ensures
            self.spec_params() matches Some(p) && p.0 == *r,
    ;

    fn remote_address(&self) -> (r: &RemoteAddrExt)
        requires
            self.spec_remote_address() is Some,
        ensures
            *r == self.spec_remote_address()->0,
    ;
}

impl RequestExt for Request {
    open spec fn spec_params(&self) -> Option<RouteParamsExt> {
        self.params
    }

    open spec fn spec_remote_address(&self) -> Option<RemoteAddrExt> {
        self.remote_addr
    }

    fn params(&self) -> (r: &RouteParams) {
        &self.params.as_ref().unwrap().0
    }

    fn remote_address(&self) -> (r: &RemoteAddrExt) {
        self.remote_addr.as_ref().unwrap()
    }
}

} // verus!
