//! The capabilities that a router's stages offer.
use vstd::prelude::*;
use crate::message::{Request, Response};

verus! {

/// A stage that runs before the route: it turns a request into the next
/// one, or fails with a description of the fault.
pub trait PreMiddleware {
    fn process(&self, request: Request) -> Result<Request, String>;
}

/// A route: a test on path and method, and a handler that turns a request
/// into a response, or fails with a description of the fault.
pub trait Route {
    fn is_match(&self, path: &str, method: &str) -> bool;

    fn process(&self, path: &str, request: Request) -> Result<Response, String>;
}

/// A stage that runs after the route: it turns a response into the next
/// one, or fails with a description of the fault.
pub trait PostMiddleware {
    fn process(&self, response: Response) -> Result<Response, String>;
}

} // verus!
