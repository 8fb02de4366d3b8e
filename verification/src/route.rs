//! One bound, shareable request handler.
//!
//! The routing layers do not call handlers themselves — they select one. A
//! `Route` therefore carries an abstract handler value `H`, which the caller
//! that drives the router (an executor, a connection loop, a test) interprets:
//! typically a shared asynchronous closure, or a key into a handler table.

use vstd::prelude::*;

verus! {

/// One registered handler unit.
#[derive(Clone, Debug)]
pub struct Route<H> {
    /// The carried handler value.
    pub handler: H,
}

impl<H> Route<H> {
    pub fn new(handler: H) -> (r: Self)
        ensures
            r == (Route { handler }),
    {
        Route { handler }
    }

    /// Borrows the carried handler value.
    pub fn handler_fn(&self) -> (r: &H)
        ensures
            *r == self.handler,
    {
        &self.handler
    }

    /// Surrenders the carried handler value.
    pub fn into_handler(self) -> (r: H)
        ensures
            r == self.handler,
    {
        self.handler
    }
}

} // verus!
