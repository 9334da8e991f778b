//! What the router hands a request to.

use vstd::prelude::*;
use crate::connection::Connection;
use crate::request::Request;
use crate::response::{Response, ResponseView};

verus! {

/// A handler receives the connection and the request and answers with a
/// response. It may look at the connection but leaves it as it is: only the
/// reactor and the connection's own operations change a connection.
pub trait Handler {
    /// The responses that this handler may give to `request`. A handler
    /// that says nothing of its answers may give any.
    open spec fn answers(&self, request: Request, response: ResponseView) -> bool {
        true
    }

    fn handle(&mut self, connection: &mut Connection, request: &Request) -> (response: Response)
        requires
            old(connection).wf(),
        ensures
            final(connection).wf(),
            final(connection)@ == old(connection)@,
            old(self).answers(*request, response@),
    ;
}

/// A handler that gives the same response to every request.
pub struct ConstantHandler {
    pub response: Response,
}

impl Handler for ConstantHandler {
    open spec fn answers(&self, request: Request, response: ResponseView) -> bool {
        response == self.response@
    }

    fn handle(&mut self, connection: &mut Connection, request: &Request) -> (response: Response)
        ensures
            final(self).response@ == old(self).response@,
    {
        self.response.clone()
    }
}

impl ConstantHandler {
    pub fn new(response: Response) -> (handler: ConstantHandler)
        ensures
            handler.response == response,
    {
        ConstantHandler { response }
    }
}

} // verus!
