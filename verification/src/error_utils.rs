//! The one question every error of this library answers: must the resource that
//! raised it be torn down?

use vstd::prelude::*;

verus! {

pub trait MaybeFatal {
    /// The classification, as a mathematical function of the error.
    spec fn fatal(&self) -> bool;

    /// Whether the owning resource (a connection, the listening socket) must be
    /// discarded after this error.
    fn is_fatal(&self) -> (fatal: bool)
        ensures
            fatal == self.fatal(),
    ;
}

} // verus!
