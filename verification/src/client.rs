//! Client-side frame construction and reply validation.

use crate::request::{Operation, Request};
use vstd::prelude::*;

verus! {

/// The Request frame a client sends to ask for the critical region.
pub fn request_frame(id: u32) -> (f: Request)
    ensures
        f == (Request { operation: Operation::Request, id }),
{
    Request { operation: Operation::Request, id }
}

/// The Release frame a client sends when leaving the critical region.
pub fn release_frame(id: u32) -> (f: Request)
    ensures
        f == (Request { operation: Operation::Release, id }),
{
    Request { operation: Operation::Release, id }
}

/// Whether a client treats a server reply as a valid grant. A reply is
/// rejected only when both its operation differs from Grant and its id
/// differs from the client's own: matching either one is accepted. This
/// leniency is deliberate and is stated here exactly, rather than
/// tightened to demand both matches.
pub fn grant_reply_accepted(reply: &Request, id: u32) -> (ok: bool)
    ensures
        ok == !(reply.operation != Operation::Grant && reply.id != id),
{
    !(!matches!(reply.operation, Operation::Grant) && reply.id != id)
}

} // verus!
