//! The per-connection protocol handler, as a state machine.
//!
//! One handler serves one connection for exactly one acquisition cycle:
//! read a Request frame, enqueue it for arbitration, await the grant
//! signal, send the Grant frame, read a Release frame, forward the release.
//! The first unexpected frame aborts the connection; a grant already sent
//! is not revoked by a later violation.

use crate::request::{Operation, Request};
use vstd::prelude::*;

verus! {

/// Where a connection handler stands in its single acquisition cycle.
#[derive(Debug, Clone, Copy, PartialEq, Eq, Structural)]
pub enum HandlerState {
    /// Awaiting the client's Request frame.
    AwaitRequest,
    /// Request enqueued; awaiting the coordinator's grant signal.
    AwaitGrant { id: u32 },
    /// Grant frame sent; awaiting the client's Release frame.
    AwaitRelease { id: u32 },
    /// Release forwarded; the connection is done and not reused.
    Done { released: u32 },
    /// A protocol violation ended the connection.
    Aborted,
}

/// What reaches the handler: a decoded frame from the connection, or the
/// coordinator's signal on this request's notification channel.
#[derive(Debug, Clone, Copy, PartialEq, Eq, Structural)]
pub enum HandlerEvent {
    FrameArrived(Request),
    GrantSignaled,
}

/// What the handler asks its connection shell to do next.
#[derive(Debug, Clone, Copy, PartialEq, Eq, Structural)]
pub enum HandlerAction {
    /// Push (request, fresh notification channel) onto the request queue.
    EnqueueRequest(u32),
    /// Write this frame back to the client.
    SendFrame(Request),
    /// Push this process id onto the release queue.
    ForwardRelease(u32),
    /// Close the connection without a reply.
    AbortConnection,
}

/// Whether `event` is one this state can receive: frames while a read is
/// pending, the grant signal while blocked on the notification channel.
pub open spec fn handler_accepts(state: HandlerState, event: HandlerEvent) -> bool {
    match state {
        HandlerState::AwaitRequest | HandlerState::AwaitRelease { .. } => event is FrameArrived,
        HandlerState::AwaitGrant { .. } => event is GrantSignaled,
        HandlerState::Done { .. } | HandlerState::Aborted => false,
    }
}

/// Advance the handler by one event, returning the next state and the
/// action the connection shell must perform.
pub fn handler_step(state: HandlerState, event: HandlerEvent) -> (r: (HandlerState, HandlerAction))
    requires
        handler_accepts(state, event),
    ensures
        match state {
            HandlerState::AwaitRequest => match event {
                HandlerEvent::FrameArrived(f) => if f.operation is Request {
                    r == (HandlerState::AwaitGrant { id: f.id }, HandlerAction::EnqueueRequest(f.id))
                } else {
                    r == (HandlerState::Aborted, HandlerAction::AbortConnection)
                },
                _ => false,
            },
            HandlerState::AwaitGrant { id } => r == (
                HandlerState::AwaitRelease { id },
                HandlerAction::SendFrame(Request { operation: Operation::Grant, id }),
            ),
            HandlerState::AwaitRelease { id } => match event {
                HandlerEvent::FrameArrived(f) => if f.operation is Release {
                    r == (HandlerState::Done { released: f.id }, HandlerAction::ForwardRelease(f.id))
                } else {
                    r == (HandlerState::Aborted, HandlerAction::AbortConnection)
                },
                _ => false,
            },
            _ => false,
        },
{
    match state {
        HandlerState::AwaitRequest => {
            match event {
                HandlerEvent::FrameArrived(f) => {
                    if matches!(f.operation, Operation::Request) {
                        (HandlerState::AwaitGrant { id: f.id }, HandlerAction::EnqueueRequest(f.id))
                    } else {
                        (HandlerState::Aborted, HandlerAction::AbortConnection)
                    }
                },
                HandlerEvent::GrantSignaled => {
                    proof {
                        assert(false);
                    }
                    unreached()
                },
            }
        },
        HandlerState::AwaitGrant { id } => (
            HandlerState::AwaitRelease { id },
            HandlerAction::SendFrame(Request { operation: Operation::Grant, id }),
        ),
        HandlerState::AwaitRelease { id } => {
            match event {
                HandlerEvent::FrameArrived(f) => {
                    if matches!(f.operation, Operation::Release) {
                        (HandlerState::Done { released: f.id }, HandlerAction::ForwardRelease(f.id))
                    } else {
                        (HandlerState::Aborted, HandlerAction::AbortConnection)
                    }
                },
                HandlerEvent::GrantSignaled => {
                    proof {
                        assert(false);
                    }
                    unreached()
                },
            }
        },
        HandlerState::Done { .. } | HandlerState::Aborted => {
            proof {
                assert(false);
            }
            unreached()
        },
    }
}

} // verus!
