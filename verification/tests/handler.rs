use distmutex::handler::{handler_step, HandlerAction, HandlerEvent, HandlerState};
use distmutex::request::{Operation, Request};

fn frame(operation: Operation, id: u32) -> Request {
    Request { operation, id }
}

#[test]
fn happy_path_runs_both_phases() {
    let (s, a) = handler_step(
        HandlerState::AwaitRequest,
        HandlerEvent::FrameArrived(frame(Operation::Request, 6)),
    );
    assert_eq!(s, HandlerState::AwaitGrant { id: 6 });
    assert_eq!(a, HandlerAction::EnqueueRequest(6));

    let (s, a) = handler_step(s, HandlerEvent::GrantSignaled);
    assert_eq!(s, HandlerState::AwaitRelease { id: 6 });
    assert_eq!(a, HandlerAction::SendFrame(frame(Operation::Grant, 6)));

    let (s, a) = handler_step(s, HandlerEvent::FrameArrived(frame(Operation::Release, 6)));
    assert_eq!(s, HandlerState::Done { released: 6 });
    assert_eq!(a, HandlerAction::ForwardRelease(6));
}

#[test]
fn first_frame_must_be_a_request() {
    let (s, a) = handler_step(
        HandlerState::AwaitRequest,
        HandlerEvent::FrameArrived(frame(Operation::Release, 6)),
    );
    assert_eq!(s, HandlerState::Aborted);
    assert_eq!(a, HandlerAction::AbortConnection);
}

#[test]
fn second_frame_must_be_a_release() {
    let (s, a) = handler_step(
        HandlerState::AwaitRelease { id: 6 },
        HandlerEvent::FrameArrived(frame(Operation::Request, 6)),
    );
    assert_eq!(s, HandlerState::Aborted);
    assert_eq!(a, HandlerAction::AbortConnection);
}

#[test]
fn forwarded_release_carries_the_frame_id() {
    // The release queue receives the id from the Release frame itself, even
    // when it differs from the granted id.
    let (s, a) = handler_step(
        HandlerState::AwaitRelease { id: 6 },
        HandlerEvent::FrameArrived(frame(Operation::Release, 31)),
    );
    assert_eq!(s, HandlerState::Done { released: 31 });
    assert_eq!(a, HandlerAction::ForwardRelease(31));
}
