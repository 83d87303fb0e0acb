use distmutex::channel::Channel;
use distmutex::coordinator::{Coordinator, LogEvent};
use distmutex::request::{Operation, Request};

fn req(id: u32) -> Request {
    Request { operation: Operation::Request, id }
}

fn ev(kind: Operation, id: u32) -> LogEvent {
    LogEvent { kind, id }
}

#[test]
fn scenario_one_then_other_granted_after_release() {
    // A (id 1) and B (id 2) are queued; A is granted first, and B's grant
    // comes only after A's release is observed.
    let mut coord = Coordinator::new();
    let mut requests: Channel<Request> = Channel::new();
    let mut releases: Channel<u32> = Channel::new();
    requests.send(req(1));
    requests.send(req(2));
    releases.send(1);
    releases.send(2);
    let trace = coord.run(&mut requests, &mut releases);
    assert_eq!(
        trace,
        vec![
            ev(Operation::Request, 1),
            ev(Operation::Grant, 1),
            ev(Operation::Release, 1),
            ev(Operation::Request, 2),
            ev(Operation::Grant, 2),
            ev(Operation::Release, 2),
        ]
    );
    assert_eq!(coord.current_holder(), None);
    assert!(requests.is_empty());
}

#[test]
fn scenario_missing_release_blocks_coordinator() {
    // A connection sends Request and disconnects before Release: the grant
    // is issued, no further request is served, and the loop stays blocked
    // awaiting the release.
    let mut coord = Coordinator::new();
    let mut requests: Channel<Request> = Channel::new();
    let mut releases: Channel<u32> = Channel::new();
    requests.send(req(7));
    requests.send(req(8));
    let trace = coord.run(&mut requests, &mut releases);
    assert_eq!(trace, vec![ev(Operation::Request, 7), ev(Operation::Grant, 7)]);
    assert_eq!(coord.current_holder(), Some(7));
    // The second request is still queued, ungranted.
    assert_eq!(requests.len(), 1);
}

#[test]
fn scenario_simultaneous_requests_granted_in_queue_order() {
    // Two requests from different processes already in the queue are both
    // granted, in the order their entries were appended.
    let mut coord = Coordinator::new();
    let mut requests: Channel<Request> = Channel::new();
    let mut releases: Channel<u32> = Channel::new();
    requests.send(req(5));
    requests.send(req(9));
    releases.send(5);
    releases.send(9);
    let trace = coord.run(&mut requests, &mut releases);
    let grants: Vec<u32> = trace
        .iter()
        .filter(|e| e.kind == Operation::Grant)
        .map(|e| e.id)
        .collect();
    assert_eq!(grants, vec![5, 9]);
}

#[test]
fn grant_intervals_never_overlap() {
    // Between any two grants in the trace stands a release: one process's
    // interval ends before the next one's begins.
    let mut coord = Coordinator::new();
    let mut requests: Channel<Request> = Channel::new();
    let mut releases: Channel<u32> = Channel::new();
    for id in [4, 2, 4, 6] {
        requests.send(req(id));
        releases.send(id);
    }
    let trace = coord.run(&mut requests, &mut releases);
    let grant_positions: Vec<usize> = trace
        .iter()
        .enumerate()
        .filter(|(_, e)| e.kind == Operation::Grant)
        .map(|(p, _)| p)
        .collect();
    for pair in grant_positions.windows(2) {
        let released_between = trace[pair[0]..pair[1]]
            .iter()
            .any(|e| e.kind == Operation::Release);
        assert!(released_between);
    }
}

#[test]
fn metrics_count_each_process_exactly() {
    // K requests from one process interleaved with others: its count is K.
    let mut coord = Coordinator::new();
    let mut requests: Channel<Request> = Channel::new();
    let mut releases: Channel<u32> = Channel::new();
    for id in [1, 2, 1, 3, 1] {
        requests.send(req(id));
        releases.send(id);
    }
    coord.run(&mut requests, &mut releases);
    assert_eq!(coord.metrics.get(1), 3);
    assert_eq!(coord.metrics.get(2), 1);
    assert_eq!(coord.metrics.get(3), 1);
    assert_eq!(coord.metrics.get(4), 0);
}

#[test]
fn all_prompt_clients_eventually_granted() {
    // M clients, one request each, all releasing promptly: every one of
    // them receives its grant.
    let mut coord = Coordinator::new();
    let mut requests: Channel<Request> = Channel::new();
    let mut releases: Channel<u32> = Channel::new();
    for id in 1..=4u32 {
        requests.send(req(id));
        releases.send(id);
    }
    let trace = coord.run(&mut requests, &mut releases);
    for id in 1..=4u32 {
        assert!(trace.contains(&ev(Operation::Grant, id)));
    }
}

#[test]
fn accept_and_release_drive_holder() {
    let mut coord = Coordinator::new();
    assert_eq!(coord.current_holder(), None);
    coord.accept_request(11);
    assert_eq!(coord.current_holder(), Some(11));
    assert_eq!(coord.metrics.get(11), 1);
    // The released id is not checked against the holder: any release frees
    // the region.
    coord.observe_release(99);
    assert_eq!(coord.current_holder(), None);
    assert_eq!(coord.metrics.get(11), 1);
}

#[test]
fn empty_queues_yield_empty_trace() {
    let mut coord = Coordinator::new();
    let mut requests: Channel<Request> = Channel::new();
    let mut releases: Channel<u32> = Channel::new();
    let trace = coord.run(&mut requests, &mut releases);
    assert!(trace.is_empty());
    assert_eq!(coord.current_holder(), None);
}

#[test]
fn leftover_releases_stay_queued() {
    let mut coord = Coordinator::new();
    let mut requests: Channel<Request> = Channel::new();
    let mut releases: Channel<u32> = Channel::new();
    requests.send(req(1));
    releases.send(1);
    releases.send(2);
    coord.run(&mut requests, &mut releases);
    assert_eq!(releases.len(), 1);
    assert_eq!(releases.recv(), 2);
}
