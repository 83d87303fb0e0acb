//! The coordinator: the single arbitration loop that enforces mutual
//! exclusion over the critical region.
//!
//! One cycle serves one request: the coordinator takes the oldest entry of
//! the request queue, records the request, counts it, signals the waiting
//! handler (the grant), and only then blocks until a release id arrives on
//! the release queue. Because the release is awaited before the next request
//! is dequeued, no second grant is ever issued while one is outstanding.
//! The release id received is not compared against the granted id; that
//! leniency is a deliberate design decision.

use crate::channel::Channel;
use crate::metrics::Metrics;
use crate::request::{Operation, Request};
use vstd::prelude::*;

verus! {

/// One line handed to the logger collaborator: which event happened for
/// which process id.
#[derive(Debug, Clone, Copy, PartialEq, Eq, Structural)]
pub struct LogEvent {
    pub kind: Operation,
    pub id: u32,
}

/// The process ids of a sequence of queued frames, in queue order.
pub open spec fn ids_of(reqs: Seq<Request>) -> Seq<u32> {
    reqs.map_values(|r: Request| r.id)
}

pub open spec fn req_event(id: u32) -> LogEvent {
    LogEvent { kind: Operation::Request, id }
}

pub open spec fn grant_event(id: u32) -> LogEvent {
    LogEvent { kind: Operation::Grant, id }
}

pub open spec fn release_event(id: u32) -> LogEvent {
    LogEvent { kind: Operation::Release, id }
}

/// How many requests from `ids` are granted and released in full when `m`
/// releases arrive: every cycle needs one release before the next grant.
pub open spec fn cycles_consumed(n: nat, m: nat) -> nat {
    if m >= n {
        n
    } else {
        m
    }
}

/// How many requests are dequeued: after the last available release, one
/// further request is still dequeued and granted, and the loop then blocks
/// awaiting its release.
pub open spec fn requests_consumed(n: nat, m: nat) -> nat {
    if m >= n {
        n
    } else {
        m + 1
    }
}

/// The number of log events the loop emits for `n` queued requests and `m`
/// queued releases.
pub open spec fn trace_len(n: nat, m: nat) -> nat {
    if m >= n {
        3 * n
    } else {
        3 * m + 2
    }
}

/// The event trace of the coordinator loop on request ids `ids` with `m`
/// releases available: each served request contributes Request, Grant,
/// Release in that order; when the releases run out the final request
/// contributes only Request and Grant, and the loop stays blocked.
pub open spec fn consumer_trace(ids: Seq<u32>, m: nat) -> Seq<LogEvent>
    decreases ids.len(),
{
    if ids.len() == 0 {
        Seq::empty()
    } else if m == 0 {
        seq![req_event(ids[0]), grant_event(ids[0])]
    } else {
        seq![req_event(ids[0]), grant_event(ids[0]), release_event(ids[0])]
            + consumer_trace(ids.drop_first(), (m - 1) as nat)
    }
}

/// The event standing at position `p` of the trace: position `3*i + 0` is
/// the request of the `i`-th served id, `3*i + 1` its grant, `3*i + 2` its
/// release.
pub open spec fn event_at(ids: Seq<u32>, p: int) -> LogEvent {
    if p % 3 == 0 {
        req_event(ids[p / 3])
    } else if p % 3 == 1 {
        grant_event(ids[p / 3])
    } else {
        release_event(ids[p / 3])
    }
}

/// How many of the ids in `ids` equal `id`.
pub open spec fn occurrences(ids: Seq<u32>, id: u32) -> nat
    decreases ids.len(),
{
    if ids.len() == 0 {
        0
    } else {
        occurrences(ids.drop_first(), id) + (if ids[0] == id {
            1nat
        } else {
            0nat
        })
    }
}

/// The coordinator's own state: the current holder of the critical region,
/// if any, and the per-process request counts.
pub struct Coordinator {
    /// The process id currently granted the critical region, if one is.
    /// At most one process occupies this slot at any instant.
    pub current_holder: Option<u32>,
    /// How many requests each process has had accepted.
    pub metrics: Metrics,
}

impl Coordinator {
    /// A fresh coordinator: nobody holds the region and no request has been
    /// counted.
    pub fn new() -> (c: Coordinator)
        ensures
            c.current_holder is None,
            forall|id: u32| c.metrics.count_spec(id) == 0,
    {
        Coordinator { current_holder: None, metrics: Metrics::new() }
    }

    /// The holder accessor used by introspection.
    pub fn current_holder(&self) -> (h: Option<u32>)
        ensures
            h == self.current_holder,
    {
        self.current_holder
    }

    /// Accept the oldest queued request: count it (exactly one bump for this
    /// id, no other id touched) and grant the region to its process. The
    /// caller signals the request's notification channel upon this grant.
    pub fn accept_request(&mut self, id: u32)
        requires
            old(self).current_holder is None,
            old(self).metrics.count_spec(id) < u32::MAX,
        ensures
            final(self).current_holder == Some(id),
            final(self).metrics.count_spec(id) == old(self).metrics.count_spec(id) + 1,
            forall|other: u32| other != id
                ==> final(self).metrics.count_spec(other) == old(self).metrics.count_spec(other),
    {
        self.metrics.bump(id);
        self.current_holder = Some(id);
    }

    /// Observe a release from the release queue and free the region. The
    /// released id is deliberately not compared against the holder: the
    /// arrival of any release id ends the current cycle.
    pub fn observe_release(&mut self, _released: u32)
        requires
            old(self).current_holder is Some,
        ensures
            final(self).current_holder is None,
            final(self).metrics == old(self).metrics,
    {
        self.current_holder = None;
    }

    /// The serialization loop on queue contents: serve requests in queue
    /// order, awaiting one release between a grant and the next dequeue, and
    /// return the log trace. The loop ends blocked (holder set) when the
    /// releases run out with a grant outstanding, and idle otherwise.
    pub fn run(&mut self, requests: &mut Channel<Request>, releases: &mut Channel<u32>)
        -> (trace: Vec<LogEvent>)
        requires
            old(self).current_holder is None,
            forall|id: u32|
                old(self).metrics.count_spec(id) + old(requests)@.len() <= u32::MAX,
        ensures
            ({
                let ids = ids_of(old(requests)@);
                let n = old(requests)@.len();
                let m = old(releases)@.len();
                &&& trace@ == consumer_trace(ids, m)
                &&& final(requests)@ == old(requests)@.skip(requests_consumed(n, m) as int)
                &&& final(releases)@ == old(releases)@.skip(cycles_consumed(n, m) as int)
                &&& final(self).current_holder == (if m < n {
                    Some(ids[m as int])
                } else {
                    Option::<u32>::None
                })
                &&& forall|id: u32|
                    final(self).metrics.count_spec(id) == old(self).metrics.count_spec(id)
                        + occurrences(ids.take(requests_consumed(n, m) as int), id)
            }),
    {
        let ghost orig_reqs = old(requests)@;
        let ghost orig_rels = old(releases)@;
        let ghost ids = ids_of(orig_reqs);
        let ghost n = orig_reqs.len();
        let ghost m = orig_rels.len();
        let mut trace: Vec<LogEvent> = Vec::new();
        let ghost mut k: int = 0;
        proof {
            assert(orig_reqs.skip(0) =~= orig_reqs);
            assert(orig_rels.skip(0) =~= orig_rels);
            assert(ids.take(0) =~= Seq::<u32>::empty());
        }
        while requests.len() > 0 && releases.len() > 0
            invariant
                0 <= k <= n,
                k <= m,
                n == orig_reqs.len(),
                m == orig_rels.len(),
                ids == ids_of(orig_reqs),
                requests@ == orig_reqs.skip(k),
                releases@ == orig_rels.skip(k),
                self.current_holder is None,
                trace@.len() == 3 * k,
                forall|p: int| 0 <= p < 3 * k ==> (#[trigger] trace@[p]) == event_at(ids, p),
                forall|id: u32|
                    self.metrics.count_spec(id) == old(self).metrics.count_spec(id)
                        + occurrences(ids.take(k), id),
                forall|id: u32| old(self).metrics.count_spec(id) + n <= u32::MAX,
            decreases n - k,
        {
            let req = requests.recv();
            let ghost t0 = trace@;
            proof {
                assert(orig_reqs.skip(k)[0] == orig_reqs[k]);
                assert(orig_reqs.skip(k).drop_first() =~= orig_reqs.skip(k + 1));
                assert(req.id == ids[k]);
                lemma_occurrences_le_len(ids.take(k), req.id);
                assert(self.metrics.count_spec(req.id) < u32::MAX);
            }
            trace.push(LogEvent { kind: Operation::Request, id: req.id });
            self.accept_request(req.id);
            trace.push(LogEvent { kind: Operation::Grant, id: req.id });
            let rel = releases.recv();
            proof {
                assert(orig_rels.skip(k).drop_first() =~= orig_rels.skip(k + 1));
            }
            self.observe_release(rel);
            trace.push(LogEvent { kind: Operation::Release, id: req.id });
            proof {
                assert(ids.take(k + 1) =~= ids.take(k).push(ids[k]));
                lemma_occurrences_push(ids.take(k), ids[k]);
                assert(trace@ == t0.push(req_event(ids[k])).push(grant_event(ids[k])).push(
                    release_event(ids[k]),
                ));
                assert forall|p: int| 0 <= p < 3 * (k + 1) implies
                    (#[trigger] trace@[p]) == event_at(ids, p) by {
                    if p < 3 * k {
                        assert(trace@[p] == t0[p]);
                    } else {
                        assert(p == 3 * k || p == 3 * k + 1 || p == 3 * k + 2);
                        assert((3 * k) % 3 == 0 && (3 * k) / 3 == k) by (nonlinear_arith);
                        assert((3 * k + 1) % 3 == 1 && (3 * k + 1) / 3 == k) by (nonlinear_arith);
                        assert((3 * k + 2) % 3 == 2 && (3 * k + 2) / 3 == k) by (nonlinear_arith);
                    }
                }
                k = k + 1;
            }
        }
        if requests.len() > 0 {
            // The releases ran out: grant this request and stay blocked
            // awaiting its release.
            proof {
                assert(k == m && m < n);
                assert(orig_reqs.skip(k)[0] == orig_reqs[k]);
                assert(orig_reqs.skip(k).drop_first() =~= orig_reqs.skip(k + 1));
            }
            let req = requests.recv();
            let ghost t0 = trace@;
            proof {
                assert(req.id == ids[k]);
                lemma_occurrences_le_len(ids.take(k), req.id);
                assert(self.metrics.count_spec(req.id) < u32::MAX);
            }
            trace.push(LogEvent { kind: Operation::Request, id: req.id });
            self.accept_request(req.id);
            trace.push(LogEvent { kind: Operation::Grant, id: req.id });
            proof {
                assert(ids.take(m as int + 1) =~= ids.take(m as int).push(ids[m as int]));
                lemma_occurrences_push(ids.take(m as int), ids[m as int]);
                lemma_trace_form(ids, m);
                assert(trace@ == t0.push(req_event(ids[m as int])).push(grant_event(ids[m as int])));
                assert forall|p: int| 0 <= p < 3 * m + 2 implies
                    (#[trigger] trace@[p]) == event_at(ids, p) by {
                    if p < 3 * m {
                        assert(trace@[p] == t0[p]);
                    } else {
                        assert(p == 3 * m || p == 3 * m + 1);
                        assert((3 * m) % 3 == 0 && (3 * m) / 3 == m) by (nonlinear_arith);
                        assert((3 * m + 1) % 3 == 1 && (3 * m + 1) / 3 == m) by (nonlinear_arith);
                    }
                }
                assert(trace@.len() == consumer_trace(ids, m).len());
                assert(trace@ =~= consumer_trace(ids, m));
            }
            trace
        } else {
            proof {
                assert(k == n && n <= m);
                lemma_trace_form(ids, m);
                assert(trace@.len() == consumer_trace(ids, m).len());
                assert(trace@ =~= consumer_trace(ids, m));
                assert(ids.take(n as int) =~= ids);
            }
            trace
        }
    }
}

/// A process occurs in a prefix no more often than the prefix is long.
pub proof fn lemma_occurrences_le_len(ids: Seq<u32>, id: u32)
    ensures
        occurrences(ids, id) <= ids.len(),
    decreases ids.len(),
{
    if ids.len() > 0 {
        lemma_occurrences_le_len(ids.drop_first(), id);
    }
}

/// Appending one id raises exactly that id's occurrence count by one.
proof fn lemma_occurrences_push(ids: Seq<u32>, x: u32)
    ensures
        forall|id: u32| occurrences(ids.push(x), id)
            == occurrences(ids, id) + (if x == id { 1nat } else { 0nat }),
    decreases ids.len(),
{
    if ids.len() == 0 {
        assert forall|id: u32| occurrences(ids.push(x), id)
            == occurrences(ids, id) + (if x == id { 1nat } else { 0nat }) by {
            assert(ids.push(x)[0] == x);
            assert(ids.push(x).drop_first() =~= Seq::<u32>::empty());
            assert(occurrences(Seq::<u32>::empty(), id) == 0);
        }
    } else {
        lemma_occurrences_push(ids.drop_first(), x);
        assert forall|id: u32| occurrences(ids.push(x), id)
            == occurrences(ids, id) + (if x == id { 1nat } else { 0nat }) by {
            assert(ids.push(x)[0] == ids[0]);
            assert(ids.push(x).drop_first() =~= ids.drop_first().push(x));
            assert(occurrences(ids.drop_first().push(x), id)
                == occurrences(ids.drop_first(), id) + (if x == id { 1nat } else { 0nat }));
        }
    }
}

/// The trace has a rigid shape: its length is `trace_len`, and the event at
/// each position `p` concerns the `p/3`-th served request, with `p % 3`
/// selecting request, grant or release.
pub proof fn lemma_trace_form(ids: Seq<u32>, m: nat)
    ensures
        consumer_trace(ids, m).len() == trace_len(ids.len(), m),
        forall|p: int| 0 <= p < trace_len(ids.len(), m)
            ==> (#[trigger] consumer_trace(ids, m)[p]) == event_at(ids, p),
    decreases ids.len(),
{
    let t = consumer_trace(ids, m);
    if ids.len() == 0 {
    } else if m == 0 {
        assert forall|p: int| 0 <= p < trace_len(ids.len(), m) implies t[p] == event_at(ids, p) by {
            assert(p == 0 || p == 1);
        }
    } else {
        let rest = consumer_trace(ids.drop_first(), (m - 1) as nat);
        lemma_trace_form(ids.drop_first(), (m - 1) as nat);
        assert forall|p: int| 0 <= p < trace_len(ids.len(), m) implies t[p] == event_at(ids, p) by {
            if p >= 3 {
                assert(t[p] == rest[p - 3]);
                assert(rest[p - 3] == event_at(ids.drop_first(), p - 3));
                assert((p - 3) % 3 == p % 3 && (p - 3) / 3 == p / 3 - 1) by (nonlinear_arith);
                assert(ids.drop_first()[p / 3 - 1] == ids[p / 3]);
            } else {
                assert(p == 0 || p == 1 || p == 2);
            }
        }
    }
}

/// Mutual exclusion over the trace: between any two grant events stands a
/// release event, and it releases the process granted first. Grant intervals
/// of different requests therefore never overlap.
pub proof fn lemma_mutual_exclusion(ids: Seq<u32>, m: nat, p1: int, p2: int)
    requires
        0 <= p1 < p2 < trace_len(ids.len(), m),
        consumer_trace(ids, m)[p1].kind is Grant,
        consumer_trace(ids, m)[p2].kind is Grant,
    ensures
        exists|r: int|
            p1 < r < p2 && (#[trigger] consumer_trace(ids, m)[r]).kind is Release
                && consumer_trace(ids, m)[r].id == consumer_trace(ids, m)[p1].id,
{
    lemma_trace_form(ids, m);
    let t = consumer_trace(ids, m);
    assert(p1 % 3 == 1 && p2 % 3 == 1);
    assert(p2 >= p1 + 3) by {
        assert(p1 == 3 * (p1 / 3) + 1 && p2 == 3 * (p2 / 3) + 1) by (nonlinear_arith)
            requires p1 % 3 == 1 && p2 % 3 == 1;
        assert(p2 / 3 > p1 / 3) by (nonlinear_arith)
            requires p1 == 3 * (p1 / 3) + 1 && p2 == 3 * (p2 / 3) + 1 && p2 > p1;
    }
    let r = p1 + 1;
    assert(r % 3 == 2 && r / 3 == p1 / 3) by (nonlinear_arith)
        requires p1 % 3 == 1 && r == p1 + 1;
    assert(t[r].kind is Release && t[r].id == t[p1].id);
}

/// FIFO fairness over the trace: requests accepted into the queue earlier
/// are granted strictly earlier. The `i`-th dequeued request's grant stands
/// at position `3*i + 1`, and the earlier request's whole grant-then-release
/// cycle completes before the later grant is even issued.
pub proof fn lemma_fifo_order(ids: Seq<u32>, m: nat, i: int, j: int)
    requires
        0 <= i < j < requests_consumed(ids.len(), m),
    ensures
        3 * i + 1 < 3 * i + 2 < 3 * j + 1 < trace_len(ids.len(), m),
        consumer_trace(ids, m)[3 * i + 1] == grant_event(ids[i]),
        consumer_trace(ids, m)[3 * i + 2] == release_event(ids[i]),
        consumer_trace(ids, m)[3 * j + 1] == grant_event(ids[j]),
{
    lemma_trace_form(ids, m);
    assert((3 * i + 1) % 3 == 1 && (3 * i + 1) / 3 == i) by (nonlinear_arith);
    assert((3 * i + 2) % 3 == 2 && (3 * i + 2) / 3 == i) by (nonlinear_arith);
    assert((3 * j + 1) % 3 == 1 && (3 * j + 1) / 3 == j) by (nonlinear_arith);
}

/// Starvation-freedom under well-behaved load: when at least as many
/// releases as requests arrive, every queued request receives its grant.
pub proof fn lemma_all_granted(ids: Seq<u32>, m: nat)
    requires
        m >= ids.len(),
    ensures
        forall|i: int| 0 <= i < ids.len()
            ==> consumer_trace(ids, m)[3 * i + 1] == grant_event(ids[i]),
{
    lemma_trace_form(ids, m);
    assert forall|i: int| 0 <= i < ids.len() implies
        consumer_trace(ids, m)[3 * i + 1] == grant_event(ids[i]) by {
        assert((3 * i + 1) % 3 == 1 && (3 * i + 1) / 3 == i) by (nonlinear_arith);
    }
}

} // verus!
