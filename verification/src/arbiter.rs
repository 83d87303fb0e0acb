//! A queue-keeping arbiter: an alternative arbitration style in which the
//! coordinator state holds an explicit wait queue instead of blocking
//! between grant and release.
//!
//! Every request is counted, once, when it arrives; releases leave the
//! counts untouched. A request is granted at once when the region is free,
//! and queued otherwise. A release is honoured only when it
//! comes from the current holder; it then hands the region to the oldest
//! queued request, or frees it when none waits. A release from anyone else,
//! or while the region is free, is ignored.

use crate::metrics::Metrics;
use std::collections::VecDeque;
use vstd::prelude::*;

verus! {

/// The two message kinds a client can send to the arbiter.
#[derive(Debug, Clone, Copy, PartialEq, Eq, Structural)]
pub enum RequestType {
    Request,
    Release,
}

/// The arbiter's shared state: the current holder, the wait queue of
/// process ids in arrival order, and the per-process request counts.
pub struct QueueState {
    /// The process currently granted the critical region, if any.
    pub current_holder: Option<u32>,
    /// Process ids waiting for the region, oldest first.
    pub queue: VecDeque<u32>,
    /// How many requests each process has sent.
    pub statistics: Metrics,
}

/// The separator byte of the text message format, `|` (byte 124): a message
/// reads `name|REQ` for a request and `name|` followed by anything else for
/// a release.
pub open spec fn separator() -> u8 {
    124u8
}

/// Whether the field starting at `start` (after the first separator) is
/// exactly `REQ` (bytes 82, 69, 81): those three bytes followed by the end
/// of the message or by another separator.
pub open spec fn field_is_req(s: Seq<u8>, start: int) -> bool {
    &&& start + 3 <= s.len()
    &&& s[start] == 82u8
    &&& s[start + 1] == 69u8
    &&& s[start + 2] == 81u8
    &&& (start + 3 == s.len() || s[start + 3] == separator())
}

/// Split a text message at its first separator into the sending process's
/// name and the message kind. Yields nothing exactly when the message has
/// no separator; otherwise the name is everything before the first
/// separator, and the kind is Request exactly when the field after it is
/// `REQ`.
pub fn parse_text_message(text: &Vec<u8>) -> (r: Option<(Vec<u8>, RequestType)>)
    ensures
        match r {
            Some(pair) => {
                let name = pair.0;
                let sep = name@.len() as int;
                &&& sep < text@.len()
                &&& forall|k: int| 0 <= k < sep ==> text@[k] == name@[k] && text@[k] != separator()
                &&& text@[sep] == separator()
                &&& pair.1 == (if field_is_req(text@, sep + 1) {
                    RequestType::Request
                } else {
                    RequestType::Release
                })
            },
            None => forall|k: int| 0 <= k < text@.len() ==> text@[k] != separator(),
        },
{
    let n = text.len();
    let mut i: usize = 0;
    while i < n && text[i] != 124u8
        invariant
            0 <= i <= n,
            n == text@.len(),
            forall|k: int| 0 <= k < i ==> text@[k] != separator(),
        decreases n - i,
    {
        i = i + 1;
    }
    if i == n {
        return None;
    }
    let mut name: Vec<u8> = Vec::new();
    let mut k: usize = 0;
    while k < i
        invariant
            0 <= k <= i < n,
            n == text@.len(),
            name@.len() == k,
            forall|j: int| 0 <= j < k ==> text@[j] == name@[j],
        decreases i - k,
    {
        name.push(text[k]);
        k = k + 1;
    }
    let start = i + 1;
    let mut is_req = false;
    if n - start >= 3 {
        if text[start] == 82u8 && text[start + 1] == 69u8 && text[start + 2] == 81u8 {
            if start + 3 == n || text[start + 3] == 124u8 {
                is_req = true;
            }
        }
    }
    proof {
        assert(is_req == field_is_req(text@, i + 1));
    }
    if is_req {
        Some((name, RequestType::Request))
    } else {
        Some((name, RequestType::Release))
    }
}

impl QueueState {
    /// A fresh arbiter: region free, nobody waiting, all counts zero.
    pub fn new() -> (s: QueueState)
        ensures
            s.current_holder is None,
            s.queue@ == Seq::<u32>::empty(),
            forall|id: u32| s.statistics.count_spec(id) == 0,
    {
        QueueState {
            current_holder: None,
            queue: VecDeque::new(),
            statistics: Metrics::new(),
        }
    }

    /// Handle one client message and return the process id to notify with a
    /// grant, if this message causes one. The returned id, when present, is
    /// always the new holder. A request bumps the sender's count by exactly
    /// one; a release leaves every count unchanged.
    pub fn handle_message(&mut self, id: u32, kind: RequestType) -> (granted: Option<u32>)
        requires
            kind is Request ==> old(self).statistics.count_spec(id) < u32::MAX,
        ensures
            final(self).statistics.count_spec(id) == old(self).statistics.count_spec(id)
                + (if kind is Request { 1int } else { 0int }),
            forall|other: u32| other != id
                ==> final(self).statistics.count_spec(other)
                    == old(self).statistics.count_spec(other),
            match old(self).current_holder {
                Option::None => match kind {
                    RequestType::Request => granted == Some(id)
                        && final(self).current_holder == Some(id)
                        && final(self).queue@ == old(self).queue@,
                    RequestType::Release => granted is None
                        && final(self).current_holder is None
                        && final(self).queue@ == old(self).queue@,
                },
                Option::Some(holder) => match kind {
                    RequestType::Request => granted is None
                        && final(self).current_holder == Some(holder)
                        && final(self).queue@ == old(self).queue@.push(id),
                    RequestType::Release => if id == holder {
                        if old(self).queue@.len() > 0 {
                            granted == Some(old(self).queue@[0])
                                && final(self).current_holder == Some(old(self).queue@[0])
                                && final(self).queue@ == old(self).queue@.drop_first()
                        } else {
                            granted is None
                                && final(self).current_holder is None
                                && final(self).queue@ == old(self).queue@
                        }
                    } else {
                        granted is None
                            && final(self).current_holder == Some(holder)
                            && final(self).queue@ == old(self).queue@
                    },
                },
            },
    {
        if matches!(kind, RequestType::Request) {
            self.statistics.bump(id);
        }
        match self.current_holder {
            None => match kind {
                RequestType::Request => {
                    self.current_holder = Some(id);
                    Some(id)
                },
                RequestType::Release => None,
            },
            Some(holder) => match kind {
                RequestType::Request => {
                    self.queue.push_back(id);
                    None
                },
                RequestType::Release => {
                    if id == holder {
                        let next = self.queue.pop_front();
                        match next {
                            Some(new_owner) => {
                                proof {
                                    assert(self.queue@ =~= old(self).queue@.drop_first());
                                }
                                self.current_holder = Some(new_owner);
                                Some(new_owner)
                            },
                            None => {
                                self.current_holder = None;
                                None
                            },
                        }
                    } else {
                        None
                    }
                },
            },
        }
    }
}

} // verus!
