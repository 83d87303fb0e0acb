//! Per-process request accounting.
//!
//! The coordinator counts how many requests each process id has had accepted.
//! Counts are monotonically non-decreasing and each accepted request bumps its
//! process's count exactly once. The table is an association list with one
//! entry per process id, so introspection can walk it in a fixed order.

use vstd::prelude::*;

verus! {

/// The count recorded for `id` in a list of (process id, count) entries: the
/// value of the first entry for `id`, or 0 when none exists.
pub open spec fn count_in(entries: Seq<(u32, u32)>, id: u32) -> u32
    decreases entries.len(),
{
    if entries.len() == 0 {
        0
    } else if entries[0].0 == id {
        entries[0].1
    } else {
        count_in(entries.drop_first(), id)
    }
}

/// The per-process request counters.
pub struct Metrics {
    entries: Vec<(u32, u32)>,
}

impl View for Metrics {
    type V = Seq<(u32, u32)>;

    closed spec fn view(&self) -> Seq<(u32, u32)> {
        self.entries@
    }
}

impl Metrics {
    /// The recorded count for a process id (0 when the id was never counted).
    pub open spec fn count_spec(&self, id: u32) -> u32 {
        count_in(self@, id)
    }

    /// Create an empty table: every process id counts 0.
    pub fn new() -> (m: Metrics)
        ensures
            forall|id: u32| m.count_spec(id) == 0,
            m@.len() == 0,
    {
        Metrics { entries: Vec::new() }
    }

    /// Read the count for one process id.
    pub fn get(&self, id: u32) -> (count: u32)
        ensures
            count == self.count_spec(id),
    {
        let n = self.entries.len();
        let mut i: usize = 0;
        proof {
            assert(self.entries@.skip(0) =~= self.entries@);
        }
        while i < n
            invariant
                0 <= i <= n,
                n == self.entries@.len(),
                count_in(self.entries@, id) == count_in(self.entries@.skip(i as int), id),
                forall|j: int| 0 <= j < i ==> (#[trigger] self.entries@[j]).0 != id,
            decreases n - i,
        {
            proof {
                assert(self.entries@.skip(i as int)[0] == self.entries@[i as int]);
                assert(self.entries@.skip(i as int).drop_first() =~= self.entries@.skip(i + 1));
            }
            if self.entries[i].0 == id {
                return self.entries[i].1;
            }
            i = i + 1;
        }
        proof {
            assert(self.entries@.skip(n as int) =~= Seq::<(u32, u32)>::empty());
        }
        0
    }

    /// Count one more accepted request for `id`: its count rises by exactly
    /// one and every other process's count is unchanged.
    pub fn bump(&mut self, id: u32)
        requires
            old(self).count_spec(id) < u32::MAX,
        ensures
            final(self).count_spec(id) == old(self).count_spec(id) + 1,
            forall|other: u32| other != id ==> final(self).count_spec(other) == old(self).count_spec(other),
    {
        let n = self.entries.len();
        let mut i: usize = 0;
        proof {
            assert(self.entries@.skip(0) =~= self.entries@);
        }
        while i < n
            invariant
                0 <= i <= n,
                n == self.entries@.len(),
                self.entries@ == old(self).entries@,
                count_in(old(self).entries@, id) < u32::MAX,
                count_in(self.entries@, id) == count_in(self.entries@.skip(i as int), id),
                forall|j: int| 0 <= j < i ==> (#[trigger] self.entries@[j]).0 != id,
            decreases n - i,
        {
            proof {
                assert(self.entries@.skip(i as int)[0] == self.entries@[i as int]);
                assert(self.entries@.skip(i as int).drop_first() =~= self.entries@.skip(i + 1));
            }
            if self.entries[i].0 == id {
                let count = self.entries[i].1;
                proof {
                    assert(count == count_in(self.entries@, id));
                    assert(count_in(old(self).entries@, id) == old(self).count_spec(id));
                    assert(count < u32::MAX);
                }
                self.entries.set(i, (id, count + 1));
                proof {
                    lemma_count_update(old(self).entries@, self.entries@, i as int, id, (count + 1) as u32);
                }
                return;
            }
            i = i + 1;
        }
        proof {
            assert(self.entries@.skip(n as int) =~= Seq::<(u32, u32)>::empty());
        }
        self.entries.push((id, 1));
        proof {
            lemma_count_push(old(self).entries@, id, 1);
            assert forall|other: u32| other != id implies
                final(self).count_spec(other) == old(self).count_spec(other) by {
                lemma_count_push_other(old(self).entries@, id, 1, other);
            }
        }
    }

    /// The entries as (process id, count) pairs, one per counted id, for
    /// introspection.
    pub fn entries(&self) -> (v: &Vec<(u32, u32)>)
        ensures
            v@ == self@,
            forall|i: int| 0 <= i < v@.len() ==> (#[trigger] v@[i]).1 == self.count_spec(v@[i].0)
                || exists|j: int| 0 <= j < i && (#[trigger] v@[j]).0 == v@[i].0,
    {
        proof {
            lemma_count_first_match(self.entries@);
        }
        &self.entries
    }
}

/// Updating the entry at the first index holding `id` changes `id`'s count to
/// the new value and no other id's count.
proof fn lemma_count_update(s: Seq<(u32, u32)>, t: Seq<(u32, u32)>, i: int, id: u32, v: u32)
    requires
        0 <= i < s.len(),
        s[i].0 == id,
        forall|j: int| 0 <= j < i ==> (#[trigger] s[j]).0 != id,
        t == s.update(i, (id, v)),
    ensures
        count_in(t, id) == v,
        forall|other: u32| other != id ==> count_in(t, other) == count_in(s, other),
    decreases s.len(),
{
    if i == 0 {
        assert(t[0] == (id, v));
        assert forall|other: u32| other != id implies count_in(t, other) == count_in(s, other) by {
            assert(t.drop_first() =~= s.drop_first());
        }
    } else {
        assert(t.drop_first() =~= s.drop_first().update(i - 1, (id, v)));
        lemma_count_update(s.drop_first(), t.drop_first(), i - 1, id, v);
        assert(t[0] == s[0]);
        assert forall|other: u32| other != id implies count_in(t, other) == count_in(s, other) by {
            if s[0].0 != other {
                assert(count_in(t, other) == count_in(t.drop_first(), other));
                assert(count_in(s, other) == count_in(s.drop_first(), other));
            }
        }
    }
}

/// Appending an entry for an id with no prior entry sets that id's count to
/// the appended value.
proof fn lemma_count_push(s: Seq<(u32, u32)>, id: u32, v: u32)
    requires
        forall|j: int| 0 <= j < s.len() ==> (#[trigger] s[j]).0 != id,
    ensures
        count_in(s.push((id, v)), id) == v,
    decreases s.len(),
{
    if s.len() == 0 {
        assert(s.push((id, v))[0] == (id, v));
    } else {
        assert(s.push((id, v)).drop_first() =~= s.drop_first().push((id, v)));
        lemma_count_push(s.drop_first(), id, v);
    }
}

/// Appending an entry for one id leaves every other id's count unchanged.
proof fn lemma_count_push_other(s: Seq<(u32, u32)>, id: u32, v: u32, other: u32)
    requires
        other != id,
    ensures
        count_in(s.push((id, v)), other) == count_in(s, other),
    decreases s.len(),
{
    if s.len() == 0 {
        assert(s.push((id, v))[0] == (id, v));
        assert(s.push((id, v)).drop_first() =~= Seq::<(u32, u32)>::empty());
        assert(count_in(Seq::<(u32, u32)>::empty(), other) == 0);
    } else {
        assert(s.push((id, v))[0] == s[0]);
        assert(s.push((id, v)).drop_first() =~= s.drop_first().push((id, v)));
        lemma_count_push_other(s.drop_first(), id, v, other);
        if s[0].0 == other {
            assert(count_in(s.push((id, v)), other) == s[0].1);
            assert(count_in(s, other) == s[0].1);
        } else {
            assert(count_in(s.push((id, v)), other) == count_in(s.push((id, v)).drop_first(), other));
            assert(count_in(s, other) == count_in(s.drop_first(), other));
        }
    }
}

/// In any entry list, an entry preceded by no entry with the same id carries
/// that id's count.
proof fn lemma_count_first_match(s: Seq<(u32, u32)>)
    ensures
        forall|i: int| 0 <= i < s.len() ==> (#[trigger] s[i]).1 == count_in(s, s[i].0)
            || exists|j: int| 0 <= j < i && (#[trigger] s[j]).0 == s[i].0,
    decreases s.len(),
{
    if s.len() > 0 {
        lemma_count_first_match(s.drop_first());
        assert forall|i: int| 0 <= i < s.len() implies (#[trigger] s[i]).1 == count_in(s, s[i].0)
            || exists|j: int| 0 <= j < i && (#[trigger] s[j]).0 == s[i].0 by {
            if i > 0 && s[i].0 != s[0].0 {
                let d = s.drop_first();
                assert(d[i - 1] == s[i]);
                if d[i - 1].1 == count_in(d, d[i - 1].0) {
                    assert(count_in(s, s[i].0) == count_in(d, s[i].0));
                } else {
                    let j = choose|j: int| 0 <= j < i - 1 && (#[trigger] d[j]).0 == d[i - 1].0;
                    assert(s[j + 1] == d[j]);
                }
            }
        }
    }
}

} // verus!
