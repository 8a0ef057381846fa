use vstd::prelude::*;

use crate::deadline::{due_before, DueTime};

verus! {

/// A queued item with the time it falls due and its submission sequence number.
pub struct QueueEntry<T> {
    pub due: DueTime,
    pub seq: u64,
    pub item: T,
}

/// `a` is scheduled strictly before `b`: earlier due time, or the same due
/// time and earlier submission.
pub open spec fn scheduled_before<T>(a: QueueEntry<T>, b: QueueEntry<T>) -> bool {
    due_before(a.due, b.due) || (a.due == b.due && a.seq < b.seq)
}

/// A priority queue ordered by due time, ties broken by submission order.
pub struct DeadlineQueue<T> {
    entries: Vec<QueueEntry<T>>,
    next_seq: u64,
}

impl<T> DeadlineQueue<T> {
    pub closed spec fn entries(&self) -> Seq<QueueEntry<T>> {
        self.entries@
    }

    /// The sequence number the next pushed item receives.
    pub closed spec fn next_seq(&self) -> u64 {
        self.next_seq
    }

    /// Every queued item was numbered before the next one will be, and no two
    /// share a number.
    pub open spec fn wf(&self) -> bool {
        &&& forall|i: int| 0 <= i < self.entries().len() ==> #[trigger] self.entries()[i].seq < self.next_seq()
        &&& forall|i: int, j: int|
            0 <= i < j < self.entries().len() ==> self.entries()[i].seq != self.entries()[j].seq
    }

    pub fn new() -> (r: DeadlineQueue<T>)
        ensures
            r.wf(),
            r.entries().len() == 0,
            r.next_seq() == 0,
    {
        DeadlineQueue { entries: Vec::new(), next_seq: 0 }
    }

    pub fn len(&self) -> (r: usize)
        ensures
            r == self.entries().len(),
    {
        self.entries.len()
    }

    /// Whether another item can be numbered.
    pub fn can_push(&self) -> (r: bool)
        ensures
            r == (self.next_seq() < u64::MAX),
    {
        self.next_seq < u64::MAX
    }

    /// Queues `item`, due at `due`, behind every queued item with the same due time.
    pub fn push(&mut self, due: DueTime, item: T)
        requires
            old(self).wf(),
            old(self).next_seq() < u64::MAX,
        ensures
            final(self).wf(),
            final(self).entries() == old(self).entries().push(
                QueueEntry { due, seq: old(self).next_seq(), item },
            ),
            final(self).next_seq() == old(self).next_seq() + 1,
    {
        let seq = self.next_seq;
        let ghost s = self.entries@;
        self.entries.push(QueueEntry { due, seq, item });
        self.next_seq = seq + 1;
        proof {
            assert forall|i: int| 0 <= i < self.entries().len() implies #[trigger] self.entries()[i].seq
                < self.next_seq() by {
                if i < s.len() {
                    assert(self.entries()[i] == old(self).entries()[i]);
                }
            }
            assert forall|i: int, j: int| 0 <= i < j < self.entries().len() implies self.entries()[i].seq
                != self.entries()[j].seq by {
                assert(self.entries()[i] == s[i]);
                if j < s.len() {
                    assert(self.entries()[j] == s[j]);
                } else {
                    assert(old(self).entries()[i].seq < seq);
                }
            }
        }
    }

    /// Removes and returns the entry scheduled first.
    pub fn pop(&mut self) -> (r: Option<QueueEntry<T>>)
        requires
            old(self).wf(),
        ensures
            final(self).wf(),
            final(self).next_seq() == old(self).next_seq(),
            r is None <==> old(self).entries().len() == 0,
            r is None ==> final(self).entries() == old(self).entries(),
            r is Some ==> exists|k: int|
                0 <= k < old(self).entries().len() && old(self).entries()[k] == r->Some_0
                    && final(self).entries() == old(self).entries().remove(k),
            r is Some ==> forall|j: int|
                0 <= j < old(self).entries().len() ==> !scheduled_before(
                    #[trigger] old(self).entries()[j],
                    r->Some_0,
                ),
    {
        if self.entries.len() == 0 {
            return None;
        }
        let ghost s = self.entries@;
        let mut best: usize = 0;
        let mut i: usize = 1;
        while i < self.entries.len()
            invariant
                s == self.entries@,
                s.len() > 0,
                old(self).wf(),
                self.entries@ == old(self).entries(),
                0 <= best < i <= s.len(),
                forall|j: int| 0 <= j < i ==> !scheduled_before(#[trigger] s[j], s[best as int]),
            decreases s.len() - i,
        {
            let e = &self.entries[i];
            let b = &self.entries[best];
            if e.due.is_before(&b.due) || (e.due == b.due && e.seq < b.seq) {
                proof {
                    assert forall|j: int| 0 <= j < i + 1 implies !scheduled_before(#[trigger] s[j], s[i as int]) by {
                        if j < i {
                            assert(!scheduled_before(s[j], s[best as int]));
                            if j != best {
                                assert(s[j].seq != s[best as int].seq);
                            }
                        }
                    }
                }
                best = i;
            } else {
                proof {
                    if i != best {
                        assert(s[i as int].seq != s[best as int].seq);
                    }
                }
            }
            i = i + 1;
        }
        let r = self.entries.remove(best);
        proof {
            assert forall|a: int| 0 <= a < self.entries().len() implies #[trigger] self.entries()[a].seq
                < self.next_seq() by {
                if a < best {
                    assert(self.entries()[a] == s[a]);
                } else {
                    assert(self.entries()[a] == s[a + 1]);
                }
            }
            assert forall|a: int, b: int| 0 <= a < b < self.entries().len() implies self.entries()[a].seq
                != self.entries()[b].seq by {
                let a2 = if a < best { a } else { a + 1 };
                let b2 = if b < best { b } else { b + 1 };
                assert(self.entries()[a] == s[a2]);
                assert(self.entries()[b] == s[b2]);
            }
        }
        Some(r)
    }

    /// Removes and returns every entry, in the order they were kept.
    pub fn drain(&mut self) -> (r: Vec<QueueEntry<T>>)
        requires
            old(self).wf(),
        ensures
            final(self).wf(),
            r@ == old(self).entries(),
            final(self).entries().len() == 0,
            final(self).next_seq() == old(self).next_seq(),
    {
        let mut out: Vec<QueueEntry<T>> = Vec::new();
        std::mem::swap(&mut out, &mut self.entries);
        out
    }
}

/// Tracks how long the queue has stayed at or above a length threshold.
pub struct OverloadDetector {
    busy_threshold: usize,
    max_keep_busy_duration: u64,
    busy_since: Option<u64>,
}

/// Milliseconds from `since` to `now`, or zero if `now` is earlier.
pub open spec fn elapsed(now: u64, since: u64) -> int {
    if now >= since {
        now - since
    } else {
        0
    }
}

impl OverloadDetector {
    pub closed spec fn busy_threshold(&self) -> usize {
        self.busy_threshold
    }

    pub closed spec fn max_keep_busy_duration(&self) -> u64 {
        self.max_keep_busy_duration
    }

    /// When the queue became busy, if it is busy.
    pub closed spec fn busy_since(&self) -> Option<u64> {
        self.busy_since
    }

    pub fn new(busy_threshold: usize, max_keep_busy_duration: u64) -> (r: OverloadDetector)
        ensures
            r.busy_threshold() == busy_threshold,
            r.max_keep_busy_duration() == max_keep_busy_duration,
            r.busy_since() is None,
    {
        OverloadDetector { busy_threshold, max_keep_busy_duration, busy_since: None }
    }

    /// Observes the queue length `queue_len` at time `now` and reports whether
    /// the queue is overloaded: busy since an earlier observation, for at least
    /// the configured duration. The observation that finds the queue newly
    /// busy starts the measurement and never reports overload.
    pub fn check_overload(&mut self, queue_len: usize, now: u64) -> (r: bool)
        ensures
            final(self).busy_threshold() == old(self).busy_threshold(),
            final(self).max_keep_busy_duration() == old(self).max_keep_busy_duration(),
            queue_len < old(self).busy_threshold() ==> !r && final(self).busy_since() is None,
            queue_len >= old(self).busy_threshold() && old(self).busy_since() is None ==> !r
                && final(self).busy_since() == Some(now),
            queue_len >= old(self).busy_threshold() && old(self).busy_since() is Some ==> {
                &&& final(self).busy_since() == old(self).busy_since()
                &&& r == (elapsed(now, old(self).busy_since()->Some_0) >= old(self).max_keep_busy_duration())
            },
    {
        if queue_len < self.busy_threshold {
            self.busy_since = None;
            false
        } else {
            match self.busy_since {
                None => {
                    self.busy_since = Some(now);
                    false
                },
                Some(since) => {
                    let elapsed = if now >= since {
                        now - since
                    } else {
                        0
                    };
                    elapsed >= self.max_keep_busy_duration
                },
            }
        }
    }
}

} // verus!
