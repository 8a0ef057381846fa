use vstd::prelude::*;

verus! {

/// How urgent a request is.
///
/// `Immediate` comes before every `Within`, which comes before `Infinity`.
#[derive(Clone, Copy, Debug, PartialEq, Eq, Structural, Hash)]
pub enum Deadline {
    /// As early as possible.
    Immediate,
    /// Within the given number of milliseconds from submission.
    Within(u64),
    /// Best effort, behind every timed request.
    Infinity,
}

/// A deadline fixed in time: its class, then the instant (in milliseconds)
/// by which a `Within` deadline falls due.
#[derive(Clone, Copy, Debug, PartialEq, Eq, Structural, Hash)]
pub struct DueTime {
    pub class: u8,
    pub at: u128,
}

pub open spec fn due_spec(d: Deadline, now: u64) -> DueTime {
    match d {
        Deadline::Immediate => DueTime { class: 0, at: 0 },
        Deadline::Within(ms) => DueTime { class: 1, at: (now + ms) as u128 },
        Deadline::Infinity => DueTime { class: 2, at: 0 },
    }
}

/// `a` falls due strictly before `b`.
pub open spec fn due_before(a: DueTime, b: DueTime) -> bool {
    a.class < b.class || (a.class == b.class && a.at < b.at)
}

impl Deadline {
    /// The deadline fixed at time `now`.
    pub fn due(&self, now: u64) -> (r: DueTime)
        ensures
            r == due_spec(*self, now),
    {
        match self {
            Deadline::Immediate => DueTime { class: 0, at: 0 },
            Deadline::Within(ms) => DueTime { class: 1, at: now as u128 + *ms as u128 },
            Deadline::Infinity => DueTime { class: 2, at: 0 },
        }
    }
}

impl DueTime {
    pub fn is_before(&self, other: &DueTime) -> (r: bool)
        ensures
            r == due_before(*self, *other),
    {
        self.class < other.class || (self.class == other.class && self.at < other.at)
    }
}

/// Deadlines submitted at the same instant are ordered as their classes and
/// durations say.
pub proof fn lemma_deadline_order(a: Deadline, b: Deadline, now: u64)
    ensures
        a is Immediate && !(b is Immediate) ==> due_before(due_spec(a, now), due_spec(b, now)),
        !(a is Infinity) && b is Infinity ==> due_before(due_spec(a, now), due_spec(b, now)),
        a is Within && b is Within && a->Within_0 < b->Within_0
            ==> due_before(due_spec(a, now), due_spec(b, now)),
{
}

} // verus!
