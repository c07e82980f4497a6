//! Instants as plain values: whole seconds since the epoch plus nanoseconds
//! within the second. All ordering the store relies on is defined here.

use vstd::prelude::*;

verus! {

/// One instant in time, at the granularity the store needs: seconds since the
/// epoch and nanoseconds within that second. Nanoseconds may reach into a
/// second extra range so that a leap second can be represented.
#[derive(Clone, Copy, Debug, PartialEq, Eq, Structural)]
pub struct Timestamp {
    pub seconds: i64,
    pub nanos: u32,
}

impl Timestamp {
    /// A timestamp is well formed when its nanosecond part stays below two
    /// seconds (the extra second leaves room for a leap second).
    pub open spec fn wf(self) -> bool {
        self.nanos < 2_000_000_000
    }

    /// Instants are ordered by seconds first, nanoseconds second.
    pub open spec fn spec_le(self, other: Timestamp) -> bool {
        self.seconds < other.seconds
            || (self.seconds == other.seconds && self.nanos <= other.nanos)
    }

    /// `self` is at or after `other`.
    pub open spec fn spec_ge(self, other: Timestamp) -> bool {
        other.spec_le(self)
    }

    pub fn new(seconds: i64, nanos: u32) -> (t: Timestamp)
        requires
            nanos < 2_000_000_000,
        ensures
            t == (Timestamp { seconds, nanos }),
            t.wf(),
    {
        Timestamp { seconds, nanos }
    }

    /// Whether `self` is at or before `other`, seconds first, nanoseconds second.
    pub fn le(&self, other: &Timestamp) -> (r: bool)
        ensures
            r == self.spec_le(*other),
    {
        self.seconds < other.seconds
            || (self.seconds == other.seconds && self.nanos <= other.nanos)
    }

    /// Whether `self` is at or after `other`.
    pub fn ge(&self, other: &Timestamp) -> (r: bool)
        ensures
            r == self.spec_ge(*other),
    {
        other.le(self)
    }
}

/// The earliest of a sequence of instants under whole-second comparison:
/// a later instant replaces the running earliest only when its seconds are
/// strictly smaller, so on a tie in seconds the earlier-seen instant stays.
/// `None` exactly when the sequence is empty.
pub open spec fn earliest_of(s: Seq<Timestamp>) -> Option<Timestamp>
    decreases s.len(),
{
    if s.len() == 0 {
        None
    } else {
        match earliest_of(s.drop_last()) {
            None => Some(s.last()),
            Some(e) => if s.last().seconds < e.seconds {
                Some(s.last())
            } else {
                Some(e)
            },
        }
    }
}

/// The earliest instant is one of the sequence's instants, and no instant of
/// the sequence has strictly smaller seconds.
pub proof fn lemma_earliest_is_min(s: Seq<Timestamp>)
    requires
        s.len() > 0,
    ensures
        earliest_of(s) is Some,
        exists|i: int| 0 <= i < s.len() && s[i] == earliest_of(s)->0,
        forall|j: int| 0 <= j < s.len() ==> (earliest_of(s)->0).seconds <= s[j].seconds,
    decreases s.len(),
{
    if s.len() == 1 {
        assert(s[0] == earliest_of(s)->0);
    } else {
        lemma_earliest_is_min(s.drop_last());
        let e = earliest_of(s.drop_last())->0;
        let i = choose|i: int| 0 <= i < s.drop_last().len() && s.drop_last()[i] == e;
        if s.last().seconds < e.seconds {
            assert(s[s.len() - 1] == earliest_of(s)->0);
        } else {
            assert(s[i] == earliest_of(s)->0);
        }
        assert forall|j: int| 0 <= j < s.len() implies (earliest_of(s)->0).seconds
            <= s[j].seconds by {
            if j < s.len() - 1 {
                assert(s.drop_last()[j] == s[j]);
            }
        }
    }
}

/// When one instant's seconds are strictly below every other instant's
/// seconds, the earliest is that instant, wherever it stands in the sequence.
pub proof fn lemma_earliest_unique_min(s: Seq<Timestamp>, i: int)
    requires
        0 <= i < s.len(),
        forall|j: int| 0 <= j < s.len() && j != i ==> s[i].seconds < s[j].seconds,
    ensures
        earliest_of(s) == Some(s[i]),
    decreases s.len(),
{
    if s.len() == 1 {
    } else if i == s.len() - 1 {
        lemma_earliest_is_min(s.drop_last());
        let e = earliest_of(s.drop_last())->0;
        let k = choose|k: int| 0 <= k < s.drop_last().len() && s.drop_last()[k] == e;
        assert(s[k] == e);
        assert(s.last().seconds < e.seconds);
    } else {
        assert forall|j: int| 0 <= j < s.drop_last().len() && j != i
            implies s.drop_last()[i].seconds < s.drop_last()[j].seconds by {
            assert(s.drop_last()[j] == s[j]);
        }
        lemma_earliest_unique_min(s.drop_last(), i);
        assert(s[i].seconds < s.last().seconds);
    }
}

} // verus!
