use chrono::Utc;
use vstd::prelude::*;

verus! {

/// A point in time: whole seconds since the Unix epoch and the nanoseconds
/// past that second.
#[derive(Clone, Copy, Debug, PartialEq, Eq, Structural)]
pub struct Timestamp {
    pub secs: i64,
    pub nanos: u32,
}

impl Timestamp {
    /// `self` is no later than `other`.
    pub open spec fn spec_not_after(&self, other: &Timestamp) -> bool {
        self.secs < other.secs || (self.secs == other.secs && self.nanos <= other.nanos)
    }

    #[verifier::when_used_as_spec(spec_not_after)]
    pub fn not_after(&self, other: &Timestamp) -> (r: bool)
        ensures
            r == self.spec_not_after(other),
    {
        self.secs < other.secs || (self.secs == other.secs && self.nanos <= other.nanos)
    }

    /// The current time, read by `chrono`'s `Utc::now` and taken apart by
    /// `DateTime::timestamp` and `DateTime::timestamp_subsec_nanos`. Nothing
    /// is claimed of the reading. `Utc::now` panics where the system clock
    /// reads earlier than the Unix epoch.
    #[verifier::external_body]
    pub(crate) fn now() -> (now: Timestamp) {
        let now = Utc::now();
        Timestamp { secs: now.timestamp(), nanos: now.timestamp_subsec_nanos() }
    }

    /// Any two points in time are ordered one way or the other, and the
    /// order is transitive.
    pub proof fn lemma_total_order(a: Timestamp, b: Timestamp, c: Timestamp)
        ensures
            a.spec_not_after(&b) || b.spec_not_after(&a),
            a.spec_not_after(&b) && b.spec_not_after(&a) ==> a == b,
            a.spec_not_after(&b) && b.spec_not_after(&c) ==> a.spec_not_after(&c),
    {
    }
}

} // verus!
