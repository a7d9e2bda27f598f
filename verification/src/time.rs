use vstd::prelude::*;

verus! {

/// A point in UTC time: whole seconds since the Unix epoch and the
/// nanoseconds within that second (a leap second may carry up to
/// 1_999_999_999 nanoseconds). Points are ordered by seconds, then nanoseconds.
#[derive(Clone, Copy, Debug, PartialEq, Eq, Structural)]
pub struct Timestamp {
    pub secs: i64,
    pub nanos: u32,
}

impl Timestamp {
    /// `self` is not after `other`.
    pub open spec fn spec_le(self, other: Timestamp) -> bool {
        self.secs < other.secs || (self.secs == other.secs && self.nanos <= other.nanos)
    }

    /// Builds a point from its two parts.
    pub fn new(secs: i64, nanos: u32) -> (t: Timestamp)
        ensures
            t.secs == secs,
            t.nanos == nanos,
    {
        Timestamp { secs, nanos }
    }

    /// Whether `self` is not after `other`.
    pub fn le(&self, other: &Timestamp) -> (b: bool)
        ensures
            b == self.spec_le(*other),
    {
        self.secs < other.secs || (self.secs == other.secs && self.nanos <= other.nanos)
    }
}

/// The later of two points; `b` when they are equal.
pub open spec fn time_max(a: Timestamp, b: Timestamp) -> Timestamp {
    if a.spec_le(b) {
        b
    } else {
        a
    }
}

/// The later of two optional points, where an absent point comes before
/// every present one.
pub open spec fn opt_time_max(a: Option<Timestamp>, b: Option<Timestamp>) -> Option<Timestamp> {
    match (a, b) {
        (Some(x), Some(y)) => Some(time_max(x, y)),
        (Some(x), None) => Some(x),
        (None, y) => y,
    }
}

/// The later of two points.
pub fn later(a: Timestamp, b: Timestamp) -> (r: Timestamp)
    ensures
        r == time_max(a, b),
        a.spec_le(r),
        b.spec_le(r),
{
    if a.le(&b) {
        b
    } else {
        a
    }
}

/// The later of two optional points, an absent one counting as earliest.
pub fn later_opt(a: Option<Timestamp>, b: Option<Timestamp>) -> (r: Option<Timestamp>)
    ensures
        r == opt_time_max(a, b),
{
    match (a, b) {
        (Some(x), Some(y)) => Some(later(x, y)),
        (Some(x), None) => Some(x),
        (None, y) => y,
    }
}

/// Reads the system clock with `std::time::SystemTime::now` and measures it
/// against the Unix epoch with `SystemTime::duration_since`: `Ok` with the
/// time elapsed since the epoch, or, when the clock stands before the epoch,
/// `Err` with how far before it (`SystemTimeError::duration`); each as whole
/// seconds and the nanoseconds within the last second. Nothing is promised
/// of the value but that the nanoseconds are below one second, as
/// `Duration::subsec_nanos` documents: it depends on the clock.
#[verifier::external_body]
fn system_clock() -> (r: Result<(u64, u32), (u64, u32)>)
    ensures
        match r {
            Ok(p) => p.1 < 1_000_000_000,
            Err(p) => p.1 < 1_000_000_000,
        },
{
    match std::time::SystemTime::now().duration_since(std::time::UNIX_EPOCH) {
        Ok(d) => Ok((d.as_secs(), d.subsec_nanos())),
        Err(e) => Err((e.duration().as_secs(), e.duration().subsec_nanos())),
    }
}

/// The current UTC time. A clock before the Unix epoch gives a point with
/// negative seconds; whole seconds beyond the range of `i64` are held at its
/// ends.
pub(crate) fn utc_now() -> (t: Timestamp)
    ensures
        t.nanos < 1_000_000_000,
{
    match system_clock() {
        Ok((secs, nanos)) => {
            if secs <= i64::MAX as u64 {
                Timestamp { secs: secs as i64, nanos }
            } else {
                Timestamp { secs: i64::MAX, nanos }
            }
        },
        Err((secs, nanos)) => {
            if nanos == 0 {
                if secs <= i64::MAX as u64 {
                    Timestamp { secs: -(secs as i64), nanos: 0 }
                } else {
                    Timestamp { secs: i64::MIN, nanos: 0 }
                }
            } else if secs < i64::MAX as u64 {
                Timestamp { secs: -(secs as i64) - 1, nanos: 1_000_000_000 - nanos }
            } else {
                Timestamp { secs: i64::MIN, nanos: 0 }
            }
        },
    }
}

} // verus!
