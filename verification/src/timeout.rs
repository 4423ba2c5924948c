//! Sources that are skipped until a point in time.

use vstd::prelude::*;
use vstd::hash_map::StringHashMap;

verus! {

/// The current UNIX time in seconds (`chrono::Utc::now().timestamp()`).
/// Nothing is promised of the value: it is read from the system clock.
#[verifier::external_body]
pub(crate) fn utc_now_timestamp() -> i64 {
    chrono::Utc::now().timestamp()
}

/// Whether `source` is blocked at time `now` by the blocking times `blocked`.
pub open spec fn timed_out_at(blocked: Map<Seq<char>, i64>, source: Seq<char>, now: i64) -> bool {
    blocked.contains_key(source) && now < blocked[source]
}

/// The sources that are currently skipped, with the time until which each is.
pub struct Timeout {
    pub blocked: StringHashMap<i64>,
}

impl Timeout {
    /// No source is blocked.
    pub fn new() -> (r: Self)
        ensures
            r.blocked@ == Map::<Seq<char>, i64>::empty(),
    {
        Self { blocked: StringHashMap::new() }
    }

    /// Blocks `source` until `until`, replacing any earlier time.
    pub fn time_out(&mut self, source: String, until: i64)
        ensures
            final(self).blocked@ == old(self).blocked@.insert(source@, until),
    {
        self.blocked.insert(source, until);
    }

    /// Whether `source` is blocked at time `now`.
    pub fn is_timed_out_at(&self, source: &str, now: i64) -> (r: bool)
        ensures
            r == timed_out_at(self.blocked@, source@, now),
    {
        match self.blocked.get(source) {
            Some(time) => now < *time,
            None => false,
        }
    }

    /// Whether `source` is blocked now; a source that was never blocked is not.
    pub fn is_timed_out(&self, source: &str) -> (r: bool)
        ensures
            r ==> self.blocked@.contains_key(source@),
            exists|now: i64| r == #[trigger] timed_out_at(self.blocked@, source@, now),
    {
        let now = utc_now_timestamp();
        self.is_timed_out_at(source, now)
    }
}

/// Blocking a source blocks it exactly until the given time and leaves the
/// other sources as they were.
pub proof fn law_time_out(blocked: Map<Seq<char>, i64>, source: Seq<char>, until: i64, other: Seq<char>, now: i64)
    ensures
        timed_out_at(blocked.insert(source, until), source, now) == (now < until),
        other != source ==> timed_out_at(blocked.insert(source, until), other, now) == timed_out_at(
            blocked,
            other,
            now,
        ),
{
}

} // verus!
