//! Counters of what happened during the runtime of the relay.

use vstd::prelude::*;
use crate::text::{decimal, push_decimal, push_str_chars, string_of};

verus! {

/// Counts statistics during runtime.
#[derive(Debug, Clone, Copy)]
pub struct Statistics {
    pub fetch_counter: usize,
    pub post_counter: usize,
    pub new_news: usize,
    pub errors: usize,
    pub timeouts: usize,
}

/// Selects which statistic to increment.
#[derive(Debug, Clone, Copy, PartialEq, Eq, Structural)]
pub enum Incr {
    FetchCounter,
    PostCounter,
    NewNews,
    Errors,
    Timeouts,
}

/// The counter selected by `incr`.
pub open spec fn counter(s: Statistics, incr: Incr) -> usize {
    match incr {
        Incr::FetchCounter => s.fetch_counter,
        Incr::PostCounter => s.post_counter,
        Incr::NewNews => s.new_news,
        Incr::Errors => s.errors,
        Incr::Timeouts => s.timeouts,
    }
}

/// All counters are zero.
pub open spec fn is_zero(s: Statistics) -> bool {
    s.fetch_counter == 0 && s.post_counter == 0 && s.new_news == 0 && s.errors == 0 && s.timeouts == 0
}

/// The report of the counters.
pub open spec fn statistics_text(s: Statistics) -> Seq<char> {
    "Fetch count: "@ + decimal(s.fetch_counter as nat) + "\nPosted news: "@ + decimal(s.post_counter as nat)
        + "\nNew news: "@ + decimal(s.new_news as nat) + "\nIssues handled: "@ + decimal(s.errors as nat)
        + "\nSources timed out: "@ + decimal(s.timeouts as nat) + "\n\t\t\t\t\t"@
}

impl Statistics {
    /// All counters at zero.
    pub fn new() -> (r: Self)
        ensures
            is_zero(r),
    {
        Self { fetch_counter: 0, post_counter: 0, new_news: 0, errors: 0, timeouts: 0 }
    }

    /// Adds one to the selected counter; the others stay as they were.
    pub fn increment(&mut self, incr: Incr)
        requires
            counter(*old(self), incr) < usize::MAX,
        ensures
            forall|i: Incr| #[trigger] counter(*final(self), i) == if i == incr {
                counter(*old(self), i) + 1
            } else {
                counter(*old(self), i) as int
            },
    {
        match incr {
            Incr::FetchCounter => { self.fetch_counter += 1 },
            Incr::PostCounter => { self.post_counter += 1 },
            Incr::NewNews => { self.new_news += 1 },
            Incr::Errors => { self.errors += 1 },
            Incr::Timeouts => { self.timeouts += 1 },
        }
    }

    /// Sets every counter back to zero.
    pub fn reset(&mut self)
        ensures
            is_zero(*final(self)),
    {
        self.fetch_counter = 0;
        self.post_counter = 0;
        self.new_news = 0;
        self.errors = 0;
        self.timeouts = 0;
    }

    /// The report of the counters, as posted to the statistics webhook.
    pub fn to_string(&self) -> (r: String)
        ensures
            r@ == statistics_text(*self),
    {
        let mut out: Vec<char> = Vec::new();
        push_str_chars(&mut out, "Fetch count: ");
        push_decimal(&mut out, self.fetch_counter as u64);
        push_str_chars(&mut out, "\nPosted news: ");
        push_decimal(&mut out, self.post_counter as u64);
        push_str_chars(&mut out, "\nNew news: ");
        push_decimal(&mut out, self.new_news as u64);
        push_str_chars(&mut out, "\nIssues handled: ");
        push_decimal(&mut out, self.errors as u64);
        push_str_chars(&mut out, "\nSources timed out: ");
        push_decimal(&mut out, self.timeouts as u64);
        push_str_chars(&mut out, "\n\t\t\t\t\t");
        assert(out@ =~= statistics_text(*self));
        string_of(&out)
    }
}

} // verus!
