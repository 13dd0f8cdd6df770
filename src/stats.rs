//! Counters of an indexing run.

use vstd::prelude::*;
use crate::formatting::{format_number, format_duration, grouped, duration_text, decimal, decimal_exec};
use crate::extract::append_chars;
use crate::text::{chars_of, string_of};

verus! {

/// Statistics of one indexing run.
#[derive(Debug, Clone, Copy, PartialEq, Eq)]
pub struct IndexStats {
    pub processed: usize,
    pub skipped: usize,
    pub errors: usize,
    pub packages_found: usize,
    pub packages_inserted: usize,
    /// Wall-clock time of the run, in milliseconds.
    pub elapsed_millis: u64,
}

pub open spec fn sat_add(a: usize, b: usize) -> usize {
    if a + b > usize::MAX { usize::MAX } else { (a + b) as usize }
}

fn sat_add_exec(a: usize, b: usize) -> (r: usize)
    ensures
        r == sat_add(a, b),
{
    if a > usize::MAX - b { usize::MAX } else { a + b }
}

impl IndexStats {
    /// All counters at zero.
    pub fn new() -> (r: Self)
        ensures
            r.processed == 0 && r.skipped == 0 && r.errors == 0,
            r.packages_found == 0 && r.packages_inserted == 0 && r.elapsed_millis == 0,
    {
        IndexStats { processed: 0, skipped: 0, errors: 0, packages_found: 0, packages_inserted: 0, elapsed_millis: 0 }
    }

    /// Counts one commit processed, with the facts it yielded and the facts
    /// that were new best observations (counters saturate).
    pub fn record_commit(&mut self, found: usize, inserted: usize)
        ensures
            final(self).processed == sat_add(old(self).processed, 1),
            final(self).packages_found == sat_add(old(self).packages_found, found),
            final(self).packages_inserted == sat_add(old(self).packages_inserted, inserted),
            final(self).skipped == old(self).skipped,
            final(self).errors == old(self).errors,
            final(self).elapsed_millis == old(self).elapsed_millis,
    {
        self.processed = sat_add_exec(self.processed, 1);
        self.packages_found = sat_add_exec(self.packages_found, found);
        self.packages_inserted = sat_add_exec(self.packages_inserted, inserted);
    }

    /// Counts one commit that failed; it stays unmarked.
    pub fn record_error(&mut self)
        ensures
            final(self).errors == sat_add(old(self).errors, 1),
            final(self).processed == old(self).processed,
            final(self).skipped == old(self).skipped,
            final(self).packages_found == old(self).packages_found,
            final(self).packages_inserted == old(self).packages_inserted,
            final(self).elapsed_millis == old(self).elapsed_millis,
    {
        self.errors = sat_add_exec(self.errors, 1);
    }

    /// Counts one commit skipped as already processed.
    pub fn record_skip(&mut self)
        ensures
            final(self).skipped == sat_add(old(self).skipped, 1),
            final(self).processed == old(self).processed,
            final(self).errors == old(self).errors,
            final(self).packages_found == old(self).packages_found,
            final(self).packages_inserted == old(self).packages_inserted,
            final(self).elapsed_millis == old(self).elapsed_millis,
    {
        self.skipped = sat_add_exec(self.skipped, 1);
    }

    pub open spec fn summary_text(&self) -> Seq<char> {
        "Commits: "@ + grouped(self.processed as nat) + " processed, "@ + grouped(self.skipped as nat)
            + " skipped, "@ + decimal(self.errors as nat) + " errors | Packages: "@
            + grouped(self.packages_found as nat) + " found, "@ + grouped(self.packages_inserted as nat)
            + " inserted | Time: "@ + duration_text(self.elapsed_millis as nat)
    }

    /// One-line summary of the run.
    pub fn summary(&self) -> (r: String)
        ensures
            r@ == self.summary_text(),
    {
        let mut out: Vec<char> = chars_of("Commits: ");
        append_chars(&mut out, chars_of(format_number(self.processed).as_str()).as_slice());
        append_chars(&mut out, chars_of(" processed, ").as_slice());
        append_chars(&mut out, chars_of(format_number(self.skipped).as_str()).as_slice());
        append_chars(&mut out, chars_of(" skipped, ").as_slice());
        append_chars(&mut out, decimal_exec(self.errors as u64).as_slice());
        append_chars(&mut out, chars_of(" errors | Packages: ").as_slice());
        append_chars(&mut out, chars_of(format_number(self.packages_found).as_str()).as_slice());
        append_chars(&mut out, chars_of(" found, ").as_slice());
        append_chars(&mut out, chars_of(format_number(self.packages_inserted).as_str()).as_slice());
        append_chars(&mut out, chars_of(" inserted | Time: ").as_slice());
        append_chars(&mut out, chars_of(format_duration(self.elapsed_millis).as_str()).as_slice());
        assert(out@ =~= self.summary_text());
        string_of(out.as_slice())
    }
}

} // verus!
