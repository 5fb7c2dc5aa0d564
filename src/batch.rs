//! The summary of a run over many files: each file's result is counted, and
//! a failure does not end the run.
use vstd::prelude::*;

use crate::errors::Error;
use crate::pipeline::Outcome;

verus! {

/// How many files of a run were attempted, fixed, and failed.
#[derive(Debug, Clone, Copy, PartialEq, Eq, Structural)]
pub struct BatchReport {
    pub attempted: usize,
    pub fixed: usize,
    pub failed: usize,
}

/// How many of the results are errors.
pub open spec fn failures(results: Seq<Result<Outcome, Error>>) -> nat
    decreases results.len(),
{
    if results.len() == 0 {
        0
    } else {
        failures(results.drop_last()) + if results.last() is Err {
            1nat
        } else {
            0nat
        }
    }
}

/// How many of the results are rewritten files.
pub open spec fn fixes(results: Seq<Result<Outcome, Error>>) -> nat
    decreases results.len(),
{
    if results.len() == 0 {
        0
    } else {
        fixes(results.drop_last()) + if results.last() == Ok::<Outcome, Error>(Outcome::Fixed) {
            1nat
        } else {
            0nat
        }
    }
}

proof fn lemma_counts_bounded(results: Seq<Result<Outcome, Error>>)
    ensures
        failures(results) <= results.len(),
        fixes(results) <= results.len(),
    decreases results.len(),
{
    if results.len() > 0 {
        lemma_counts_bounded(results.drop_last());
    }
}

impl BatchReport {
    /// The report of a run that has attempted nothing yet.
    pub fn new() -> (r: BatchReport)
        ensures
            r.attempted == 0 && r.fixed == 0 && r.failed == 0,
    {
        BatchReport { attempted: 0, fixed: 0, failed: 0 }
    }

    /// Counts the result of one more file.
    pub fn record(&mut self, result: &Result<Outcome, Error>)
        requires
            old(self).attempted < usize::MAX,
            old(self).fixed < usize::MAX,
            old(self).failed < usize::MAX,
        ensures
            final(self).attempted == old(self).attempted + 1,
            final(self).failed == old(self).failed + if result is Err {
                1int
            } else {
                0int
            },
            final(self).fixed == old(self).fixed + if *result == Ok::<Outcome, Error>(
                Outcome::Fixed,
            ) {
                1int
            } else {
                0int
            },
    {
        self.attempted = self.attempted + 1;
        match result {
            Ok(Outcome::Fixed) => {
                self.fixed = self.fixed + 1;
            },
            Ok(Outcome::Unchanged) => {},
            Err(_) => {
                self.failed = self.failed + 1;
            },
        }
    }

    /// Whether every attempted file was processed without error.
    pub fn all_succeeded(&self) -> (r: bool)
        ensures
            r == (self.failed == 0),
    {
        self.failed == 0
    }
}

/// The report of a run with these results, one per file in order: every
/// file counts as attempted, whatever the results before it.
pub fn summarize(results: &Vec<Result<Outcome, Error>>) -> (r: BatchReport)
    ensures
        r.attempted == results.len(),
        r.failed == failures(results@),
        r.fixed == fixes(results@),
{
    let mut r = BatchReport::new();
    let mut i: usize = 0;
    while i < results.len()
        invariant
            i <= results.len(),
            r.attempted == i,
            r.failed == failures(results@.take(i as int)),
            r.fixed == fixes(results@.take(i as int)),
        decreases results.len() - i,
    {
        proof {
            lemma_counts_bounded(results@.take(i as int));
            assert(results@.take(i as int + 1).drop_last() =~= results@.take(i as int));
        }
        r.record(&results[i]);
        i = i + 1;
    }
    assert(results@.take(results.len() as int) =~= results@);
    r
}

} // verus!
