//! The tally of one partition scan and the summary of a whole run.
//!
//! Each scan task keeps its own tally and hands it over when it is done;
//! only then are the tallies added up. A task that could not set its scan
//! up hands over a fatal outcome, which adds nothing to the totals and takes
//! nothing away from the outcomes of the other tasks.

use crate::planner::Partition;
use vstd::prelude::*;

verus! {

/// Why a partition could not be scanned at all.
#[derive(Debug, Clone, Copy, PartialEq, Eq, Structural)]
pub enum FatalSetupError {
    /// No connection could be had from the pool.
    ConnectionUnavailable,
    /// The partition's query could not be prepared.
    PrepareFailed,
    /// The partition's query could not be run.
    ExecuteFailed,
}

/// What became of one partition: the rows that were processed and, for each
/// column, the values that could not be decoded; or the reason why the scan
/// could not be set up.
#[derive(Debug, Clone)]
pub struct ScanOutcome {
    pub partition: Partition,
    pub rows_processed: u64,
    /// One count for each column, in the columns' declared order.
    pub decode_failures: Vec<u64>,
    pub fatal: Option<FatalSetupError>,
}

impl ScanOutcome {
    /// The rows that this outcome adds to a run: those it processed, or none
    /// where the scan could not be set up.
    pub open spec fn counted_rows(self) -> nat {
        if self.fatal is Some {
            0
        } else {
            self.rows_processed as nat
        }
    }

    /// The decode failures that this outcome adds to a run for the column at
    /// `column`.
    pub open spec fn counted_failures(self, column: int) -> nat {
        if self.fatal is None && 0 <= column < self.decode_failures@.len() {
            self.decode_failures@[column] as nat
        } else {
            0
        }
    }

    /// An outcome is well formed for a table of `column_count` columns if
    /// it has one count of decode failures for each column and, where the
    /// scan could not be set up, has counted nothing.
    pub open spec fn well_formed(self, column_count: int) -> bool {
        &&& self.decode_failures@.len() == column_count
        &&& self.fatal is Some ==> self.rows_processed == 0 && forall|column: int|
            0 <= column < column_count ==> #[trigger] self.decode_failures@[column] == 0
    }

    /// The tally of a scan that has fetched nothing yet, for a table of
    /// `column_count` columns.
    pub fn started(partition: Partition, column_count: usize) -> (outcome: ScanOutcome)
        ensures
            outcome.partition == partition,
            outcome.rows_processed == 0,
            outcome.decode_failures@ == Seq::new(column_count as nat, |c: int| 0u64),
            outcome.fatal is None,
            outcome.well_formed(column_count as int),
    {
        ScanOutcome {
            partition,
            rows_processed: 0,
            decode_failures: zeros(column_count),
            fatal: None,
        }
    }

    /// The outcome of a scan that could not be set up.
    pub fn aborted(partition: Partition, column_count: usize, error: FatalSetupError) -> (outcome:
        ScanOutcome)
        ensures
            outcome.partition == partition,
            outcome.rows_processed == 0,
            outcome.decode_failures@ == Seq::new(column_count as nat, |c: int| 0u64),
            outcome.fatal == Some(error),
            outcome.well_formed(column_count as int),
    {
        ScanOutcome {
            partition,
            rows_processed: 0,
            decode_failures: zeros(column_count),
            fatal: Some(error),
        }
    }

    /// Whether the scan could not be set up.
    pub fn is_fatal(&self) -> (fatal: bool)
        ensures
            fatal == (self.fatal is Some),
    {
        self.fatal.is_some()
    }

    /// Counts one more processed row.
    pub fn record_row(&mut self)
        requires
            old(self).rows_processed < u64::MAX,
        ensures
            final(self).rows_processed == old(self).rows_processed + 1,
            final(self).partition == old(self).partition,
            final(self).decode_failures == old(self).decode_failures,
            final(self).fatal == old(self).fatal,
            forall|column_count: int|
                old(self).fatal is None && old(self).well_formed(column_count)
                    ==> final(self).well_formed(column_count),
    {
        self.rows_processed = self.rows_processed + 1;
    }

    /// Takes note of how the decoding of one value of the column at
    /// `position` went: a value that could not be materialized counts as one
    /// more decode failure of that column, and a decoded one changes nothing.
    pub fn record_decode(&mut self, position: usize, decoded: bool)
        requires
            position < old(self).decode_failures@.len(),
            old(self).decode_failures@[position as int] < u64::MAX,
        ensures
            final(self).decode_failures@ == old(self).decode_failures@.update(
                position as int,
                (old(self).decode_failures@[position as int] + if decoded {
                    0int
                } else {
                    1int
                }) as u64,
            ),
            final(self).rows_processed == old(self).rows_processed,
            final(self).partition == old(self).partition,
            final(self).fatal == old(self).fatal,
            forall|column_count: int|
                old(self).fatal is None && old(self).well_formed(column_count)
                    ==> final(self).well_formed(column_count),
    {
        if !decoded {
            let count = self.decode_failures[position];
            self.decode_failures.set(position, count + 1);
        }
    }

    /// The decode failures counted for the column at `column`; none for a
    /// column that the outcome has no count for.
    pub fn failures_at(&self, column: usize) -> (count: u64)
        ensures
            count == if column < self.decode_failures@.len() {
                self.decode_failures@[column as int]
            } else {
                0u64
            },
    {
        if column < self.decode_failures.len() {
            self.decode_failures[column]
        } else {
            0
        }
    }
}

/// A vector of `len` zero counts.
fn zeros(len: usize) -> (counts: Vec<u64>)
    ensures
        counts@ == Seq::new(len as nat, |c: int| 0u64),
{
    let mut counts: Vec<u64> = Vec::new();
    while counts.len() < len
        invariant
            counts.len() <= len,
            counts@ == Seq::new(counts.len() as nat, |c: int| 0u64),
        decreases len - counts.len(),
    {
        counts.push(0);
    }
    counts
}

} // verus!
