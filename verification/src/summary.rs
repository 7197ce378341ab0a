//! The summary of a run: the outcomes of all partitions added up.

use crate::outcome::FatalSetupError;
use crate::outcome::ScanOutcome;
use crate::planner::Partition;
use vstd::prelude::*;

verus! {

/// A partition that could not be scanned: its place in the plan, its range
/// and the reason.
#[derive(Debug, Clone, Copy, PartialEq, Eq, Structural)]
pub struct FatalPartition {
    pub index: usize,
    pub partition: Partition,
    pub error: FatalSetupError,
}

/// What a run achieved. The totals are kept in 128 bits, which the counts of
/// any number of outcomes fit in.
#[derive(Debug, Clone)]
pub struct RunSummary {
    /// The rows processed by all partitions that were scanned.
    pub rows_scanned: u128,
    /// For each column, the values that could not be decoded, over all
    /// partitions that were scanned.
    pub decode_failures: Vec<u128>,
    /// The partitions that could not be scanned, in the order of the plan.
    pub fatal_partitions: Vec<FatalPartition>,
}

/// The rows processed by all of `outcomes` together.
pub open spec fn total_rows_scanned(outcomes: Seq<ScanOutcome>) -> nat
    decreases outcomes.len(),
{
    if outcomes.len() == 0 {
        0
    } else {
        total_rows_scanned(outcomes.drop_last()) + outcomes.last().counted_rows()
    }
}

/// The decode failures of the column at `column` in all of `outcomes`
/// together.
pub open spec fn total_decode_failures(outcomes: Seq<ScanOutcome>, column: int) -> nat
    decreases outcomes.len(),
{
    if outcomes.len() == 0 {
        0
    } else {
        total_decode_failures(outcomes.drop_last(), column) + outcomes.last().counted_failures(
            column,
        )
    }
}

/// The fatal ones among `outcomes`, each with its place, in ascending order
/// of place.
pub open spec fn fatal_partitions_of(outcomes: Seq<ScanOutcome>) -> Seq<FatalPartition>
    decreases outcomes.len(),
{
    if outcomes.len() == 0 {
        Seq::<FatalPartition>::empty()
    } else {
        let earlier = fatal_partitions_of(outcomes.drop_last());
        match outcomes.last().fatal {
            Some(error) => earlier.push(
                FatalPartition {
                    index: (outcomes.len() - 1) as usize,
                    partition: outcomes.last().partition,
                    error,
                },
            ),
            None => earlier,
        }
    }
}

/// What the summary of `outcomes` holds, for a table of `column_count`
/// columns.
pub open spec fn summarizes(summary: RunSummary, outcomes: Seq<ScanOutcome>, column_count: int)
    -> bool {
    &&& summary.rows_scanned == total_rows_scanned(outcomes)
    &&& summary.decode_failures@.len() == column_count
    &&& forall|column: int|
        0 <= column < column_count ==> #[trigger] summary.decode_failures@[column]
            == total_decode_failures(outcomes, column)
    &&& summary.fatal_partitions@ == fatal_partitions_of(outcomes)
}

/// No outcome counts more than 64 bits hold, so the totals of `n` outcomes
/// stay below `n` times that.
proof fn lemma_totals_are_bounded(outcomes: Seq<ScanOutcome>, column: int)
    ensures
        total_rows_scanned(outcomes) <= outcomes.len() * 0xffff_ffff_ffff_ffff,
        total_decode_failures(outcomes, column) <= outcomes.len() * 0xffff_ffff_ffff_ffff,
    decreases outcomes.len(),
{
    if outcomes.len() > 0 {
        lemma_totals_are_bounded(outcomes.drop_last(), column);
    }
}

/// The rows processed by all of `outcomes` together.
fn sum_rows(outcomes: &Vec<ScanOutcome>) -> (total: u128)
    ensures
        total == total_rows_scanned(outcomes@),
{
    let mut total: u128 = 0;
    let mut i: usize = 0;
    while i < outcomes.len()
        invariant
            i <= outcomes.len(),
            total == total_rows_scanned(outcomes@.take(i as int)),
        decreases outcomes.len() - i,
    {
        proof {
            assert(outcomes@.take(i + 1).drop_last() =~= outcomes@.take(i as int));
            lemma_totals_are_bounded(outcomes@.take(i + 1), 0);
        }
        if !outcomes[i].is_fatal() {
            total = total + outcomes[i].rows_processed as u128;
        }
        i = i + 1;
    }
    proof {
        assert(outcomes@.take(outcomes.len() as int) =~= outcomes@);
    }
    total
}

/// The decode failures of one column in all of `outcomes` together.
fn sum_failures(outcomes: &Vec<ScanOutcome>, column: usize) -> (total: u128)
    ensures
        total == total_decode_failures(outcomes@, column as int),
{
    let mut total: u128 = 0;
    let mut i: usize = 0;
    while i < outcomes.len()
        invariant
            i <= outcomes.len(),
            total == total_decode_failures(outcomes@.take(i as int), column as int),
        decreases outcomes.len() - i,
    {
        proof {
            assert(outcomes@.take(i + 1).drop_last() =~= outcomes@.take(i as int));
            lemma_totals_are_bounded(outcomes@.take(i + 1), column as int);
        }
        if !outcomes[i].is_fatal() {
            total = total + outcomes[i].failures_at(column) as u128;
        }
        i = i + 1;
    }
    proof {
        assert(outcomes@.take(outcomes.len() as int) =~= outcomes@);
    }
    total
}

/// The fatal ones among `outcomes`.
fn collect_fatal(outcomes: &Vec<ScanOutcome>) -> (fatal: Vec<FatalPartition>)
    ensures
        fatal@ == fatal_partitions_of(outcomes@),
{
    let mut fatal: Vec<FatalPartition> = Vec::new();
    let mut i: usize = 0;
    while i < outcomes.len()
        invariant
            i <= outcomes.len(),
            fatal@ == fatal_partitions_of(outcomes@.take(i as int)),
        decreases outcomes.len() - i,
    {
        proof {
            assert(outcomes@.take(i + 1).drop_last() =~= outcomes@.take(i as int));
        }
        match outcomes[i].fatal {
            Some(error) => {
                fatal.push(FatalPartition { index: i, partition: outcomes[i].partition, error });
            },
            None => {},
        }
        i = i + 1;
    }
    proof {
        assert(outcomes@.take(outcomes.len() as int) =~= outcomes@);
    }
    fatal
}

/// Adds the outcomes of all partitions up, for a table of `column_count`
/// columns. The outcomes are taken in the order of the plan, so the place of
/// an outcome is the place of its partition.
///
/// A fatal outcome is listed and adds nothing to the totals; every other
/// outcome is counted in full, whatever became of the rest.
pub fn aggregate(outcomes: &Vec<ScanOutcome>, column_count: usize) -> (summary: RunSummary)
    ensures
        summarizes(summary, outcomes@, column_count as int),
{
    let rows_scanned = sum_rows(outcomes);
    let mut decode_failures: Vec<u128> = Vec::new();
    while decode_failures.len() < column_count
        invariant
            decode_failures.len() <= column_count,
            forall|column: int|
                0 <= column < decode_failures.len() ==> #[trigger] decode_failures@[column]
                    == total_decode_failures(outcomes@, column),
        decreases column_count - decode_failures.len(),
    {
        let total = sum_failures(outcomes, decode_failures.len());
        decode_failures.push(total);
    }
    let fatal_partitions = collect_fatal(outcomes);
    RunSummary { rows_scanned, decode_failures, fatal_partitions }
}

/// The list of fatal partitions names the failed outcomes and nothing else:
/// each entry gives the place, the range and the error of an outcome that is
/// fatal, the places ascend, and every fatal outcome has its entry.
pub proof fn lemma_fatal_partitions_are_the_failed_outcomes(outcomes: Seq<ScanOutcome>)
    requires
        outcomes.len() <= usize::MAX,
    ensures
        forall|j: int|
            0 <= j < fatal_partitions_of(outcomes).len() ==> {
                let entry = #[trigger] fatal_partitions_of(outcomes)[j];
                &&& entry.index < outcomes.len()
                &&& outcomes[entry.index as int].fatal == Some(entry.error)
                &&& outcomes[entry.index as int].partition == entry.partition
            },
        forall|i: int, j: int|
            0 <= i < j < fatal_partitions_of(outcomes).len() ==> (#[trigger] fatal_partitions_of(
                outcomes,
            )[i]).index < (#[trigger] fatal_partitions_of(outcomes)[j]).index,
        forall|i: int|
            0 <= i < outcomes.len() && (#[trigger] outcomes[i]).fatal is Some ==> exists|j: int|
                0 <= j < fatal_partitions_of(outcomes).len() && (#[trigger] fatal_partitions_of(
                    outcomes,
                )[j]).index == i,
    decreases outcomes.len(),
{
    if outcomes.len() > 0 {
        let earlier = outcomes.drop_last();
        let last = outcomes.len() - 1;
        let list = fatal_partitions_of(outcomes);
        let before = fatal_partitions_of(earlier);
        lemma_fatal_partitions_are_the_failed_outcomes(earlier);
        assert forall|j: int| 0 <= j < before.len() implies (#[trigger] before[j]).index < last
            && list[j] == before[j] by {}
        assert forall|i: int|
            0 <= i < outcomes.len() && (#[trigger] outcomes[i]).fatal is Some implies exists|
            j: int,
        | 0 <= j < list.len() && (#[trigger] list[j]).index == i by {
            if i < last {
                assert(earlier[i].fatal is Some);
            } else {
                assert(list[list.len() - 1].index == i);
            }
        }
    }
}

/// Taking one outcome out of a run takes its own counts out of the totals
/// and leaves the rest of the totals as they are.
pub proof fn lemma_totals_split_by_outcome(outcomes: Seq<ScanOutcome>, k: int, column: int)
    requires
        0 <= k < outcomes.len(),
    ensures
        total_rows_scanned(outcomes) == total_rows_scanned(outcomes.remove(k))
            + outcomes[k].counted_rows(),
        total_decode_failures(outcomes, column) == total_decode_failures(
            outcomes.remove(k),
            column,
        ) + outcomes[k].counted_failures(column),
    decreases outcomes.len(),
{
    if k < outcomes.len() - 1 {
        lemma_totals_split_by_outcome(outcomes.drop_last(), k, column);
        assert(outcomes.remove(k).drop_last() =~= outcomes.drop_last().remove(k));
    }
}

/// A partition that fails takes nothing from the others: if the outcome at
/// place `k` is replaced by a fatal one, the totals are those of the other
/// outcomes, each counted in full, and every other outcome is what it was.
pub proof fn lemma_fault_is_isolated(
    outcomes: Seq<ScanOutcome>,
    k: int,
    failed: ScanOutcome,
    column: int,
)
    requires
        0 <= k < outcomes.len(),
        failed.fatal is Some,
    ensures
        total_rows_scanned(outcomes.update(k, failed)) == total_rows_scanned(outcomes.remove(k)),
        total_decode_failures(outcomes.update(k, failed), column) == total_decode_failures(
            outcomes.remove(k),
            column,
        ),
        total_rows_scanned(outcomes.update(k, failed)) == total_rows_scanned(outcomes)
            - outcomes[k].counted_rows(),
        total_decode_failures(outcomes.update(k, failed), column) == total_decode_failures(
            outcomes,
            column,
        ) - outcomes[k].counted_failures(column),
        forall|i: int|
            0 <= i < outcomes.len() && i != k ==> #[trigger] outcomes.update(k, failed)[i]
                == outcomes[i],
{
    let hit = outcomes.update(k, failed);
    lemma_totals_split_by_outcome(hit, k, column);
    lemma_totals_split_by_outcome(outcomes, k, column);
    assert(hit.remove(k) =~= outcomes.remove(k));
}

/// The fatal partitions among the first `n` outcomes of a run in which only
/// the outcome at place `k` is fatal.
proof fn lemma_one_fault_in_prefix(outcomes: Seq<ScanOutcome>, k: int, n: int)
    requires
        0 <= k < outcomes.len() <= usize::MAX,
        0 <= n <= outcomes.len(),
        forall|i: int| 0 <= i < outcomes.len() ==> ((#[trigger] outcomes[i]).fatal is Some <==> i == k),
    ensures
        n <= k ==> fatal_partitions_of(outcomes.take(n)) == Seq::<FatalPartition>::empty(),
        n > k ==> fatal_partitions_of(outcomes.take(n)) == seq![
            FatalPartition {
                index: k as usize,
                partition: outcomes[k].partition,
                error: outcomes[k].fatal.unwrap(),
            },
        ],
    decreases n,
{
    if n > 0 {
        lemma_one_fault_in_prefix(outcomes, k, n - 1);
        assert(outcomes.take(n).drop_last() =~= outcomes.take(n - 1));
    }
}

/// A run in which exactly one partition fails marks exactly that partition
/// as fatal, and its totals are the totals of all the other partitions.
pub proof fn lemma_one_fault_marks_one_partition(
    outcomes: Seq<ScanOutcome>,
    k: int,
    column: int,
)
    requires
        0 <= k < outcomes.len() <= usize::MAX,
        forall|i: int| 0 <= i < outcomes.len() ==> ((#[trigger] outcomes[i]).fatal is Some <==> i == k),
    ensures
        fatal_partitions_of(outcomes) == seq![
            FatalPartition {
                index: k as usize,
                partition: outcomes[k].partition,
                error: outcomes[k].fatal.unwrap(),
            },
        ],
        total_rows_scanned(outcomes) == total_rows_scanned(outcomes.remove(k)),
        total_decode_failures(outcomes, column) == total_decode_failures(
            outcomes.remove(k),
            column,
        ),
{
    lemma_one_fault_in_prefix(outcomes, k, outcomes.len() as int);
    assert(outcomes.take(outcomes.len() as int) =~= outcomes);
    lemma_totals_split_by_outcome(outcomes, k, column);
}

} // verus!
