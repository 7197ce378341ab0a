//! The split of the row-id range of a table into partitions.
//!
//! The ids of a table of `total_rows` rows start at 1. A run with
//! `worker_count` workers scans them in partitions of
//! `total_rows / worker_count` ids each: the first starts at id 1, each next
//! one where the one before ends, and the last is the one that reaches or
//! passes `total_rows`. Every partition has the full size: the last is not
//! cut off at `total_rows`, so its range may run up to one partition size
//! past the ids that exist. Ids below `total_rows` are covered exactly once.

use crate::config::ConfigError;
use vstd::prelude::*;

verus! {

/// A contiguous range of row ids, scanned by one task: the ids from
/// `start_id` up to, not including, `start_id + size`.
#[derive(Debug, Clone, Copy, PartialEq, Eq, Structural)]
pub struct Partition {
    pub start_id: usize,
    pub size: usize,
}

impl Partition {
    /// The id just past the last id of the partition.
    pub open spec fn end(self) -> int {
        self.start_id + self.size
    }

    /// Whether `id` lies in the partition.
    pub open spec fn contains(self, id: int) -> bool {
        self.start_id <= id < self.end()
    }

    /// A partition is well formed if it holds at least one id, none of them
    /// id 0, and its end fits in a machine word.
    pub open spec fn well_formed(self) -> bool {
        &&& self.start_id >= 1
        &&& self.size >= 1
        &&& self.end() <= usize::MAX
    }

    /// The id just past the last id of the partition: the upper bind value
    /// of the partition's query.
    pub fn end_id(&self) -> (end: usize)
        requires
            self.end() <= usize::MAX,
        ensures
            end == self.end(),
    {
        self.start_id + self.size
    }

    /// The id just past the last id of the partition, or `None` where it
    /// does not fit in a machine word.
    pub fn checked_end_id(&self) -> (end: Option<usize>)
        ensures
            self.end() <= usize::MAX ==> end == Some(self.end() as usize),
            self.end() > usize::MAX ==> end is None,
    {
        self.start_id.checked_add(self.size)
    }
}

/// The number of ids of each partition.
pub open spec fn partition_size(total_rows: int, worker_count: int) -> int {
    total_rows / worker_count
}

/// The number of partitions: the number of starts `1`, `1 + size`,
/// `1 + 2 * size`, ... that lie below `total_rows`.
pub open spec fn partition_count(total_rows: int, size: int) -> int {
    if total_rows <= 1 {
        0
    } else {
        (total_rows - 2) / size + 1
    }
}

/// The partition at place `k` of a plan with partitions of `size` ids.
pub open spec fn planned_partition(size: int, k: int) -> Partition {
    Partition { start_id: (1 + k * size) as usize, size: size as usize }
}

/// The plan for `total_rows` rows and `worker_count` workers.
pub open spec fn planned(total_rows: int, worker_count: int) -> Seq<Partition> {
    let size = partition_size(total_rows, worker_count);
    Seq::new(partition_count(total_rows, size) as nat, |k: int| planned_partition(size, k))
}

/// The id just past the last partition of the plan.
pub open spec fn planned_end(total_rows: int, worker_count: int) -> int {
    let size = partition_size(total_rows, worker_count);
    1 + partition_count(total_rows, size) * size
}

/// Why there is no plan for a configuration, if there is none.
pub open spec fn plan_rejection(total_rows: int, worker_count: int) -> Option<ConfigError> {
    if worker_count <= 0 {
        Some(ConfigError::NoWorkers)
    } else if total_rows <= 0 {
        Some(ConfigError::NoRows)
    } else if worker_count > total_rows {
        Some(ConfigError::MoreWorkersThanRows)
    } else if planned_end(total_rows, worker_count) > usize::MAX {
        Some(ConfigError::IdRangeTooLarge)
    } else {
        None
    }
}

/// The quotient of a positive dividend by a positive divisor no larger than
/// it is at least one.
proof fn lemma_size_positive(total_rows: int, worker_count: int)
    requires
        1 <= worker_count <= total_rows,
    ensures
        1 <= partition_size(total_rows, worker_count) <= total_rows,
{
    let q = total_rows / worker_count;
    assert(1 <= q <= total_rows) by (nonlinear_arith)
        requires
            1 <= worker_count <= total_rows,
            q == total_rows / worker_count,
    ;
}

/// What the count of partitions means: place `k` starts below `total_rows`
/// exactly if `k` is below the count.
proof fn lemma_count_is_first_start_past(total_rows: int, size: int, k: int)
    requires
        size >= 1,
        total_rows >= 1,
        k >= 0,
    ensures
        1 + k * size < total_rows <==> k < partition_count(total_rows, size),
        partition_count(total_rows, size) >= 0,
{
    if total_rows > 1 {
        let q = (total_rows - 2) / size;
        assert(q >= 0 && q * size <= total_rows - 2 < (q + 1) * size) by (nonlinear_arith)
            requires
                size >= 1,
                total_rows >= 2,
                q == (total_rows - 2) / size,
        ;
        if k <= q {
            assert(k * size <= q * size) by (nonlinear_arith)
                requires
                    0 <= k <= q,
                    size >= 1,
            ;
        } else {
            assert(k * size >= (q + 1) * size) by (nonlinear_arith)
                requires
                    k >= q + 1,
                    size >= 1,
            ;
        }
    }
}

/// Splits the ids of `total_rows` rows among `worker_count` workers.
///
/// The plan is refused where there is no worker or no row, where the
/// workers outnumber the rows, and where the last partition would end
/// beyond the largest machine word. Otherwise it holds, in ascending order,
/// the partitions of `total_rows / worker_count` ids that start at
/// `1`, `1 + size`, ... below `total_rows`.
pub fn plan(total_rows: usize, worker_count: usize) -> (result: Result<
    Vec<Partition>,
    ConfigError,
>)
    ensures
        match result {
            Ok(partitions) => plan_rejection(total_rows as int, worker_count as int) is None
                && partitions@ == planned(total_rows as int, worker_count as int),
            Err(error) => plan_rejection(total_rows as int, worker_count as int) == Some(error),
        },
        result matches Ok(partitions) ==> forall|k: int|
            0 <= k < partitions@.len() ==> (#[trigger] partitions@[k]).well_formed(),
{
    if worker_count == 0 {
        return Err(ConfigError::NoWorkers);
    }
    if total_rows == 0 {
        return Err(ConfigError::NoRows);
    }
    if worker_count > total_rows {
        return Err(ConfigError::MoreWorkersThanRows);
    }
    let size: usize = total_rows / worker_count;
    proof {
        lemma_size_positive(total_rows as int, worker_count as int);
    }
    let count: usize = if total_rows <= 1 {
        0
    } else {
        (total_rows - 2) / size + 1
    };
    let fits = match count.checked_mul(size) {
        Some(span) => span < usize::MAX,
        None => false,
    };
    if !fits {
        return Err(ConfigError::IdRangeTooLarge);
    }
    let mut partitions: Vec<Partition> = Vec::new();
    let mut start_id: usize = 1;
    while start_id < total_rows
        invariant
            size >= 1,
            total_rows >= 1,
            size == partition_size(total_rows as int, worker_count as int),
            count == partition_count(total_rows as int, size as int),
            1 + count * size <= usize::MAX,
            partitions.len() <= count,
            start_id == 1 + partitions.len() * size,
            partitions@ == Seq::new(
                partitions.len() as nat,
                |k: int| planned_partition(size as int, k),
            ),
        decreases count - partitions.len(),
    {
        let ghost k = partitions.len() as int;
        proof {
            lemma_count_is_first_start_past(total_rows as int, size as int, k);
            assert((k + 1) * size == k * size + size) by (nonlinear_arith);
            assert((k + 1) * size <= count * size) by (nonlinear_arith)
                requires
                    k + 1 <= count,
                    size >= 1,
            ;
        }
        partitions.push(Partition { start_id, size });
        start_id = start_id + size;
    }
    proof {
        lemma_count_is_first_start_past(
            total_rows as int,
            size as int,
            partitions.len() as int,
        );
        assert forall|k: int| 0 <= k < partitions@.len() implies (
        #[trigger] partitions@[k]).well_formed() by {
            lemma_plan_partitions_are_well_formed(total_rows as int, worker_count as int, k);
        }
    }
    Ok(partitions)
}

/// Every partition of a plan is well formed, has the plan's partition size,
/// and starts a whole number of partitions after id 1.
pub proof fn lemma_plan_partitions_are_well_formed(total_rows: int, worker_count: int, k: int)
    requires
        plan_rejection(total_rows, worker_count) is None,
        0 <= k < planned(total_rows, worker_count).len(),
    ensures
        planned(total_rows, worker_count)[k].well_formed(),
        planned(total_rows, worker_count)[k].size == partition_size(total_rows, worker_count),
        planned(total_rows, worker_count)[k].start_id == 1 + k * partition_size(
            total_rows,
            worker_count,
        ),
        planned(total_rows, worker_count)[k].end() <= planned_end(total_rows, worker_count),
{
    let size = partition_size(total_rows, worker_count);
    let count = partition_count(total_rows, size);
    lemma_size_positive(total_rows, worker_count);
    assert(0 <= k * size && (k + 1) * size == k * size + size && (k + 1) * size <= count * size)
        by (nonlinear_arith)
        requires
            0 <= k,
            k + 1 <= count,
            size >= 1,
    ;
}

/// The partitions of a plan follow one another without a gap and without an
/// overlap: the first starts at id 1, and each next one starts at the id
/// where the one before it ends.
pub proof fn lemma_plan_is_contiguous(total_rows: int, worker_count: int, k: int)
    requires
        plan_rejection(total_rows, worker_count) is None,
        0 <= k < planned(total_rows, worker_count).len(),
    ensures
        k == 0 ==> planned(total_rows, worker_count)[k].start_id == 1,
        k > 0 ==> planned(total_rows, worker_count)[k].start_id == planned(
            total_rows,
            worker_count,
        )[k - 1].end(),
{
    if k > 0 {
        let size = partition_size(total_rows, worker_count);
        lemma_plan_partitions_are_well_formed(total_rows, worker_count, k - 1);
        assert(k * size == (k - 1) * size + size) by (nonlinear_arith);
    }
}

/// Every id from 1 up to, not including, `total_rows` lies in one partition
/// of the plan and in no other: the one at place `(id - 1) / size`.
pub proof fn lemma_plan_covers_each_id_once(total_rows: int, worker_count: int, id: int)
    requires
        plan_rejection(total_rows, worker_count) is None,
        1 <= id < total_rows,
    ensures
        0 <= (id - 1) / partition_size(total_rows, worker_count) < planned(
            total_rows,
            worker_count,
        ).len(),
        planned(total_rows, worker_count)[(id - 1) / partition_size(
            total_rows,
            worker_count,
        )].contains(id),
        forall|k: int|
            0 <= k < planned(total_rows, worker_count).len() && #[trigger] planned(
                total_rows,
                worker_count,
            )[k].contains(id) ==> k == (id - 1) / partition_size(total_rows, worker_count),
{
    let size = partition_size(total_rows, worker_count);
    let plan = planned(total_rows, worker_count);
    let home = (id - 1) / size;
    lemma_size_positive(total_rows, worker_count);
    assert(home >= 0 && home * size <= id - 1 < (home + 1) * size && (home + 1) * size == home
        * size + size) by (nonlinear_arith)
        requires
            size >= 1,
            id >= 1,
            home == (id - 1) / size,
    ;
    lemma_count_is_first_start_past(total_rows, size, home);
    lemma_plan_partitions_are_well_formed(total_rows, worker_count, home);
    assert forall|k: int| 0 <= k < plan.len() && #[trigger] plan[k].contains(id) implies k
        == home by {
        lemma_plan_partitions_are_well_formed(total_rows, worker_count, k);
        if k < home {
            assert((k + 1) * size <= home * size && (k + 1) * size == k * size + size)
                by (nonlinear_arith)
                requires
                    k + 1 <= home,
                    size >= 1,
            ;
        } else if k > home {
            assert(k * size >= (home + 1) * size) by (nonlinear_arith)
                requires
                    k >= home + 1,
                    size >= 1,
            ;
        }
    }
}

/// The plan reaches `total_rows` and runs past it by less than one
/// partition: the id just past its last partition is at least `total_rows`
/// and below `total_rows` plus the partition size.
pub proof fn lemma_plan_overrun_is_bounded(total_rows: int, worker_count: int)
    requires
        plan_rejection(total_rows, worker_count) is None,
    ensures
        total_rows <= planned_end(total_rows, worker_count) < total_rows + partition_size(
            total_rows,
            worker_count,
        ),
{
    let size = partition_size(total_rows, worker_count);
    let count = partition_count(total_rows, size);
    lemma_size_positive(total_rows, worker_count);
    lemma_count_is_first_start_past(total_rows, size, count);
    if count > 0 {
        lemma_count_is_first_start_past(total_rows, size, count - 1);
        assert(count * size == (count - 1) * size + size) by (nonlinear_arith);
    }
}

/// Unless the last id below `total_rows` is the last id of a partition, the
/// number of partitions is `total_rows / size`, rounded up. Where it is, the
/// plan ends at `total_rows` and has one partition less.
pub proof fn lemma_partition_count_rounds_up(total_rows: int, worker_count: int)
    requires
        plan_rejection(total_rows, worker_count) is None,
    ensures
        (total_rows - 1) % partition_size(total_rows, worker_count) != 0 ==> planned(
            total_rows,
            worker_count,
        ).len() == (total_rows + partition_size(total_rows, worker_count) - 1) / partition_size(
            total_rows,
            worker_count,
        ),
        (total_rows - 1) % partition_size(total_rows, worker_count) == 0 ==> planned(
            total_rows,
            worker_count,
        ).len() == (total_rows + partition_size(total_rows, worker_count) - 1) / partition_size(
            total_rows,
            worker_count,
        ) - 1 && planned_end(total_rows, worker_count) == total_rows,
{
    let size = partition_size(total_rows, worker_count);
    let count = partition_count(total_rows, size);
    lemma_size_positive(total_rows, worker_count);
    lemma_count_is_first_start_past(total_rows, size, count);
    if count > 0 {
        lemma_count_is_first_start_past(total_rows, size, count - 1);
    }
    let up = (total_rows + size - 1) / size;
    assert(up * size <= total_rows + size - 1 < (up + 1) * size && (total_rows - 1) == ((
        total_rows - 1) / size) * size + (total_rows - 1) % size && 0 <= (total_rows - 1) % size
        < size) by (nonlinear_arith)
        requires
            size >= 1,
            total_rows >= 1,
            up == (total_rows + size - 1) / size,
    ;
    let q = (total_rows - 1) / size;
    let r = (total_rows - 1) % size;
    if r != 0 {
        assert(count * size != total_rows - 1) by (nonlinear_arith)
            requires
                total_rows - 1 == q * size + r,
                0 < r < size,
        ;
        assert(count == up) by (nonlinear_arith)
            requires
                size >= 1,
                count * size >= total_rows,
                (count - 1) * size < total_rows - 1,
                up * size <= total_rows + size - 1,
                total_rows + size - 1 < (up + 1) * size,
        ;
    } else {
        assert(count == q) by (nonlinear_arith)
            requires
                size >= 1,
                total_rows >= 1,
                total_rows - 1 == q * size,
                count * size >= total_rows - 1,
                count == 0 || (count - 1) * size < total_rows - 1,
                count >= 0,
        ;
        assert(up == q + 1) by (nonlinear_arith)
            requires
                size >= 1,
                total_rows - 1 == q * size,
                up * size <= total_rows + size - 1,
                total_rows + size - 1 < (up + 1) * size,
        ;
    }
}

/// Where the workers divide the rows evenly into partitions of at least two
/// ids, the plan has one partition for each worker and ends at the id just
/// past `total_rows`.
pub proof fn lemma_even_split_has_one_partition_per_worker(total_rows: int, worker_count: int)
    requires
        plan_rejection(total_rows, worker_count) is None,
        total_rows % worker_count == 0,
        partition_size(total_rows, worker_count) >= 2,
    ensures
        planned(total_rows, worker_count).len() == worker_count,
        planned_end(total_rows, worker_count) == total_rows + 1,
{
    let size = partition_size(total_rows, worker_count);
    assert(total_rows == worker_count * size) by (nonlinear_arith)
        requires
            worker_count >= 1,
            total_rows % worker_count == 0,
            size == total_rows / worker_count,
    ;
    lemma_count_is_first_start_past(total_rows, size, worker_count);
    lemma_count_is_first_start_past(total_rows, size, worker_count - 1);
    assert((worker_count - 1) * size == worker_count * size - size) by (nonlinear_arith);
}

} // verus!
