//! The rules on the top-level configuration of a run: how many workers scan
//! at a time, how many connections the shared pool holds, and how many rows
//! one network round trip fetches.

use vstd::prelude::*;

verus! {

/// A configuration that no scan can be run with. A run that meets one stops
/// before any partition is launched.
#[derive(Debug, Clone, Copy, PartialEq, Eq, Structural)]
pub enum ConfigError {
    /// The number of workers is zero.
    NoWorkers,
    /// The number of rows is zero.
    NoRows,
    /// There are more workers than rows, so a partition would be empty.
    MoreWorkersThanRows,
    /// The id just past the last partition does not fit in a machine word.
    IdRangeTooLarge,
    /// One connection more than there are workers does not fit in 32 bits.
    PoolTooLarge,
    /// The number of rows of a fetch batch is zero.
    EmptyFetchBatch,
    /// The number of workers is not written as a decimal number.
    InvalidThreadCount,
    /// The number of rows is not written as a decimal number.
    InvalidRowCount,
}

/// The number of rows that one network round trip fetches unless the caller
/// sets another.
pub const DEFAULT_FETCH_BATCH_ROWS: u32 = 200;

/// The settings of a partition scan.
#[derive(Debug, Clone, Copy, PartialEq, Eq, Structural)]
pub struct ScanSettings {
    /// The number of rows fetched per network round trip, at least one.
    pub fetch_batch_rows: u32,
}

impl ScanSettings {
    /// Settings with the given fetch batch, which must hold at least one row.
    pub fn with_fetch_batch_rows(rows: u32) -> (settings: Result<ScanSettings, ConfigError>)
        ensures
            rows == 0 ==> settings == Err::<ScanSettings, ConfigError>(ConfigError::EmptyFetchBatch),
            rows > 0 ==> settings == Ok::<ScanSettings, ConfigError>(
                ScanSettings { fetch_batch_rows: rows },
            ),
    {
        if rows == 0 {
            Err(ConfigError::EmptyFetchBatch)
        } else {
            Ok(ScanSettings { fetch_batch_rows: rows })
        }
    }
}

impl Default for ScanSettings {
    fn default() -> (settings: ScanSettings)
        ensures
            settings.fetch_batch_rows == DEFAULT_FETCH_BATCH_ROWS,
    {
        ScanSettings { fetch_batch_rows: DEFAULT_FETCH_BATCH_ROWS }
    }
}

/// The number of workers of a run: the number asked for, or the number of
/// CPUs where none was asked for.
pub open spec fn resolved_worker_count(requested: Option<usize>, cpus: usize) -> usize {
    match requested {
        Some(workers) => workers,
        None => cpus,
    }
}

/// The number of connections of the shared pool: one for each worker and one
/// more, held back for the coordinator's own metadata query, so that the
/// workers and the coordinator together never ask for more than there are.
pub open spec fn pool_capacity_of(worker_count: int) -> int {
    worker_count + 1
}

/// Whether a pool of `capacity` connections, `held` of which are out, hands
/// one more out at once. A pool that cannot makes the caller wait until a
/// connection comes back.
pub open spec fn serves_at_once(capacity: int, held: int) -> bool {
    held < capacity
}

/// A pool sized for `worker_count` workers serves them all and the
/// coordinator without making any of them wait: as long as no more than
/// `worker_count` connections are out, one more is handed out at once. Once
/// all `worker_count + 1` are out the next request waits; when one has come
/// back, `worker_count` are out again and the request is served.
pub proof fn lemma_pool_serves_workers_and_coordinator(worker_count: int, held: int)
    requires
        0 <= held <= worker_count,
    ensures
        serves_at_once(pool_capacity_of(worker_count), held),
        !serves_at_once(pool_capacity_of(worker_count), pool_capacity_of(worker_count)),
{
}

/// Calls `num_cpus::get`, which counts the logical CPUs that this process may
/// run on. Its documentation promises that the count is at least one; that
/// is all that is claimed of it here.
#[verifier::external_body]
fn available_cpus() -> (cpus: usize)
    ensures
        cpus >= 1,
{
    num_cpus::get()
}

/// Settles the number of workers from the number asked for and the number of
/// CPUs of the machine.
pub fn resolve_worker_count(requested: Option<usize>, cpus: usize) -> (workers: usize)
    ensures
        workers == resolved_worker_count(requested, cpus),
{
    match requested {
        Some(workers) => workers,
        None => cpus,
    }
}

/// The number of workers of a run on this machine: the number asked for, or
/// else the number of available CPUs, which is at least one.
pub fn worker_count(requested: Option<usize>) -> (workers: usize)
    ensures
        requested is Some ==> workers == requested.unwrap(),
        requested is None ==> workers >= 1,
{
    resolve_worker_count(requested, available_cpus())
}

/// The size to build the connection pool with, for the given number of
/// workers. It is refused only where it does not fit in 32 bits.
pub fn pool_capacity(worker_count: usize) -> (capacity: Result<u32, ConfigError>)
    ensures
        pool_capacity_of(worker_count as int) <= u32::MAX ==> capacity is Ok && capacity.unwrap()
            == pool_capacity_of(worker_count as int),
        pool_capacity_of(worker_count as int) > u32::MAX ==> capacity == Err::<u32, ConfigError>(
            ConfigError::PoolTooLarge,
        ),
{
    if worker_count < u32::MAX as usize {
        Ok(worker_count as u32 + 1)
    } else {
        Err(ConfigError::PoolTooLarge)
    }
}

} // verus!
