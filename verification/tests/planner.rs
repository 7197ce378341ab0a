use rust_oracle_performance::config::ConfigError;
use rust_oracle_performance::planner::{plan, Partition};

fn ranges(partitions: &[Partition]) -> Vec<(usize, usize)> {
    partitions.iter().map(|p| (p.start_id, p.end_id())).collect()
}

#[test]
fn even_split_of_a_hundred_thousand_rows() {
    let partitions = plan(100000, 4).unwrap();
    assert_eq!(partitions.len(), 4);
    assert!(partitions.iter().all(|p| p.size == 25000));
    assert_eq!(
        ranges(&partitions),
        vec![(1, 25001), (25001, 50001), (50001, 75001), (75001, 100001)]
    );
}

#[test]
fn even_split_covers_every_id_below_the_row_count_once() {
    let partitions = plan(100000, 4).unwrap();
    for id in 1..100000usize {
        let holders = partitions
            .iter()
            .filter(|p| p.start_id <= id && id < p.end_id())
            .count();
        assert_eq!(holders, 1, "id {}", id);
    }
}

#[test]
fn forty_rows_for_two_workers() {
    let partitions = plan(40, 2).unwrap();
    assert_eq!(
        partitions,
        vec![
            Partition { start_id: 1, size: 20 },
            Partition { start_id: 21, size: 20 },
        ]
    );
}

#[test]
fn partitions_follow_one_another_without_gap() {
    for (rows, workers) in [(10usize, 3usize), (7, 2), (100, 7), (5, 5), (2, 1), (99, 10)] {
        let partitions = plan(rows, workers).unwrap();
        let size = rows / workers;
        let mut expected_start = 1;
        for p in &partitions {
            assert_eq!(p.start_id, expected_start);
            assert_eq!(p.size, size);
            expected_start = p.end_id();
        }
        assert!(expected_start >= rows);
        assert!(expected_start < rows + size);
    }
}

#[test]
fn uneven_split_keeps_the_full_size_in_the_last_partition() {
    let partitions = plan(10, 3).unwrap();
    assert_eq!(ranges(&partitions), vec![(1, 4), (4, 7), (7, 10)]);
    let partitions = plan(11, 3).unwrap();
    assert_eq!(ranges(&partitions), vec![(1, 4), (4, 7), (7, 10), (10, 13)]);
    let partitions = plan(5, 2).unwrap();
    assert_eq!(ranges(&partitions), vec![(1, 3), (3, 5)]);
}

#[test]
fn number_of_partitions_counts_the_starts_below_the_row_count() {
    assert_eq!(plan(100000, 4).unwrap().len(), 4);
    assert_eq!(plan(40, 2).unwrap().len(), 2);
    assert_eq!(plan(7, 7).unwrap().len(), 6);
    assert_eq!(plan(2000000, 8).unwrap().len(), 8);
    assert_eq!(plan(9, 5).unwrap().len(), 8);
}

#[test]
fn a_single_row_has_no_id_below_it() {
    assert_eq!(plan(1, 1).unwrap(), vec![]);
}

#[test]
fn one_worker_scans_everything_in_one_partition() {
    assert_eq!(plan(500, 1).unwrap(), vec![Partition { start_id: 1, size: 500 }]);
}

#[test]
fn no_workers_is_refused() {
    assert_eq!(plan(100, 0), Err(ConfigError::NoWorkers));
    assert_eq!(plan(0, 0), Err(ConfigError::NoWorkers));
}

#[test]
fn no_rows_is_refused() {
    assert_eq!(plan(0, 4), Err(ConfigError::NoRows));
}

#[test]
fn more_workers_than_rows_is_refused() {
    assert_eq!(plan(3, 4), Err(ConfigError::MoreWorkersThanRows));
    assert_eq!(plan(1, 2), Err(ConfigError::MoreWorkersThanRows));
}

#[test]
fn a_range_past_the_largest_id_is_refused() {
    assert_eq!(plan(usize::MAX, 1), Err(ConfigError::IdRangeTooLarge));
    assert_eq!(plan(usize::MAX, 3), Err(ConfigError::IdRangeTooLarge));
}

#[test]
fn a_range_that_ends_at_the_largest_id_is_planned() {
    let partitions = plan(usize::MAX, 2).unwrap();
    assert_eq!(partitions.len(), 2);
    assert_eq!(partitions[0], Partition { start_id: 1, size: usize::MAX / 2 });
    assert_eq!(partitions[1].end_id(), usize::MAX);
}

#[test]
fn the_largest_range_that_fits_is_planned() {
    let partitions = plan(usize::MAX - 1, 1).unwrap();
    assert_eq!(
        partitions,
        vec![Partition { start_id: 1, size: usize::MAX - 1 }]
    );
    assert_eq!(partitions[0].end_id(), usize::MAX);
}

#[test]
fn end_id_is_start_plus_size() {
    assert_eq!(Partition { start_id: 21, size: 20 }.end_id(), 41);
    assert_eq!(Partition { start_id: 1, size: 1 }.end_id(), 2);
}

#[test]
fn number_of_partitions_rounds_the_quotient_up_unless_the_plan_ends_at_the_row_count() {
    for rows in 1usize..200 {
        for workers in 1..=rows {
            let size = rows / workers;
            let partitions = plan(rows, workers).unwrap();
            let rounded_up = (rows + size - 1) / size;
            if (rows - 1) % size != 0 {
                assert_eq!(partitions.len(), rounded_up, "{} rows, {} workers", rows, workers);
            } else {
                assert_eq!(partitions.len(), rounded_up - 1, "{} rows, {} workers", rows, workers);
                let end = partitions.last().map(|p| p.end_id()).unwrap_or(1);
                assert_eq!(end, rows);
            }
        }
    }
}

#[test]
fn every_plan_covers_each_id_below_the_row_count_once() {
    for rows in 1usize..60 {
        for workers in 1..=rows {
            let partitions = plan(rows, workers).unwrap();
            let size = rows / workers;
            for id in 1..rows {
                let holders: Vec<usize> = (0..partitions.len())
                    .filter(|k| partitions[*k].start_id <= id && id < partitions[*k].end_id())
                    .collect();
                assert_eq!(holders, vec![(id - 1) / size]);
            }
        }
    }
}

#[test]
fn even_split_has_one_partition_for_each_worker() {
    for (rows, workers) in [(100000usize, 4usize), (40, 2), (2000000, 8), (12, 6), (9, 3)] {
        let partitions = plan(rows, workers).unwrap();
        assert_eq!(partitions.len(), workers);
        assert_eq!(partitions.last().unwrap().end_id(), rows + 1);
    }
}

#[test]
fn checked_end_id_is_none_past_the_largest_id() {
    assert_eq!(Partition { start_id: 21, size: 20 }.checked_end_id(), Some(41));
    assert_eq!(
        Partition { start_id: 1, size: usize::MAX - 1 }.checked_end_id(),
        Some(usize::MAX)
    );
    assert_eq!(Partition { start_id: 1, size: usize::MAX }.checked_end_id(), None);
    assert_eq!(Partition { start_id: usize::MAX, size: usize::MAX }.checked_end_id(), None);
}
