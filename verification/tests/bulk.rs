use procmap::bulk::{worker_share, Lookup};
use procmap::error::AppError;
use procmap::memory::{
    MemoryCommitState, MemoryMappingType, ProcessMemoryMapping, Region, RegionInfo, MEM_COMMIT,
    MEM_FREE, MEM_IMAGE, MEM_PRIVATE,
};
use procmap::system::System;

fn system(min: usize, max: usize) -> System {
    System { min_app_addr: min, max_app_addr: max, page_size: 0x1000, alloc_granularity: 0x10000 }
}

fn info(base: usize, size: usize, kind: u32, state: u32) -> RegionInfo {
    RegionInfo { allocation_base: base, region_size: size, mapping_type: kind, state }
}

fn answer(layout: &[RegionInfo], addr: usize) -> Option<RegionInfo> {
    layout.iter().find(|r| r.allocation_base == addr).copied()
}

fn sequential(layout: &[RegionInfo], min: usize, max: usize) -> Vec<Region> {
    let mut mapping = ProcessMemoryMapping::new(1, 0, &system(min, max)).expect("a mapping");
    let mut regions: Vec<Region> = Vec::new();
    while let Some(at) = mapping.request() {
        if let Some(found) = mapping.next(answer(layout, at)) {
            regions.push(found);
        }
    }
    regions
}

fn discover_all(layout: &[RegionInfo], min: usize, max: usize) -> Vec<usize> {
    let mut mapping = ProcessMemoryMapping::new(1, 0, &system(min, max)).expect("a mapping");
    let mut bases: Vec<usize> = Vec::new();
    while let Some(at) = mapping.request() {
        mapping.discover(answer(layout, at), &mut bases);
    }
    bases
}

fn look_up(layout: &[RegionInfo], bases: &[usize]) -> Vec<Lookup> {
    bases.iter().map(|b| Lookup { base: *b, answer: answer(layout, *b) }).collect()
}

fn sample_layout() -> Vec<RegionInfo> {
    vec![
        info(0x10000, 0x10000, MEM_PRIVATE, MEM_COMMIT),
        info(0x20000, 0x10000, MEM_IMAGE, MEM_COMMIT),
        info(0x30000, 0x7FFE0000 - 0x30000, 0, MEM_FREE),
    ]
}

#[test]
fn discovery_records_the_allocation_bases_in_order() {
    let layout = sample_layout();
    assert_eq!(discover_all(&layout, 0x10000, 0x7FFE0000), vec![0x10000, 0x20000, 0x30000]);
}

#[test]
fn discovery_tells_which_base_it_added() {
    let mut mapping = ProcessMemoryMapping::new(1, 0, &system(0x10000, 0x100000)).expect("a mapping");
    let mut bases: Vec<usize> = Vec::new();
    assert_eq!(
        mapping.discover(Some(info(0x10000, 0x4000, MEM_PRIVATE, MEM_COMMIT)), &mut bases),
        Some(0x10000)
    );
    assert_eq!(mapping.request(), Some(0x14000));
    assert_eq!(mapping.discover(None, &mut bases), None);
    assert_eq!(bases, vec![0x10000]);
    assert_eq!(mapping.request(), None);
}

#[test]
fn discovery_records_each_allocation_base_once() {
    let mut mapping = ProcessMemoryMapping::new(1, 0, &system(0x10000, 0x100000)).expect("a mapping");
    let mut bases: Vec<usize> = Vec::new();
    assert_eq!(
        mapping.discover(Some(info(0x10000, 0x4000, MEM_PRIVATE, MEM_COMMIT)), &mut bases),
        Some(0x10000)
    );
    assert_eq!(
        mapping.discover(Some(info(0x10000, 0x9000, MEM_PRIVATE, MEM_COMMIT)), &mut bases),
        None
    );
    assert_eq!(mapping.request(), Some(0x19000));
    assert_eq!(
        mapping.discover(Some(info(0x19000, 0x1000, MEM_PRIVATE, MEM_COMMIT)), &mut bases),
        Some(0x19000)
    );
    assert_eq!(bases, vec![0x10000, 0x19000]);
}

#[test]
fn discovery_ignores_an_answer_that_leads_nowhere() {
    let mut mapping = ProcessMemoryMapping::new(1, 0, &system(0x10000, 0x100000)).expect("a mapping");
    let mut bases: Vec<usize> = vec![0x5000];
    assert_eq!(mapping.discover(Some(info(0x8000, 0x1000, 0, MEM_FREE)), &mut bases), None);
    assert_eq!(bases, vec![0x5000]);
    assert_eq!(mapping.request(), None);
}

#[test]
fn discovery_walks_as_the_sequential_scan_does() {
    let layout = sample_layout();
    let mut one = ProcessMemoryMapping::new(1, 0, &system(0x10000, 0x7FFE0000)).expect("a mapping");
    let mut other = ProcessMemoryMapping::new(1, 0, &system(0x10000, 0x7FFE0000)).expect("a mapping");
    let mut bases: Vec<usize> = Vec::new();
    while let Some(at) = one.request() {
        assert_eq!(other.request(), Some(at));
        one.next(answer(&layout, at));
        other.discover(answer(&layout, at), &mut bases);
    }
    assert_eq!(other.request(), None);
}

#[test]
fn bulk_mode_yields_what_sequential_mode_yields() {
    let layout = sample_layout();
    let bases = discover_all(&layout, 0x10000, 0x7FFE0000);
    let lookups = look_up(&layout, &bases);
    let bulk = ProcessMemoryMapping::assemble(&lookups).expect("no lookup failed");
    assert_eq!(bulk, sequential(&layout, 0x10000, 0x7FFE0000));
    assert_eq!(bulk.len(), 3);
}

#[test]
fn bulk_mode_yields_the_same_pairs_on_a_longer_layout() {
    let mut layout: Vec<RegionInfo> = Vec::new();
    let mut at: usize = 0x100000;
    for i in 0..40usize {
        let size: usize = 0x1000 * (1 + i % 5);
        layout.push(info(at, size, MEM_PRIVATE, MEM_COMMIT));
        at += size;
    }
    let bases = discover_all(&layout, 0x100000, at);
    let bulk = ProcessMemoryMapping::assemble(&look_up(&layout, &bases)).expect("no lookup failed");
    let mut bulk_pairs: Vec<(usize, usize)> = bulk.iter().map(|r| (r.base_addr, r.size)).collect();
    let mut seq_pairs: Vec<(usize, usize)> =
        sequential(&layout, 0x100000, at).iter().map(|r| (r.base_addr, r.size)).collect();
    bulk_pairs.sort();
    seq_pairs.sort();
    assert_eq!(bulk_pairs.len(), 40);
    assert_eq!(bulk_pairs, seq_pairs);
}

#[test]
fn assemble_keeps_the_order_of_the_lookups() {
    let lookups: Vec<Lookup> = vec![
        Lookup { base: 0x30000, answer: Some(info(0x30000, 0x1000, MEM_IMAGE, MEM_COMMIT)) },
        Lookup { base: 0x10000, answer: Some(info(0x10000, 0x2000, MEM_PRIVATE, MEM_FREE)) },
    ];
    assert_eq!(
        ProcessMemoryMapping::assemble(&lookups),
        Ok(vec![
            Region {
                base_addr: 0x30000,
                size: 0x1000,
                map_type: MemoryMappingType::Image,
                com_state: MemoryCommitState::Commit,
            },
            Region {
                base_addr: 0x10000,
                size: 0x2000,
                map_type: MemoryMappingType::Private,
                com_state: MemoryCommitState::Free,
            },
        ])
    );
}

#[test]
fn assemble_of_no_lookups_is_an_empty_map() {
    let lookups: Vec<Lookup> = Vec::new();
    assert_eq!(ProcessMemoryMapping::assemble(&lookups), Ok(Vec::new()));
}

#[test]
fn one_failed_lookup_fails_the_bulk_scan() {
    let lookups: Vec<Lookup> = vec![
        Lookup { base: 0x10000, answer: Some(info(0x10000, 0x1000, MEM_IMAGE, MEM_COMMIT)) },
        Lookup { base: 0x20000, answer: None },
        Lookup { base: 0x30000, answer: Some(info(0x30000, 0x1000, MEM_IMAGE, MEM_COMMIT)) },
    ];
    assert_eq!(ProcessMemoryMapping::assemble(&lookups), Err(AppError::Aggregate { failed: 1 }));
}

#[test]
fn the_aggregate_error_counts_the_failed_lookups() {
    let lookups: Vec<Lookup> = vec![
        Lookup { base: 0x10000, answer: None },
        Lookup { base: 0x20000, answer: Some(info(0x20000, 0x1000, MEM_IMAGE, MEM_COMMIT)) },
        Lookup { base: 0x30000, answer: None },
        Lookup { base: 0x40000, answer: None },
    ];
    assert_eq!(ProcessMemoryMapping::assemble(&lookups), Err(AppError::Aggregate { failed: 3 }));
}

#[test]
fn lookups_are_shared_out_evenly() {
    assert_eq!(worker_share(100, 4), 25);
    assert_eq!(worker_share(101, 4), 26);
    assert_eq!(worker_share(103, 4), 26);
    assert_eq!(worker_share(104, 4), 26);
    assert_eq!(worker_share(105, 4), 27);
    assert_eq!(worker_share(7, 1), 7);
}

#[test]
fn a_share_is_at_least_one_lookup() {
    assert_eq!(worker_share(0, 8), 1);
    assert_eq!(worker_share(3, 8), 1);
    assert_eq!(worker_share(8, 8), 1);
    assert_eq!(worker_share(9, 8), 2);
}

#[test]
fn no_worker_counts_as_one() {
    assert_eq!(worker_share(5, 0), 5);
    assert_eq!(worker_share(0, 0), 1);
}

#[test]
fn shares_do_not_overflow() {
    assert_eq!(worker_share(usize::MAX, 1), usize::MAX);
    assert_eq!(worker_share(usize::MAX, 2), usize::MAX / 2 + 1);
    assert_eq!(worker_share(usize::MAX, usize::MAX), 1);
    assert_eq!(worker_share(usize::MAX - 1, usize::MAX), 1);
}

#[test]
fn no_more_workers_than_the_pool_have_work() {
    for total in 0..200usize {
        for workers in 1..17usize {
            let share: usize = worker_share(total, workers);
            let busy: usize = (total + share - 1) / share;
            assert!(busy <= workers);
        }
    }
}
