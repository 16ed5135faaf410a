use pcie_mem_test::classify::{CacheLabel, MemoryLabel};
use pcie_mem_test::context::{Context, Phase, Step, SHOW_RANGE_POST, SHOW_RANGE_PRE};
use pcie_mem_test::region::MappedRegion;
use pcie_mem_test::report::{Estimate, ReportItem};
use pcie_mem_test::unit::{index_to_value, MemUnit};

fn anonymous(len: usize) -> memmap2::MmapMut {
    memmap2::MmapMut::map_anon(len).expect("anonymous mapping")
}

/// A read-only mapping of `len` bytes that holds the pattern.
fn patterned(len: usize) -> memmap2::Mmap {
    let blank = anonymous(len).make_read_only().expect("read-only mapping");
    let mut region = MappedRegion::new(anonymous(len), blank).expect("region");
    for addr in 0..region.len_in_units() {
        region.write(addr, &index_to_value(addr));
    }
    region.into_views().0.make_read_only().expect("read-only mapping")
}

/// Writes `byte` at `offset` of the read-write mapping of `region`.
fn disturb(region: MappedRegion, offset: usize, byte: u8) -> MappedRegion {
    let (mut rw, ro) = region.into_views();
    rw[offset] = byte;
    MappedRegion::new(rw, ro).expect("region")
}

// Mapping a file takes `unsafe`, so the region stands on anonymous mappings of
// the file's length.
#[test]
fn test_on_static_file() {
    let static_file = tempfile::tempfile().expect("failed creating temp file");
    let len: usize = 256 * 1024 * 1024;
    static_file.set_len(len as u64).expect("set_len");
    let mapped = static_file.metadata().expect("metadata").len() as usize;
    let blank = anonymous(mapped).make_read_only().expect("read-only mapping");
    let mut region = MappedRegion::new(anonymous(mapped), blank).expect("region");
    assert!(Context::new().test_region(&mut region));
}

// The byte is written between the filling and the first pass: a second
// thread is not at hand here.
#[test]
fn test_on_modifying_file() {
    let modifying = tempfile::tempfile().expect("failed creating temp file");
    let len: usize = 256 * 1024 * 1024;
    modifying.set_len(len as u64).expect("set_len");
    let mapped = modifying.metadata().expect("metadata").len() as usize;
    let blank = anonymous(mapped).make_read_only().expect("read-only mapping");
    let mut region = MappedRegion::new(anonymous(mapped), blank).expect("region");
    let mut ctx = Context::new();
    assert_eq!(ctx.advance(&mut region), Step::Filled);
    let (mut mmap_concurrent, ro) = region.into_views();
    mmap_concurrent[len / 100] = 0x42;
    let mut region = MappedRegion::new(mmap_concurrent, ro).expect("region");
    let mut step = ctx.advance(&mut region);
    while !step.ends_run() {
        step = ctx.advance(&mut region);
    }
    assert!(ctx.phase != Phase::Passed);
    assert_eq!(ctx.phase, Phase::Failed);
    assert_eq!(ctx.iteration, 0);
    assert_eq!(ctx.first_error_addr, len / 100 / 32);
    assert_eq!(ctx.check[0].0[0], 0xB542028F);
}

#[test]
fn fresh_context_is_zero() {
    let ctx = Context::new();
    assert_eq!(ctx.check.len(), SHOW_RANGE_POST);
    assert_eq!(ctx.reread_cache.len(), SHOW_RANGE_POST);
    assert_eq!(ctx.reread_memory.len(), SHOW_RANGE_POST);
    assert_eq!(ctx.reread_memory2.len(), SHOW_RANGE_POST);
    assert_eq!(SHOW_RANGE_POST, 17 * 1024 * 4);
    assert_eq!(SHOW_RANGE_PRE, 65);
    assert!(ctx.check.iter().all(|u| *u == MemUnit([0; 8])));
    assert!(ctx.reread_memory2.iter().all(|u| *u == MemUnit([0; 8])));
    assert_eq!(ctx.iteration, 0);
    assert_eq!(ctx.first_error_addr, 0);
    assert_eq!(ctx.phase, Phase::Fill);
    assert_eq!(ctx.window_len, 1);
    assert_eq!(ctx.estimate, Estimate { sampled: 0, mismatches: 0 });
}

#[test]
fn context_of_a_chosen_capacity() {
    let ctx = Context::with_capacity(16);
    assert_eq!(ctx.check.len(), 16);
    assert_eq!(ctx.reread_cache.len(), 16);
    assert_eq!(ctx.reread_memory.len(), 16);
    assert_eq!(ctx.reread_memory2.len(), 16);
    assert_eq!(ctx.phase, Phase::Fill);
}

#[test]
fn undisturbed_region_passes_all_passes() {
    let len: usize = 1024 * 1024;
    let mut region = MappedRegion::new(anonymous(len), patterned(len)).expect("region");
    let mut ctx = Context::new();
    assert!(ctx.test_region(&mut region));
    assert_eq!(ctx.phase, Phase::Passed);
    assert_eq!(ctx.iteration, 2);
    let (rw, _ro) = region.into_views();
    let mut bytes = [0u8; 32];
    index_to_value(12345).store(&mut bytes, 0);
    assert_eq!(&rw[12345 * 32..12346 * 32], &bytes);
}

#[test]
fn run_goes_step_by_step() {
    let len: usize = 64 * 1024;
    let mut region = MappedRegion::new(anonymous(len), patterned(len)).expect("region");
    let mut ctx = Context::with_capacity(8);
    assert_eq!(ctx.advance(&mut region), Step::Filled);
    assert_eq!(ctx.phase, Phase::Scan);
    assert_eq!(ctx.advance(&mut region), Step::PassClean { iteration: 0, last: false });
    assert_eq!(ctx.iteration, 1);
    assert_eq!(ctx.advance(&mut region), Step::PassClean { iteration: 1, last: false });
    assert_eq!(ctx.advance(&mut region), Step::PassClean { iteration: 2, last: true });
    assert_eq!(ctx.phase, Phase::Passed);
    assert_eq!(ctx.advance(&mut region), Step::Idle);
    assert_eq!(ctx.phase, Phase::Passed);
}

#[test]
fn empty_region_passes() {
    let mut region = MappedRegion::new(anonymous(16), patterned(16)).expect("region");
    assert_eq!(region.len_in_units(), 0);
    assert!(Context::with_capacity(4).test_region(&mut region));
}

#[test]
fn disturbed_unit_is_the_first_failing_address() {
    let len: usize = 1024 * 1024;
    let mut region = MappedRegion::new(anonymous(len), patterned(len)).expect("region");
    let mut ctx = Context::new();
    assert_eq!(ctx.advance(&mut region), Step::Filled);
    assert_eq!(ctx.advance(&mut region), Step::PassClean { iteration: 0, last: false });
    let mut region = disturb(region, len / 100, 0x42);
    assert_eq!(ctx.advance(&mut region), Step::Mismatch);
    assert_eq!(ctx.phase, Phase::Diagnose);
    assert_eq!(ctx.iteration, 1);
    assert_eq!(ctx.first_error_addr, len / 100 / 32);
    assert_eq!(ctx.first_error_addr, 327);
    let mut disturbed = index_to_value(327);
    disturbed.0[5] = 0x902842_00;
    assert_eq!(ctx.check[0], disturbed);
    assert_eq!(ctx.reread_cache[0], index_to_value(327));

    let report = ctx.failure_report();
    assert_eq!(report.len(), 1 + 65 + 3);
    assert_eq!(report[0], ReportItem::Failure { iteration: 1, addr: 327 });
    for j in 0..65 {
        assert_eq!(report[1 + j], ReportItem::Expected { addr: 262 + j, confirmed: true });
    }
    assert_eq!(report[66], ReportItem::Expected { addr: 327, confirmed: false });
    assert_eq!(
        report[67],
        ReportItem::Checked { iteration: 1, value: disturbed, failed: true }
    );
    assert_eq!(
        report[68],
        ReportItem::Cached {
            iteration: 1,
            value: index_to_value(327),
            label: Some(CacheLabel::CacheAccessError)
        }
    );
    assert_eq!(
        report[0].to_text(),
        "FAIL: error found at iteration 1 address 0x0000028e0"
    );
    assert_eq!(
        report[67].to_text(),
        " It1  MEMBAR 2028e000 6400028e a28e8000 e00028ec   5f000028 90284200 d800028f 48fc0002 FAIL"
    );

    assert_eq!(ctx.advance(&mut region), Step::Diagnosed);
    assert_eq!(ctx.phase, Phase::Failed);
    assert_eq!(ctx.first_error_addr, 327);
    assert_eq!(ctx.window_len, 16384);
    assert_eq!(ctx.estimate, Estimate { sampled: 16384, mismatches: 0 });
    assert_eq!(ctx.reread_memory[0], index_to_value(327));
    assert_eq!(ctx.reread_memory2[0], index_to_value(327));
    assert_eq!(
        ctx.memory_reread_report(0),
        vec![
            ReportItem::Uncached {
                iteration: 1,
                value: index_to_value(327),
                finding: MemoryLabel::SingleCacheAccessError
            },
            ReportItem::Reread { iteration: 1, value: index_to_value(327) },
        ]
    );
    for k in [1usize, 2, 100, 16383] {
        assert_eq!(ctx.check[k], index_to_value(327 + k));
        assert_eq!(ctx.reread_cache[k], index_to_value(327 + k));
        assert_eq!(ctx.reread_memory[k], index_to_value(327 + k));
        assert_eq!(ctx.reread_memory2[k], index_to_value(327 + k));
        assert_eq!(ctx.cache_reread_report(k), vec![]);
        assert_eq!(
            ctx.memory_reread_report(k),
            vec![ReportItem::Expected { addr: 327 + k, confirmed: true }]
        );
    }
    assert_eq!(ctx.check[16384], MemUnit([0; 8]));
    let rest = ctx.window_report();
    assert_eq!(rest.len(), 16383);
    assert_eq!(rest[0], ReportItem::Expected { addr: 328, confirmed: true });
    assert_eq!(rest[16382], ReportItem::Expected { addr: 327 + 16383, confirmed: true });
    assert_eq!(ctx.advance(&mut region), Step::Idle);
}

#[test]
fn read_only_mapping_is_left_alone_while_nothing_fails() {
    // The read-only mapping stands for storage of its own here and does not
    // hold the pattern: a run that meets no mismatch never reads it.
    let len: usize = 4096;
    let mut other = anonymous(len);
    other[0] = 1;
    let ro = other.make_read_only().expect("read-only mapping");
    let mut region = MappedRegion::new(anonymous(len), ro).expect("region");
    let mut ctx = Context::with_capacity(8);
    assert!(ctx.test_region(&mut region));
    assert_eq!(ctx.phase, Phase::Passed);
}

#[test]
fn first_unit_can_fail_and_has_nothing_before_it() {
    let len: usize = 4096;
    let mut region = MappedRegion::new(anonymous(len), patterned(len)).expect("region");
    let mut ctx = Context::with_capacity(8);
    assert_eq!(ctx.advance(&mut region), Step::Filled);
    let mut region = disturb(region, 0, 0xFF);
    assert_eq!(ctx.advance(&mut region), Step::Mismatch);
    assert_eq!(ctx.iteration, 0);
    assert_eq!(ctx.first_error_addr, 0);
    let report = ctx.failure_report();
    assert_eq!(report.len(), 4);
    assert_eq!(report[0], ReportItem::Failure { iteration: 0, addr: 0 });
    assert_eq!(report[1], ReportItem::Expected { addr: 0, confirmed: false });
    assert_eq!(ctx.advance(&mut region), Step::Diagnosed);
    assert_eq!(ctx.window_len, 8);
    assert_eq!(ctx.estimate, Estimate { sampled: 64, mismatches: 0 });
}

#[test]
fn last_unit_can_fail_and_has_nothing_behind_it() {
    let len: usize = 4096;
    let mut region = MappedRegion::new(anonymous(len), patterned(len)).expect("region");
    let mut ctx = Context::with_capacity(8);
    assert_eq!(ctx.advance(&mut region), Step::Filled);
    let mut region = disturb(region, len - 1, 0);
    assert_eq!(ctx.advance(&mut region), Step::Mismatch);
    assert_eq!(ctx.first_error_addr, 127);
    assert_eq!(ctx.failure_report().len(), 1 + 65 + 3);
    assert_eq!(ctx.advance(&mut region), Step::Diagnosed);
    assert_eq!(ctx.window_len, 1);
    assert_eq!(ctx.window_report(), vec![]);
    assert_eq!(ctx.estimate, Estimate { sampled: 64, mismatches: 0 });
}

#[test]
fn stored_error_is_told_from_an_access_error() {
    // Both mappings show the same wrong value: the error is in the storage.
    let len: usize = 4096;
    let mut source = patterned(len).make_mut().expect("writable mapping");
    source[40 * 32 + 3] ^= 0x80;
    let ro = source.make_read_only().expect("read-only mapping");
    let mut region = MappedRegion::new(anonymous(len), ro).expect("region");
    let mut ctx = Context::with_capacity(8);
    assert_eq!(ctx.advance(&mut region), Step::Filled);
    let mut region = disturb(region, 40 * 32 + 3, 0x90 ^ 0x80);
    assert_eq!(ctx.advance(&mut region), Step::Mismatch);
    assert_eq!(ctx.first_error_addr, 40);
    assert_eq!(ctx.check[0], ctx.reread_cache[0]);
    let report = ctx.failure_report();
    assert_eq!(
        report[report.len() - 1],
        ReportItem::Cached {
            iteration: 0,
            value: ctx.check[0],
            label: Some(CacheLabel::CachedError)
        }
    );
    assert_eq!(ctx.advance(&mut region), Step::Diagnosed);
    assert_eq!(
        ctx.memory_reread_report(0),
        vec![
            ReportItem::Uncached {
                iteration: 0,
                value: ctx.check[0],
                finding: MemoryLabel::StoredAndCachedError
            },
            ReportItem::Reread { iteration: 0, value: ctx.check[0] },
        ]
    );
}

#[test]
fn estimate_counts_the_units_of_the_opposite_half_that_differ() {
    let len: usize = 32 * 100;
    let mut source = patterned(len).make_mut().expect("writable mapping");
    // units 60, 61 and 99 lie in the half that the sweep reads for a failure
    // at unit 10; unit 15 and unit 59 do not
    for unit in [15usize, 59, 60, 61, 99] {
        source[unit * 32] ^= 1;
    }
    let ro = source.make_read_only().expect("read-only mapping");
    let mut region = MappedRegion::new(anonymous(len), ro).expect("region");
    let mut ctx = Context::with_capacity(4);
    assert_eq!(ctx.advance(&mut region), Step::Filled);
    let mut region = disturb(region, 10 * 32, 0xFF);
    assert_eq!(ctx.advance(&mut region), Step::Mismatch);
    assert_eq!(ctx.first_error_addr, 10);
    assert_eq!(ctx.advance(&mut region), Step::Diagnosed);
    assert_eq!(ctx.estimate, Estimate { sampled: 50, mismatches: 3 });
    let percent = 100.0 * ctx.estimate.mismatches as f64 / ctx.estimate.sampled as f64;
    assert_eq!(percent, 6.0);
}

#[test]
fn estimate_is_zero_where_the_opposite_half_holds_the_pattern() {
    let len: usize = 32 * 100;
    let mut region = MappedRegion::new(anonymous(len), patterned(len)).expect("region");
    let mut ctx = Context::with_capacity(4);
    assert_eq!(ctx.advance(&mut region), Step::Filled);
    let mut region = disturb(region, 70 * 32, 0xFF);
    assert_eq!(ctx.advance(&mut region), Step::Mismatch);
    assert_eq!(ctx.advance(&mut region), Step::Diagnosed);
    assert_eq!(ctx.estimate, Estimate { sampled: 50, mismatches: 0 });
    let percent = 100.0 * ctx.estimate.mismatches as f64 / ctx.estimate.sampled as f64;
    assert_eq!(percent, 0.0);
}

#[test]
fn window_shrinks_to_half_a_small_region() {
    let len: usize = 32 * 10;
    let mut region = MappedRegion::new(anonymous(len), patterned(len)).expect("region");
    let mut ctx = Context::new();
    assert_eq!(ctx.advance(&mut region), Step::Filled);
    let mut region = disturb(region, 2 * 32, 0xFF);
    assert_eq!(ctx.advance(&mut region), Step::Mismatch);
    assert_eq!(ctx.advance(&mut region), Step::Diagnosed);
    assert_eq!(ctx.window_len, 5);
    assert_eq!(ctx.estimate.sampled, 5);
    assert_eq!(ctx.check[4], index_to_value(6));
    assert_eq!(ctx.check[5], MemUnit([0; 8]));
}

#[test]
fn new_failure_behind_the_first_is_reported_in_full() {
    let len: usize = 32 * 64;
    let mut source = patterned(len).make_mut().expect("writable mapping");
    source[21 * 32] ^= 1;
    let ro = source.make_read_only().expect("read-only mapping");
    let mut region = MappedRegion::new(anonymous(len), ro).expect("region");
    let mut ctx = Context::with_capacity(4);
    assert_eq!(ctx.advance(&mut region), Step::Filled);
    let mut region = disturb(region, 20 * 32, 0xFF);
    assert_eq!(ctx.advance(&mut region), Step::Mismatch);
    assert_eq!(ctx.advance(&mut region), Step::Diagnosed);
    // unit 21 reads well through the read-write mapping and badly through
    // the read-only one, at once and later
    assert_eq!(
        ctx.cache_reread_report(1),
        vec![
            ReportItem::Expected { addr: 21, confirmed: false },
            ReportItem::Checked { iteration: 0, value: index_to_value(21), failed: true },
            ReportItem::Cached {
                iteration: 0,
                value: ctx.reread_cache[1],
                label: Some(CacheLabel::UnstableCache)
            },
        ]
    );
    let rest = ctx.window_report();
    assert_eq!(rest.len(), 3 + 2 + 1 + 1);
    assert_eq!(
        rest[3],
        ReportItem::Uncached {
            iteration: 0,
            value: ctx.reread_memory[1],
            finding: MemoryLabel::SingleUnstableCache
        }
    );
    assert_eq!(rest[5], ReportItem::Expected { addr: 22, confirmed: true });
}

#[test]
fn context_is_ready_while_it_is_in_order() {
    let len: usize = 4096;
    let mut region = MappedRegion::new(anonymous(len), patterned(len)).expect("region");
    let mut ctx = Context::with_capacity(8);
    assert!(ctx.is_ready(&region));
    assert_eq!(ctx.advance(&mut region), Step::Filled);
    assert!(ctx.is_ready(&region));
    let mut region = disturb(region, 100 * 32, 0xFF);
    assert_eq!(ctx.advance(&mut region), Step::Mismatch);
    assert!(ctx.is_ready(&region));
    let small = MappedRegion::new(anonymous(64), patterned(64)).expect("region");
    assert!(!ctx.is_ready(&small));
    assert_eq!(ctx.advance(&mut region), Step::Diagnosed);
    assert!(ctx.is_ready(&region));
    assert!(ctx.is_ready(&small));
}

#[test]
fn context_is_not_ready_once_it_is_out_of_order() {
    let region = MappedRegion::new(anonymous(4096), patterned(4096)).expect("region");
    let mut ctx = Context::with_capacity(8);
    ctx.reread_memory.pop();
    assert!(!ctx.is_ready(&region));
    let mut ctx = Context::with_capacity(8);
    ctx.window_len = 9;
    assert!(!ctx.is_ready(&region));
    let mut ctx = Context::with_capacity(8);
    ctx.window_len = 0;
    assert!(!ctx.is_ready(&region));
    let mut ctx = Context::with_capacity(8);
    ctx.phase = Phase::Scan;
    ctx.iteration = 3;
    assert!(!ctx.is_ready(&region));
    ctx.iteration = 2;
    assert!(ctx.is_ready(&region));
    let mut ctx = Context::with_capacity(8);
    ctx.estimate = Estimate { sampled: 1, mismatches: 2 };
    assert!(!ctx.is_ready(&region));
    let mut ctx = Context::with_capacity(8);
    ctx.first_error_addr = usize::MAX;
    assert!(!ctx.is_ready(&region));
}

#[test]
fn context_can_be_used_for_another_run() {
    let len: usize = 4096;
    let mut region = MappedRegion::new(anonymous(len), patterned(len)).expect("region");
    let mut ctx = Context::with_capacity(8);
    assert_eq!(ctx.advance(&mut region), Step::Filled);
    let mut region = disturb(region, 50 * 32 + 7, 0xFF);
    assert_eq!(ctx.advance(&mut region), Step::Mismatch);
    assert_eq!(ctx.advance(&mut region), Step::Diagnosed);
    assert_eq!(ctx.phase, Phase::Failed);
    assert!(ctx.test_region(&mut region));
    assert_eq!(ctx.phase, Phase::Passed);
    assert_eq!(ctx.iteration, 2);
    assert_eq!(ctx.first_error_addr, 50);
}

#[test]
fn steps_say_when_time_is_projected_and_when_the_run_ends() {
    assert!(Step::PassClean { iteration: 0, last: false }.is_first_pass());
    assert!(!Step::PassClean { iteration: 1, last: false }.is_first_pass());
    assert!(!Step::PassClean { iteration: 2, last: true }.is_first_pass());
    assert!(!Step::Filled.is_first_pass());
    assert!(!Step::Mismatch.is_first_pass());
    assert!(!Step::Diagnosed.is_first_pass());
    assert!(!Step::Idle.is_first_pass());
    assert!(!Step::Filled.ends_run());
    assert!(!Step::Mismatch.ends_run());
    assert!(!Step::PassClean { iteration: 0, last: false }.ends_run());
    assert!(Step::PassClean { iteration: 2, last: true }.ends_run());
    assert!(Step::Diagnosed.ends_run());
    assert!(Step::Idle.ends_run());
}
