//! The diagnostic state of one run: where the run stands, what it has read at
//! and behind the first mismatch, and what there is to report of it.

use vstd::prelude::*;
use crate::classify::{
    classify_cache,
    classify_memory,
    observed_cache_label,
    observed_memory_label,
    MemoryLabel,
};
use crate::region::MappedRegion;
use crate::report::{Estimate, ReportItem, MAX_ITERATION};
use crate::unit::{index_to_value, unit_pattern, zero_words, MemUnit};

verus! {

/// Number of units before the first failing one whose expected value is
/// reported for orientation.
pub const SHOW_RANGE_PRE: usize = 65;

/// Default capacity of the diagnostic windows, in units.
pub const SHOW_RANGE_POST: usize = 69632;

/// Where a run stands.
#[derive(Clone, Copy, Debug, PartialEq, Eq, Structural)]
pub enum Phase {
    /// The region is to be filled.
    Fill,
    /// A verification pass is to be made.
    Scan,
    /// A pass met a mismatch, which is to be diagnosed.
    Diagnose,
    /// All the passes were made and none met a mismatch.
    Passed,
    /// A mismatch was met and diagnosed.
    Failed,
}

/// What a step of a run did.
#[derive(Clone, Copy, Debug, PartialEq, Eq, Structural)]
pub enum Step {
    /// The region was filled.
    Filled,
    /// Pass `iteration` went over the whole region and met no mismatch;
    /// `last` where no pass follows it.
    PassClean { iteration: u32, last: bool },
    /// A pass met a mismatch and stopped at it.
    Mismatch,
    /// The mismatch was diagnosed.
    Diagnosed,
    /// The run had ended before; nothing was done.
    Idle,
}

impl Step {
    /// Whether the step was the first pass, made without mismatch: the one
    /// after which the time that all the passes will take is projected.
    pub fn is_first_pass(&self) -> (first: bool)
        ensures
            first == match *self {
                Step::PassClean { iteration, .. } => iteration == 0,
                _ => false,
            },
    {
        match self {
            Step::PassClean { iteration, .. } => *iteration == 0,
            _ => false,
        }
    }

    /// Whether the run has ended with the step.
    pub fn ends_run(&self) -> (ended: bool)
        ensures
            ended == match *self {
                Step::PassClean { last, .. } => last,
                Step::Diagnosed => true,
                Step::Idle => true,
                _ => false,
            },
    {
        match self {
            Step::PassClean { last, .. } => *last,
            Step::Diagnosed => true,
            Step::Idle => true,
            _ => false,
        }
    }
}

/// What a run keeps of the first mismatch it meets: four windows of units
/// read at and after the failing address, the pass in which it was met, the
/// failing address itself, and what the estimation sweep found.
pub struct Context {
    /// The units as read through the read-write mapping.
    pub check: Vec<MemUnit>,
    /// The units as read through the read-only mapping right after.
    pub reread_cache: Vec<MemUnit>,
    /// The units as read through the read-only mapping after the estimation
    /// sweep.
    pub reread_memory: Vec<MemUnit>,
    /// The units as read once more right after that.
    pub reread_memory2: Vec<MemUnit>,
    /// The pass that is under way or that was made last.
    pub iteration: u32,
    /// The first unit that a pass found to differ from its expected value.
    pub first_error_addr: usize,
    /// Where the run stands.
    pub phase: Phase,
    /// The number of units, from the failing one on, that the windows hold.
    pub window_len: usize,
    /// What the estimation sweep found.
    pub estimate: Estimate,
}

/// `n` units, every word of them zero.
fn zeroed_window(n: usize) -> (window: Vec<MemUnit>)
    ensures
        window@.len() == n,
        forall|k: int| 0 <= k < n ==> (#[trigger] window@[k])@ == zero_words(),
{
    let mut window: Vec<MemUnit> = Vec::new();
    let mut k: usize = 0;
    while k < n
        invariant
            k <= n,
            window@.len() == k,
            forall|j: int| 0 <= j < k ==> (#[trigger] window@[j])@ == zero_words(),
        decreases n - k,
    {
        window.push(MemUnit::default());
        k += 1;
    }
    window
}

impl Context {
    /// The number of units that each window can hold.
    pub open spec fn capacity(&self) -> nat {
        self.check@.len()
    }

    /// The four windows have the same capacity, which is not zero; the units
    /// that they hold fit in them and have addresses; a run that is under way
    /// is in one of its passes; and the estimate counts no more mismatches
    /// than samples.
    pub open spec fn wf(&self) -> bool {
        &&& self.check@.len() >= 1
        &&& self.reread_cache@.len() == self.check@.len()
        &&& self.reread_memory@.len() == self.check@.len()
        &&& self.reread_memory2@.len() == self.check@.len()
        &&& 1 <= self.window_len <= self.check@.len()
        &&& self.first_error_addr + self.window_len <= usize::MAX
        &&& (self.phase is Scan || self.phase is Diagnose) ==> self.iteration < MAX_ITERATION
        &&& self.estimate.mismatches <= self.estimate.sampled
    }

    /// A context that has a mismatch to diagnose has met it in a region of
    /// `len` units.
    pub open spec fn fits(&self, len: nat) -> bool {
        self.phase is Diagnose ==> self.first_error_addr < len && self.window_len == 1
    }

    /// The number of steps that a run can still make, at most: the filling,
    /// the passes that are left, and the diagnosis.
    pub open spec fn steps_left(&self) -> nat {
        match self.phase {
            Phase::Fill => (MAX_ITERATION + 2) as nat,
            Phase::Scan => if self.iteration < MAX_ITERATION {
                (MAX_ITERATION + 1 - self.iteration) as nat
            } else {
                2
            },
            Phase::Diagnose => 1,
            Phase::Passed => 0,
            Phase::Failed => 0,
        }
    }

    /// Whether all windows hold nothing but zeros and no run was started.
    pub open spec fn is_fresh(&self) -> bool {
        &&& forall|k: int|
            0 <= k < self.check@.len() ==> (#[trigger] self.check@[k])@ == zero_words()
        &&& forall|k: int|
            0 <= k < self.reread_cache@.len() ==> (#[trigger] self.reread_cache@[k])@
                == zero_words()
        &&& forall|k: int|
            0 <= k < self.reread_memory@.len() ==> (#[trigger] self.reread_memory@[k])@
                == zero_words()
        &&& forall|k: int|
            0 <= k < self.reread_memory2@.len() ==> (#[trigger] self.reread_memory2@[k])@
                == zero_words()
        &&& self.iteration == 0
        &&& self.first_error_addr == 0
        &&& self.phase is Fill
        &&& self.window_len == 1
        &&& self.estimate == (Estimate { sampled: 0, mismatches: 0 })
    }

    /// A context with windows of the default capacity, every unit zero.
    pub fn new() -> (ctx: Context)
        ensures
            ctx.wf(),
            ctx.is_fresh(),
            ctx.capacity() == SHOW_RANGE_POST,
    {
        Context::with_capacity(SHOW_RANGE_POST)
    }

    /// A context with windows of `capacity` units, every unit zero.
    pub fn with_capacity(capacity: usize) -> (ctx: Context)
        requires
            capacity >= 1,
        ensures
            ctx.wf(),
            ctx.is_fresh(),
            ctx.capacity() == capacity,
    {
        Context {
            check: zeroed_window(capacity),
            reread_cache: zeroed_window(capacity),
            reread_memory: zeroed_window(capacity),
            reread_memory2: zeroed_window(capacity),
            iteration: 0,
            first_error_addr: 0,
            phase: Phase::Fill,
            window_len: 1,
            estimate: Estimate { sampled: 0, mismatches: 0 },
        }
    }

    /// Whether the context is well formed and can make its next step on
    /// `region`.
    pub fn is_ready(&self, region: &MappedRegion) -> (ready: bool)
        ensures
            ready == (self.wf() && self.fits(region.len())),
    {
        let capacity: usize = self.check.len();
        let windows: bool = capacity >= 1 && self.reread_cache.len() == capacity
            && self.reread_memory.len() == capacity && self.reread_memory2.len() == capacity;
        let held: bool = 1 <= self.window_len && self.window_len <= capacity
            && self.first_error_addr <= usize::MAX - self.window_len;
        let under_way: bool = self.phase == Phase::Scan || self.phase == Phase::Diagnose;
        let met_here: bool = self.first_error_addr < region.len_in_units() && self.window_len == 1;
        windows && held && (!under_way || self.iteration < MAX_ITERATION)
            && self.estimate.mismatches <= self.estimate.sampled
            && (self.phase != Phase::Diagnose || met_here)
    }

    /// What the first table has to report of the unit at offset `k` of the
    /// windows: nothing where it confirms the value; else the expected value,
    /// the checked one as failing, and the first re-read with its label.
    pub open spec fn cache_items(&self, k: int) -> Seq<ReportItem> {
        let addr = (self.first_error_addr + k) as usize;
        let check = self.check@[k];
        let reread_cache = self.reread_cache@[k];
        match observed_cache_label(unit_pattern(addr as nat), check@, reread_cache@) {
            None => Seq::<ReportItem>::empty(),
            Some(label) => seq![
                ReportItem::Expected { addr, confirmed: false },
                ReportItem::Checked { iteration: self.iteration, value: check, failed: true },
                ReportItem::Cached {
                    iteration: self.iteration,
                    value: reread_cache,
                    label: Some(label),
                },
            ],
        }
    }

    /// What the second table has to report of the unit at offset `k` of the
    /// windows: the expected value as confirmed where it confirms the value;
    /// else the two later re-reads, the first with its label, and before them
    /// the values that nothing had been reported of where the failure is new.
    pub open spec fn memory_items(&self, k: int) -> Seq<ReportItem> {
        let addr = (self.first_error_addr + k) as usize;
        let check = self.check@[k];
        let reread_cache = self.reread_cache@[k];
        let reread_memory = self.reread_memory@[k];
        let reread_memory2 = self.reread_memory2@[k];
        match observed_memory_label(
            unit_pattern(addr as nat),
            check@,
            reread_cache@,
            reread_memory@,
            reread_memory2@,
        ) {
            None => seq![ReportItem::Expected { addr, confirmed: true }],
            Some(label) => (if label == MemoryLabel::NewFail {
                seq![
                    ReportItem::Expected { addr, confirmed: false },
                    ReportItem::Checked { iteration: self.iteration, value: check, failed: false },
                    ReportItem::Cached {
                        iteration: self.iteration,
                        value: reread_cache,
                        label: None,
                    },
                ]
            } else {
                Seq::<ReportItem>::empty()
            }) + seq![
                ReportItem::Uncached {
                    iteration: self.iteration,
                    value: reread_memory,
                    finding: label,
                },
                ReportItem::Reread { iteration: self.iteration, value: reread_memory2 },
            ],
        }
    }

    /// The units before the failing one whose expected values are reported:
    /// the `SHOW_RANGE_PRE` units before it, or as many as there are.
    pub open spec fn preceding_items(&self) -> Seq<ReportItem> {
        let count = if self.first_error_addr < SHOW_RANGE_PRE {
            self.first_error_addr as int
        } else {
            SHOW_RANGE_PRE as int
        };
        Seq::new(
            count as nat,
            |j: int|
                ReportItem::Expected {
                    addr: (self.first_error_addr - count + j) as usize,
                    confirmed: true,
                },
        )
    }

    /// What is reported as soon as a pass has met a mismatch: the pass and
    /// the failing unit, the expected values of the units before it, and what
    /// the first table says of the failing unit.
    pub open spec fn failure_items(&self) -> Seq<ReportItem> {
        seq![ReportItem::Failure { iteration: self.iteration, addr: self.first_error_addr }]
            + self.preceding_items() + self.cache_items(0)
    }

    /// What both tables have to report of the units at the offsets from 1 to
    /// `w - 1` of the windows, unit by unit.
    pub open spec fn window_items(&self, w: nat) -> Seq<ReportItem>
        decreases w,
    {
        if w <= 1 {
            Seq::<ReportItem>::empty()
        } else {
            self.window_items((w - 1) as nat) + self.cache_items(w - 1) + self.memory_items(w - 1)
        }
    }

    /// Appends what the first table has to report of the unit at
    /// `addr_offset` of the windows.
    fn push_cache_reread(&self, out: &mut Vec<ReportItem>, addr_offset: usize)
        requires
            self.wf(),
            addr_offset < self.window_len,
        ensures
            final(out)@ == old(out)@ + self.cache_items(addr_offset as int),
    {
        let addr: usize = addr_offset + self.first_error_addr;
        let check: MemUnit = self.check[addr_offset];
        let reread_cache: MemUnit = self.reread_cache[addr_offset];
        let expected: MemUnit = index_to_value(addr);
        match classify_cache(&expected, &check, &reread_cache) {
            None => {},
            Some(label) => {
                out.push(ReportItem::Expected { addr, confirmed: false });
                out.push(
                    ReportItem::Checked { iteration: self.iteration, value: check, failed: true },
                );
                out.push(
                    ReportItem::Cached {
                        iteration: self.iteration,
                        value: reread_cache,
                        label: Some(label),
                    },
                );
            },
        }
        assert(final(out)@ =~= old(out)@ + self.cache_items(addr_offset as int));
    }

    /// Appends what the second table has to report of the unit at
    /// `addr_offset` of the windows.
    fn push_memory_reread(&self, out: &mut Vec<ReportItem>, addr_offset: usize)
        requires
            self.wf(),
            addr_offset < self.window_len,
        ensures
            final(out)@ == old(out)@ + self.memory_items(addr_offset as int),
    {
        let addr: usize = addr_offset + self.first_error_addr;
        let check: MemUnit = self.check[addr_offset];
        let reread_cache: MemUnit = self.reread_cache[addr_offset];
        let reread_memory: MemUnit = self.reread_memory[addr_offset];
        let reread_memory2: MemUnit = self.reread_memory2[addr_offset];
        let expected: MemUnit = index_to_value(addr);
        match classify_memory(&expected, &check, &reread_cache, &reread_memory, &reread_memory2) {
            None => {
                out.push(ReportItem::Expected { addr, confirmed: true });
            },
            Some(label) => {
                if label == MemoryLabel::NewFail {
                    out.push(ReportItem::Expected { addr, confirmed: false });
                    out.push(
                        ReportItem::Checked {
                            iteration: self.iteration,
                            value: check,
                            failed: false,
                        },
                    );
                    out.push(
                        ReportItem::Cached {
                            iteration: self.iteration,
                            value: reread_cache,
                            label: None,
                        },
                    );
                }
                out.push(
                    ReportItem::Uncached {
                        iteration: self.iteration,
                        value: reread_memory,
                        finding: label,
                    },
                );
                out.push(ReportItem::Reread { iteration: self.iteration, value: reread_memory2 });
            },
        }
        assert(final(out)@ =~= old(out)@ + self.memory_items(addr_offset as int));
    }

    /// What the first table has to report of the unit at `addr_offset` of
    /// the windows.
    pub fn cache_reread_report(&self, addr_offset: usize) -> (items: Vec<ReportItem>)
        requires
            self.wf(),
            addr_offset < self.window_len,
        ensures
            items@ == self.cache_items(addr_offset as int),
    {
        let mut items: Vec<ReportItem> = Vec::new();
        self.push_cache_reread(&mut items, addr_offset);
        items
    }

    /// What the second table has to report of the unit at `addr_offset` of
    /// the windows.
    pub fn memory_reread_report(&self, addr_offset: usize) -> (items: Vec<ReportItem>)
        requires
            self.wf(),
            addr_offset < self.window_len,
        ensures
            items@ == self.memory_items(addr_offset as int),
    {
        let mut items: Vec<ReportItem> = Vec::new();
        self.push_memory_reread(&mut items, addr_offset);
        items
    }

    /// What is reported as soon as a pass has met a mismatch.
    pub fn failure_report(&self) -> (items: Vec<ReportItem>)
        requires
            self.wf(),
        ensures
            items@ == self.failure_items(),
    {
        let mut items: Vec<ReportItem> = Vec::new();
        items.push(ReportItem::Failure { iteration: self.iteration, addr: self.first_error_addr });
        let count: usize = if self.first_error_addr < SHOW_RANGE_PRE {
            self.first_error_addr
        } else {
            SHOW_RANGE_PRE
        };
        let start: usize = self.first_error_addr - count;
        let mut j: usize = 0;
        while j < count
            invariant
                j <= count,
                count <= self.first_error_addr,
                start == self.first_error_addr - count,
                count == if self.first_error_addr < SHOW_RANGE_PRE {
                    self.first_error_addr as int
                } else {
                    SHOW_RANGE_PRE as int
                },
                items@.len() == 1 + j,
                items@[0] == (ReportItem::Failure {
                    iteration: self.iteration,
                    addr: self.first_error_addr,
                }),
                forall|i: int| 0 <= i < j ==> items@[1 + i] == self.preceding_items()[i],
            decreases count - j,
        {
            items.push(ReportItem::Expected { addr: start + j, confirmed: true });
            j += 1;
        }
        assert(items@ =~= seq![
            ReportItem::Failure { iteration: self.iteration, addr: self.first_error_addr },
        ] + self.preceding_items());
        self.push_cache_reread(&mut items, 0);
        items
    }

    /// What both tables have to report of the units behind the failing one,
    /// as far as the windows hold them.
    pub fn window_report(&self) -> (items: Vec<ReportItem>)
        requires
            self.wf(),
        ensures
            items@ == self.window_items(self.window_len as nat),
    {
        let mut items: Vec<ReportItem> = Vec::new();
        let mut k: usize = 1;
        while k < self.window_len
            invariant
                1 <= k <= self.window_len,
                self.wf(),
                items@ == self.window_items(k as nat),
            decreases self.window_len - k,
        {
            self.push_cache_reread(&mut items, k);
            self.push_memory_reread(&mut items, k);
            k += 1;
            assert(items@ =~= self.window_items(k as nat));
        }
        items
    }
}

} // verus!
