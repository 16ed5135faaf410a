//! The run: filling the region, the verification passes, and the diagnosis
//! of the first mismatch, each held against the accesses that it makes.

use vstd::prelude::*;
use crate::classify::lemma_mismatch_is_labelled;
use crate::context::{Context, Phase, Step};
use crate::region::{read_access, reread_access, Access, MappedRegion};
use crate::report::{Estimate, ReportItem, MAX_ITERATION};
use crate::trace::{
    all_reads_hold_pattern,
    appended,
    cache_window_trace,
    clean_pass_trace,
    extends,
    failing_pass_trace,
    fill_trace,
    holds_pattern,
    is_diagnosis_trace,
    is_sweep_prefix,
    lemma_mismatch_count_bounded,
    lemma_mismatch_count_zero,
    memory_window_trace,
    mismatch_count,
};
use crate::unit::{index_to_value, unit_pattern, MemUnit};
use crate::window::{sweep_address, sweep_len, window_len, window_units};

verus! {

/// `count` passes over `n` units without mismatch, one after the other.
pub open spec fn clean_passes(n: nat, count: nat) -> Seq<Access>
    decreases count,
{
    if count == 0 {
        Seq::<Access>::empty()
    } else {
        clean_passes(n, (count - 1) as nat) + clean_pass_trace(n)
    }
}

/// What filling does to a context and to the history of a region of `n`
/// units: every unit is written with its expected value, and the first pass
/// is up next.
pub open spec fn filled(
    pre: Context,
    post: Context,
    n: nat,
    before: Seq<Access>,
    after: Seq<Access>,
) -> bool {
    &&& after == before + fill_trace(n)
    &&& post == (Context { phase: Phase::Scan, iteration: 0, ..pre })
}

/// What a pass without mismatch does: every unit is read and gives its
/// expected value; the next pass is up, or the run has passed where this was
/// the last one.
pub open spec fn pass_clean(
    pre: Context,
    post: Context,
    n: nat,
    before: Seq<Access>,
    after: Seq<Access>,
) -> bool {
    &&& after == before + clean_pass_trace(n)
    &&& post == if pre.iteration + 1 < MAX_ITERATION {
        Context { iteration: (pre.iteration + 1) as u32, ..pre }
    } else {
        Context { phase: Phase::Passed, ..pre }
    }
}

/// What a pass that meets a mismatch does: it stops at the first unit that
/// does not give its expected value, reads that unit again through the
/// read-only mapping, and keeps both values at the start of the first two
/// windows. The diagnosis is up next.
pub open spec fn mismatch_met(
    pre: Context,
    post: Context,
    n: nat,
    before: Seq<Access>,
    after: Seq<Access>,
) -> bool {
    let a = post.first_error_addr as nat;
    let check = post.check@[0];
    let reread = post.reread_cache@[0];
    &&& a < n
    &&& check@ != unit_pattern(a)
    &&& after == before + failing_pass_trace(a, check@, reread@)
    &&& post.check@ == pre.check@.update(0, check)
    &&& post.reread_cache@ == pre.reread_cache@.update(0, reread)
    &&& post.reread_memory@ == pre.reread_memory@
    &&& post.reread_memory2@ == pre.reread_memory2@
    &&& post.iteration == pre.iteration
    &&& post.phase is Diagnose
    &&& post.window_len == 1
    &&& post.estimate == pre.estimate
}

/// What the diagnosis does: it fills the windows behind the failing unit as
/// far as they reach, with the estimation sweep between the first two and the
/// last two, and leaves the rest of the windows as it was. The run has failed.
pub open spec fn diagnosed(
    pre: Context,
    post: Context,
    n: nat,
    before: Seq<Access>,
    after: Seq<Access>,
) -> bool {
    let a = pre.first_error_addr as nat;
    let w = window_units(pre.capacity(), n, a);
    &&& extends(before, after)
    &&& is_diagnosis_trace(
        appended(before, after),
        a,
        n,
        w,
        post.check@,
        post.reread_cache@,
        post.reread_memory@,
        post.reread_memory2@,
        post.estimate.mismatches as nat,
    )
    &&& post.estimate.sampled == sweep_len(n)
    &&& post.window_len == w
    &&& post.first_error_addr == pre.first_error_addr
    &&& post.iteration == pre.iteration
    &&& post.phase is Failed
    &&& post.capacity() == pre.capacity()
    &&& forall|k: int|
        0 <= k < pre.capacity() && !(1 <= k < w) ==> post.check@[k] == pre.check@[k]
            && post.reread_cache@[k] == pre.reread_cache@[k]
    &&& forall|k: int|
        w <= k < pre.capacity() ==> post.reread_memory@[k] == pre.reread_memory@[k]
            && post.reread_memory2@[k] == pre.reread_memory2@[k]
}

/// What one step of a run does, by the phase in which it finds the context.
pub open spec fn advanced(
    pre: Context,
    post: Context,
    n: nat,
    before: Seq<Access>,
    after: Seq<Access>,
    step: Step,
) -> bool {
    match pre.phase {
        Phase::Fill => step == Step::Filled && filled(pre, post, n, before, after),
        Phase::Scan => match step {
            Step::PassClean { iteration, last } => {
                &&& iteration == pre.iteration
                &&& last == (pre.iteration + 1 >= MAX_ITERATION)
                &&& pass_clean(pre, post, n, before, after)
            },
            Step::Mismatch => mismatch_met(pre, post, n, before, after),
            _ => false,
        },
        Phase::Diagnose => step == Step::Diagnosed && diagnosed(pre, post, n, before, after),
        _ => step == Step::Idle && post == pre && after == before,
    }
}

/// Every step brings a run closer to its end: a run that has not ended has
/// fewer steps left after a step than before it, so that it ends after the
/// filling, the passes and one diagnosis at most.
pub proof fn lemma_step_makes_progress(
    pre: Context,
    post: Context,
    n: nat,
    before: Seq<Access>,
    after: Seq<Access>,
    step: Step,
)
    requires
        pre.wf(),
        advanced(pre, post, n, before, after, step),
    ensures
        pre.steps_left() > 0 ==> post.steps_left() < pre.steps_left(),
        pre.steps_left() == 0 <==> step is Idle,
        post.steps_left() == 0 <==> post.phase is Passed || post.phase is Failed,
{
}

/// The unit at which a pass stops is always reported with a label: the
/// report on the mismatch holds the failing unit, the expected values of the
/// units before it, and three lines on the failing unit, the last of which
/// names what the first re-read shows.
pub proof fn lemma_mismatch_is_reported(
    pre: Context,
    post: Context,
    n: nat,
    before: Seq<Access>,
    after: Seq<Access>,
)
    requires
        pre.wf(),
        mismatch_met(pre, post, n, before, after),
    ensures
        post.cache_items(0).len() == 3,
        post.failure_items().len() == 1 + post.preceding_items().len() + 3,
        post.failure_items()[0] == (ReportItem::Failure {
            iteration: pre.iteration,
            addr: post.first_error_addr,
        }),
        post.failure_items().last() matches ReportItem::Cached { label, .. } && label is Some,
{
    lemma_mismatch_is_labelled(
        unit_pattern(post.first_error_addr as nat),
        post.check@[0]@,
        post.reread_cache@[0]@,
        post.reread_memory@[0]@,
        post.reread_memory2@[0]@,
    );
}

/// The estimate counts what the sweep saw: it samples half the region, finds
/// no more mismatches than samples, and finds none exactly where every unit
/// that the sweep read held its expected value.
pub proof fn lemma_estimate_counts_the_sweep(
    pre: Context,
    post: Context,
    n: nat,
    before: Seq<Access>,
    after: Seq<Access>,
)
    requires
        diagnosed(pre, post, n, before, after),
    ensures
        post.estimate.sampled == n / 2,
        post.estimate.mismatches <= post.estimate.sampled,
        post.estimate.mismatches == 0 <==> forall|j: int|
            0 <= j < n / 2 ==> holds_pattern(
                #[trigger] appended(before, after)[2 * (post.window_len - 1) + j],
            ),
{
    let c = 2 * (post.window_len - 1);
    let h = (n / 2) as int;
    let accesses = appended(before, after);
    let sweep = accesses.subrange(c, c + h);
    lemma_mismatch_count_bounded(sweep);
    lemma_mismatch_count_zero(sweep);
    assert(forall|j: int| 0 <= j < h ==> sweep[j] == accesses[c + j]);
    if post.estimate.mismatches == 0 {
        assert forall|j: int| 0 <= j < n / 2 implies holds_pattern(
            #[trigger] accesses[2 * (post.window_len - 1) + j],
        ) by {
            assert(holds_pattern(sweep[j]));
        }
    }
    if forall|j: int| 0 <= j < n / 2 ==> holds_pattern(#[trigger] accesses[c + j]) {
        assert forall|j: int| 0 <= j < sweep.len() implies holds_pattern(#[trigger] sweep[j]) by {
            assert(holds_pattern(accesses[c + j]));
        }
    }
}

/// What a whole run does to a region of `n` units, by its result. A run that
/// passes has filled the region and made all its passes without mismatch; it
/// leaves in the context what it found there, but for the phase and the pass.
/// A run that fails has filled the region, made `post.iteration` passes
/// without mismatch and one that met its first mismatch at
/// `post.first_error_addr`, and has diagnosed it; it leaves the windows behind
/// the units that it captured as it found them.
pub open spec fn run_outcome(
    pre: Context,
    post: Context,
    n: nat,
    accesses: Seq<Access>,
    passed: bool,
) -> bool {
    if passed {
        &&& post == (Context { phase: Phase::Passed, iteration: (MAX_ITERATION - 1) as u32, ..pre })
        &&& accesses == fill_trace(n) + clean_passes(n, MAX_ITERATION as nat)
    } else {
        let a = post.first_error_addr as nat;
        let head = fill_trace(n) + clean_passes(n, post.iteration as nat) + failing_pass_trace(
            a,
            post.check@[0]@,
            post.reread_cache@[0]@,
        );
        &&& post.phase is Failed
        &&& post.iteration < MAX_ITERATION
        &&& a < n
        &&& post.check@[0]@ != unit_pattern(a)
        &&& post.window_len == window_units(post.capacity(), n, a)
        &&& post.estimate.sampled == sweep_len(n)
        &&& head.len() <= accesses.len()
        &&& accesses.subrange(0, head.len() as int) == head
        &&& is_diagnosis_trace(
            accesses.subrange(head.len() as int, accesses.len() as int),
            a,
            n,
            post.window_len as nat,
            post.check@,
            post.reread_cache@,
            post.reread_memory@,
            post.reread_memory2@,
            post.estimate.mismatches as nat,
        )
        &&& forall|k: int|
            post.window_len <= k < pre.capacity() ==> {
                &&& post.check@[k] == pre.check@[k]
                &&& post.reread_cache@[k] == pre.reread_cache@[k]
                &&& post.reread_memory@[k] == pre.reread_memory@[k]
                &&& post.reread_memory2@[k] == pre.reread_memory2@[k]
            }
    }
}

impl Context {
    /// Writes its expected value to every unit of the region, in ascending
    /// order.
    fn fill(&mut self, region: &mut MappedRegion) -> (step: Step)
        requires
            old(self).wf(),
            old(region).wf(),
        ensures
            final(self).wf(),
            final(region).wf(),
            final(region).len() == old(region).len(),
            final(self).fits(final(region).len()),
            final(self).capacity() == old(self).capacity(),
            step == Step::Filled,
            filled(
                *old(self),
                *final(self),
                old(region).len(),
                old(region).history(),
                final(region).history(),
            ),
    {
        let n: usize = region.len_in_units();
        let ghost before = region.history();
        let mut addr: usize = 0;
        assert(before =~= before + fill_trace(0));
        while addr < n
            invariant
                addr <= n,
                region.wf(),
                region.len() == n,
                region.history() == before + fill_trace(addr as nat),
                n == old(region).len(),
                before == old(region).history(),
            decreases n - addr,
        {
            let value: MemUnit = index_to_value(addr);
            region.write(addr, &value);
            assert(region.history() =~= before + fill_trace((addr + 1) as nat));
            addr += 1;
        }
        self.iteration = 0;
        self.phase = Phase::Scan;
        Step::Filled
    }

    /// Reads the units of the region in ascending order through the
    /// read-write mapping and stops at the first that does not hold its
    /// expected value.
    fn scan(&mut self, region: &mut MappedRegion) -> (step: Step)
        requires
            old(self).wf(),
            old(region).wf(),
            old(self).phase is Scan,
        ensures
            final(self).wf(),
            final(region).wf(),
            final(region).len() == old(region).len(),
            final(self).fits(final(region).len()),
            final(self).capacity() == old(self).capacity(),
            advanced(
                *old(self),
                *final(self),
                old(region).len(),
                old(region).history(),
                final(region).history(),
                step,
            ),
    {
        let n: usize = region.len_in_units();
        let ghost before = region.history();
        let mut addr: usize = 0;
        assert(before =~= before + clean_pass_trace(0));
        while addr < n
            invariant
                addr <= n,
                region.wf(),
                region.len() == n,
                region.history() == before + clean_pass_trace(addr as nat),
                n == old(region).len(),
                before == old(region).history(),
                *self == *old(self),
                self.wf(),
                self.phase is Scan,
            decreases n - addr,
        {
            let value: MemUnit = region.read(addr);
            let expected: MemUnit = index_to_value(addr);
            if value != expected {
                let reread: MemUnit = region.reread(addr);
                self.check[0] = value;
                self.reread_cache[0] = reread;
                self.first_error_addr = addr;
                self.window_len = 1;
                self.phase = Phase::Diagnose;
                proof {
                    region.lemma_units_addressable();
                    assert(region.history() =~= before + failing_pass_trace(
                        addr as nat,
                        value@,
                        reread@,
                    ));
                }
                return Step::Mismatch;
            }
            assert(region.history() =~= before + clean_pass_trace((addr + 1) as nat));
            addr += 1;
        }
        let iteration: u32 = self.iteration;
        if iteration + 1 < MAX_ITERATION {
            self.iteration = iteration + 1;
            Step::PassClean { iteration, last: false }
        } else {
            self.phase = Phase::Passed;
            Step::PassClean { iteration, last: true }
        }
    }

    /// Looks closer at the mismatch that a pass has met: captures the first
    /// two windows behind the failing unit, reads the opposite half of the
    /// region for an estimate of how much of it is wrong, and captures the
    /// last two windows, the failing unit first.
    fn diagnose(&mut self, region: &mut MappedRegion) -> (step: Step)
        requires
            old(self).wf(),
            old(region).wf(),
            old(self).phase is Diagnose,
            old(self).fits(old(region).len()),
        ensures
            final(self).wf(),
            final(region).wf(),
            final(region).len() == old(region).len(),
            final(self).fits(final(region).len()),
            final(self).capacity() == old(self).capacity(),
            step == Step::Diagnosed,
            diagnosed(
                *old(self),
                *final(self),
                old(region).len(),
                old(region).history(),
                final(region).history(),
            ),
    {
        let n: usize = region.len_in_units();
        let a: usize = self.first_error_addr;
        let w: usize = window_len(self.check.len(), n, a);
        let ghost before = region.history();
        let ghost pre = *self;
        proof {
            region.lemma_units_addressable();
        }
        let mut k: usize = 1;
        assert(before =~= before + cache_window_trace(
            a as nat,
            1,
            self.check@,
            self.reread_cache@,
        ));
        while k < w
            invariant
                1 <= k <= w,
                w <= pre.check@.len(),
                a + w <= n,
                region.wf(),
                region.len() == n,
                self.check@.len() == pre.check@.len(),
                self.reread_cache@.len() == pre.check@.len(),
                forall|i: int|
                    0 <= i < pre.check@.len() && !(1 <= i < k) ==> self.check@[i] == pre.check@[i]
                        && self.reread_cache@[i] == pre.reread_cache@[i],
                self.reread_memory@ == pre.reread_memory@,
                self.reread_memory2@ == pre.reread_memory2@,
                self.iteration == pre.iteration,
                self.first_error_addr == pre.first_error_addr,
                self.phase == pre.phase,
                self.window_len == pre.window_len,
                self.estimate == pre.estimate,
                pre.wf(),
                region.history() == before + cache_window_trace(
                    a as nat,
                    k as nat,
                    self.check@,
                    self.reread_cache@,
                ),
            decreases w - k,
        {
            let value: MemUnit = region.read(a + k);
            let reread: MemUnit = region.reread(a + k);
            self.check[k] = value;
            self.reread_cache[k] = reread;
            k += 1;
            assert(region.history() =~= before + cache_window_trace(
                a as nat,
                k as nat,
                self.check@,
                self.reread_cache@,
            ));
        }
        let ghost after_cache = region.history();
        let h: usize = n / 2;
        let mut mismatches: usize = 0;
        let mut j: usize = 0;
        let ghost mut sweep: Seq<Access> = Seq::empty();
        assert(after_cache =~= after_cache + sweep);
        while j < h
            invariant
                j <= h,
                h == n / 2,
                a < n,
                region.wf(),
                region.len() == n,
                region.history() == after_cache + sweep,
                is_sweep_prefix(sweep, a as nat, n as nat, j as nat),
                mismatches == mismatch_count(sweep),
                mismatches <= j,
            decreases h - j,
        {
            let addr: usize = sweep_address(a, n, j);
            let actual: MemUnit = region.reread(addr);
            let expected: MemUnit = index_to_value(addr);
            proof {
                let next = sweep.push(reread_access(addr as nat, actual@));
                assert(next.drop_last() =~= sweep);
                assert(region.history() =~= after_cache + next);
                sweep = next;
            }
            if actual != expected {
                mismatches += 1;
            }
            j += 1;
        }
        let first: MemUnit = region.reread(a);
        let second: MemUnit = region.reread(a);
        self.reread_memory[0] = first;
        self.reread_memory2[0] = second;
        let ghost after_first = region.history();
        let ghost mid = *self;
        let mut k: usize = 1;
        assert(after_first =~= after_first + memory_window_trace(
            a as nat,
            1,
            self.reread_memory@,
            self.reread_memory2@,
        ));
        while k < w
            invariant
                1 <= k <= w,
                w <= pre.check@.len(),
                a + w <= n,
                region.wf(),
                region.len() == n,
                pre.wf(),
                self.check@ == mid.check@,
                self.reread_cache@ == mid.reread_cache@,
                self.iteration == pre.iteration,
                self.first_error_addr == pre.first_error_addr,
                self.reread_memory@.len() == pre.check@.len(),
                self.reread_memory2@.len() == pre.check@.len(),
                forall|i: int|
                    k <= i < pre.check@.len() ==> self.reread_memory@[i] == pre.reread_memory@[i]
                        && self.reread_memory2@[i] == pre.reread_memory2@[i],
                self.reread_memory@[0] == first,
                self.reread_memory2@[0] == second,
                region.history() == after_first + memory_window_trace(
                    a as nat,
                    k as nat,
                    self.reread_memory@,
                    self.reread_memory2@,
                ),
            decreases w - k,
        {
            let value: MemUnit = region.reread(a + k);
            let again: MemUnit = region.reread(a + k);
            self.reread_memory[k] = value;
            self.reread_memory2[k] = again;
            k += 1;
            assert(region.history() =~= after_first + memory_window_trace(
                a as nat,
                k as nat,
                self.reread_memory@,
                self.reread_memory2@,
            ));
        }
        self.window_len = w;
        self.estimate = Estimate { sampled: h, mismatches };
        self.phase = Phase::Failed;
        proof {
            let after = region.history();
            let cache = cache_window_trace(a as nat, w as nat, self.check@, self.reread_cache@);
            let memory = memory_window_trace(
                a as nat,
                w as nat,
                self.reread_memory@,
                self.reread_memory2@,
            );
            let c = 2 * (w - 1);
            assert(after_cache == before + cache);
            assert(after_first == after_cache + sweep + seq![
                reread_access(a as nat, first@),
                reread_access(a as nat, second@),
            ]) by {
                assert(after_first =~= after_cache + sweep + seq![
                    reread_access(a as nat, first@),
                    reread_access(a as nat, second@),
                ]);
            }
            assert(after == after_first + memory);
            let accesses = appended(before, after);
            assert(after.subrange(0, before.len() as int) =~= before);
            assert(accesses.len() == c + h + 2 + c);
            assert(accesses.subrange(0, c) =~= cache);
            assert(accesses.subrange(c, c + h) =~= sweep);
            assert(accesses.subrange(c + h + 2, c + h + 2 + c) =~= memory);
        }
        Step::Diagnosed
    }
}

/// Passes without mismatch are made of reads that gave the expected values.
pub proof fn lemma_clean_passes_hold_pattern(n: nat, count: nat)
    ensures
        forall|j: int|
            0 <= j < clean_passes(n, count).len() ==> holds_pattern(
                #[trigger] clean_passes(n, count)[j],
            ),
    decreases count,
{
    if count > 0 {
        lemma_clean_passes_hold_pattern(n, (count - 1) as nat);
        let front = clean_passes(n, (count - 1) as nat);
        assert forall|j: int| 0 <= j < clean_passes(n, count).len() implies holds_pattern(
            #[trigger] clean_passes(n, count)[j],
        ) by {
            if j < front.len() {
                assert(clean_passes(n, count)[j] == front[j]);
            } else {
                assert(clean_passes(n, count)[j] == clean_pass_trace(n)[j - front.len()]);
            }
        }
    }
}

impl Context {
    /// Makes the next step of a run on `region`: fills it, makes one pass
    /// over it, or diagnoses the mismatch that the last pass has met. The
    /// context says in `phase` where the run stands afterwards; nothing is
    /// done once it has passed or failed.
    pub fn advance(&mut self, region: &mut MappedRegion) -> (step: Step)
        requires
            old(self).wf(),
            old(region).wf(),
            old(self).fits(old(region).len()),
        ensures
            final(self).wf(),
            final(region).wf(),
            final(region).len() == old(region).len(),
            final(self).fits(final(region).len()),
            final(self).capacity() == old(self).capacity(),
            advanced(
                *old(self),
                *final(self),
                old(region).len(),
                old(region).history(),
                final(region).history(),
                step,
            ),
    {
        match self.phase {
            Phase::Fill => self.fill(region),
            Phase::Scan => self.scan(region),
            Phase::Diagnose => self.diagnose(region),
            Phase::Passed | Phase::Failed => Step::Idle,
        }
    }

    /// Runs the whole test on `region`, whatever the context held before:
    /// fills the region, then makes the passes until one meets a mismatch,
    /// which is diagnosed, or until all are made. Returns whether the region
    /// passed, which it does exactly where no read gave another value than
    /// the expected one.
    pub fn test_region(&mut self, region: &mut MappedRegion) -> (passed: bool)
        requires
            old(self).wf(),
            old(region).wf(),
        ensures
            final(self).wf(),
            final(region).wf(),
            final(region).len() == old(region).len(),
            final(self).capacity() == old(self).capacity(),
            extends(old(region).history(), final(region).history()),
            run_outcome(
                *old(self),
                *final(self),
                old(region).len(),
                appended(old(region).history(), final(region).history()),
                passed,
            ),
            passed <==> all_reads_hold_pattern(
                appended(old(region).history(), final(region).history()),
            ),
    {
        let ghost before = region.history();
        let ghost n = region.len();
        self.phase = Phase::Fill;
        self.fill(region);
        let mut iteration: u32 = 0;
        assert(region.history() =~= before + fill_trace(n) + clean_passes(n, 0));
        while iteration < MAX_ITERATION
            invariant
                iteration <= MAX_ITERATION,
                self.wf(),
                region.wf(),
                region.len() == n,
                n == old(region).len(),
                before == old(region).history(),
                self.capacity() == old(self).capacity(),
                iteration < MAX_ITERATION ==> *self == (Context {
                    phase: Phase::Scan,
                    iteration,
                    ..*old(self)
                }),
                iteration == MAX_ITERATION ==> *self == (Context {
                    phase: Phase::Passed,
                    iteration: (MAX_ITERATION - 1) as u32,
                    ..*old(self)
                }),
                region.history() == before + fill_trace(n) + clean_passes(n, iteration as nat),
            decreases MAX_ITERATION - iteration,
        {
            match self.scan(region) {
                Step::Mismatch => {
                    let ghost met = region.history();
                    let ghost a = self.first_error_addr as nat;
                    let ghost check = self.check@[0];
                    let ghost reread = self.reread_cache@[0];
                    self.diagnose(region);
                    proof {
                        let after = region.history();
                        let accesses = appended(before, after);
                        let head = fill_trace(n) + clean_passes(n, iteration as nat)
                            + failing_pass_trace(a, check@, reread@);
                        assert(met =~= before + head);
                        assert(after.subrange(0, met.len() as int) == met);
                        assert(after.subrange(0, before.len() as int) =~= before);
                        assert forall|i: int| 0 <= i < met.len() implies after[i] == met[i] by {
                            assert(after.subrange(0, met.len() as int)[i] == after[i]);
                        }
                        assert(accesses.subrange(0, head.len() as int) =~= head);
                        assert(accesses.subrange(head.len() as int, accesses.len() as int)
                            =~= appended(met, after));
                        let at = head.len() - 2;
                        assert(head[at] == read_access(a, check@));
                        assert(accesses[at] == head[at]);
                        assert(!holds_pattern(accesses[at]));
                    }
                    return false;
                },
                _ => {
                    assert(region.history() =~= before + fill_trace(n) + clean_passes(
                        n,
                        (iteration + 1) as nat,
                    ));
                },
            }
            iteration += 1;
        }
        proof {
            let after = region.history();
            let accesses = appended(before, after);
            assert(after.subrange(0, before.len() as int) =~= before);
            assert(accesses =~= fill_trace(n) + clean_passes(n, MAX_ITERATION as nat));
            lemma_clean_passes_hold_pattern(n, MAX_ITERATION as nat);
            assert forall|j: int|
                0 <= j < accesses.len() && !((#[trigger] accesses[j]).kind is Write)
            implies holds_pattern(accesses[j]) by {
                if j < fill_trace(n).len() {
                    assert(accesses[j] == fill_trace(n)[j]);
                } else {
                    assert(accesses[j] == clean_passes(n, MAX_ITERATION as nat)[j - fill_trace(
                        n,
                    ).len()]);
                }
            }
        }
        true
    }
}

} // verus!
