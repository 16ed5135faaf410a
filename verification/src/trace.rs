//! The accesses that each part of a run makes to the region, as sequences
//! that the history of the region can be held against.

use vstd::prelude::*;
use crate::region::{read_access, reread_access, write_access, Access};
use crate::unit::{unit_pattern, MemUnit};
use crate::window::{sweep_addr, sweep_len};

verus! {

/// Whether an access wrote or gave the value that its unit is expected to
/// hold.
pub open spec fn holds_pattern(access: Access) -> bool {
    access.value == unit_pattern(access.addr)
}

/// Whether `after` is `before` with more accesses behind it.
pub open spec fn extends(before: Seq<Access>, after: Seq<Access>) -> bool {
    before.len() <= after.len() && after.subrange(0, before.len() as int) == before
}

/// The accesses of `after` that are not in `before` yet.
pub open spec fn appended(before: Seq<Access>, after: Seq<Access>) -> Seq<Access> {
    after.subrange(before.len() as int, after.len() as int)
}

/// Whether every read among `accesses`, through either mapping, gave the
/// value that its unit is expected to hold.
pub open spec fn all_reads_hold_pattern(accesses: Seq<Access>) -> bool {
    forall|j: int|
        0 <= j < accesses.len() && !((#[trigger] accesses[j]).kind is Write) ==> holds_pattern(
            accesses[j],
        )
}

/// Filling a region of `n` units: every unit is written once, in ascending
/// order, with the value expected in it.
pub open spec fn fill_trace(n: nat) -> Seq<Access> {
    Seq::new(n, |a: int| write_access(a as nat, unit_pattern(a as nat)))
}

/// A pass over `n` units that meets no mismatch: every unit is read once
/// through the read-write mapping, in ascending order, and gives the value
/// expected in it.
pub open spec fn clean_pass_trace(n: nat) -> Seq<Access> {
    Seq::new(n, |a: int| read_access(a as nat, unit_pattern(a as nat)))
}

/// A pass that meets its first mismatch at unit `a`: the units before it are
/// read and give their expected values, unit `a` gives `check`, and is read
/// at once again through the read-only mapping, which gives `reread`. No unit
/// behind `a` is read.
pub open spec fn failing_pass_trace(a: nat, check: Seq<u32>, reread: Seq<u32>) -> Seq<Access> {
    clean_pass_trace(a).push(read_access(a, check)).push(reread_access(a, reread))
}

/// Capturing the first two windows behind the failing unit `a`: each unit
/// from `a + 1` to `a + w - 1` is read through the read-write mapping and at
/// once through the read-only one.
pub open spec fn cache_window_trace(
    a: nat,
    w: nat,
    check: Seq<MemUnit>,
    reread_cache: Seq<MemUnit>,
) -> Seq<Access> {
    Seq::new(
        (2 * (w - 1)) as nat,
        |j: int|
            if j % 2 == 0 {
                read_access((a + 1 + j / 2) as nat, check[1 + j / 2]@)
            } else {
                reread_access((a + 1 + j / 2) as nat, reread_cache[1 + j / 2]@)
            },
    )
}

/// Capturing the last two windows behind the failing unit `a`: each unit from
/// `a + 1` to `a + w - 1` is read twice in a row through the read-only
/// mapping.
pub open spec fn memory_window_trace(
    a: nat,
    w: nat,
    reread_memory: Seq<MemUnit>,
    reread_memory2: Seq<MemUnit>,
) -> Seq<Access> {
    Seq::new(
        (2 * (w - 1)) as nat,
        |j: int|
            if j % 2 == 0 {
                reread_access((a + 1 + j / 2) as nat, reread_memory[1 + j / 2]@)
            } else {
                reread_access((a + 1 + j / 2) as nat, reread_memory2[1 + j / 2]@)
            },
    )
}

/// Whether `accesses` are the first `steps` reads of the estimation sweep for
/// a mismatch at unit `a` of `n`: reads through the read-only mapping, of the
/// units that the sweep visits, in its order.
pub open spec fn is_sweep_prefix(accesses: Seq<Access>, a: nat, n: nat, steps: nat) -> bool {
    &&& accesses.len() == steps
    &&& forall|j: int|
        0 <= j < steps ==> (#[trigger] accesses[j]).kind is Reread && accesses[j].addr
            == sweep_addr(a, n, j as nat)
}

/// The number of accesses among `accesses` that did not give the value
/// expected in their unit.
pub open spec fn mismatch_count(accesses: Seq<Access>) -> nat
    decreases accesses.len(),
{
    if accesses.len() == 0 {
        0
    } else {
        mismatch_count(accesses.drop_last()) + if holds_pattern(accesses.last()) {
            0nat
        } else {
            1nat
        }
    }
}

/// Whether `accesses` are what the diagnosis of a mismatch at unit `a` of `n`
/// does, with windows of `w` units: the first two windows are captured, the
/// estimation sweep reads its half of the region and finds `mismatches`
/// units that do not hold their expected value, the failing unit is read
/// twice more, and the last two windows are captured. The four sequences are
/// the windows as they stand afterwards.
pub open spec fn is_diagnosis_trace(
    accesses: Seq<Access>,
    a: nat,
    n: nat,
    w: nat,
    check: Seq<MemUnit>,
    reread_cache: Seq<MemUnit>,
    reread_memory: Seq<MemUnit>,
    reread_memory2: Seq<MemUnit>,
    mismatches: nat,
) -> bool {
    let c = 2 * (w - 1);
    let h = sweep_len(n) as int;
    &&& accesses.len() == c + h + 2 + c
    &&& accesses.subrange(0, c) == cache_window_trace(a, w, check, reread_cache)
    &&& is_sweep_prefix(accesses.subrange(c, c + h), a, n, h as nat)
    &&& mismatches == mismatch_count(accesses.subrange(c, c + h))
    &&& accesses[c + h] == reread_access(a, reread_memory[0]@)
    &&& accesses[c + h + 1] == reread_access(a, reread_memory2[0]@)
    &&& accesses.subrange(c + h + 2, c + h + 2 + c) == memory_window_trace(
        a,
        w,
        reread_memory,
        reread_memory2,
    )
}

/// No more units are counted as mismatching than were read.
pub proof fn lemma_mismatch_count_bounded(accesses: Seq<Access>)
    ensures
        mismatch_count(accesses) <= accesses.len(),
    decreases accesses.len(),
{
    if accesses.len() > 0 {
        lemma_mismatch_count_bounded(accesses.drop_last());
    }
}

/// The count of mismatching units is zero exactly where every unit that was
/// read held its expected value.
pub proof fn lemma_mismatch_count_zero(accesses: Seq<Access>)
    ensures
        mismatch_count(accesses) == 0 <==> forall|j: int|
            0 <= j < accesses.len() ==> holds_pattern(#[trigger] accesses[j]),
    decreases accesses.len(),
{
    if accesses.len() > 0 {
        let front = accesses.drop_last();
        lemma_mismatch_count_zero(front);
        assert(forall|j: int| 0 <= j < front.len() ==> front[j] == accesses[j]);
        if mismatch_count(accesses) == 0 {
            assert forall|j: int| 0 <= j < accesses.len() implies holds_pattern(
                #[trigger] accesses[j],
            ) by {
                if j < front.len() {
                    assert(holds_pattern(front[j]));
                }
            }
        }
        if forall|j: int| 0 <= j < accesses.len() ==> holds_pattern(#[trigger] accesses[j]) {
            assert forall|j: int| 0 <= j < front.len() implies holds_pattern(
                #[trigger] front[j],
            ) by {
                assert(holds_pattern(accesses[j]));
            }
            assert(holds_pattern(accesses[accesses.len() - 1]));
        }
    }
}

} // verus!
