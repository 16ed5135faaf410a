//! The two truth tables that name what a mismatch looks like: one over the
//! first re-read alone, one that also takes the re-reads made after the
//! estimation sweep.

use vstd::prelude::*;
use crate::unit::MemUnit;

verus! {

/// What the first re-read through the read-only mapping says of a unit.
#[derive(Clone, Copy, Debug, PartialEq, Eq, Structural)]
pub enum CacheLabel {
    UnstableCache,
    CacheAccessError,
    CachedError,
}

/// What the re-reads made after the estimation sweep add to it.
#[derive(Clone, Copy, Debug, PartialEq, Eq, Structural)]
pub enum MemoryLabel {
    TemporalUnstableCache,
    PermanentUnstableCache,
    SingleUnstableCache,
    RandomUnstableCache,
    ReproducableCacheAccessError,
    RandomCacheAccessError,
    SingleCacheAccessError,
    StoredAndCachedError,
    NonStoredButCachedError,
    SometimesCachedError,
    NewFail,
}

/// The first table. `expected_cached` says whether the expected value equals
/// the first re-read, `check_cached` whether the checked value does. No label
/// is given where both do: the value is confirmed.
pub open spec fn cache_label(expected_cached: bool, check_cached: bool) -> Option<CacheLabel> {
    match (expected_cached, check_cached) {
        (false, false) => Some(CacheLabel::UnstableCache),
        (true, false) => Some(CacheLabel::CacheAccessError),
        (false, true) => Some(CacheLabel::CachedError),
        (true, true) => None,
    }
}

/// The second table. The first three arguments compare the expected value, the
/// checked value and the later re-read with the first re-read;
/// `memory_stable` says whether the two later re-reads are equal, and
/// `memory_check` whether the first of them equals the checked value. No label
/// is given where the first three all hold.
pub open spec fn memory_label(
    expected_cached: bool,
    check_cached: bool,
    memory_cached: bool,
    memory_stable: bool,
    memory_check: bool,
) -> Option<MemoryLabel> {
    match (expected_cached, check_cached, memory_cached) {
        (false, false, false) => Some(
            if memory_stable {
                MemoryLabel::TemporalUnstableCache
            } else {
                MemoryLabel::PermanentUnstableCache
            },
        ),
        (false, false, true) => Some(
            if memory_stable {
                MemoryLabel::SingleUnstableCache
            } else {
                MemoryLabel::RandomUnstableCache
            },
        ),
        (true, false, false) => Some(
            if memory_check {
                MemoryLabel::ReproducableCacheAccessError
            } else {
                MemoryLabel::RandomCacheAccessError
            },
        ),
        (true, false, true) => Some(MemoryLabel::SingleCacheAccessError),
        (false, true, true) => Some(MemoryLabel::StoredAndCachedError),
        (false, true, false) => Some(
            if memory_stable {
                MemoryLabel::NonStoredButCachedError
            } else {
                MemoryLabel::SometimesCachedError
            },
        ),
        (true, true, false) => Some(MemoryLabel::NewFail),
        (true, true, true) => None,
    }
}

/// The label of the first table for an observation.
pub open spec fn observed_cache_label(
    expected: Seq<u32>,
    check: Seq<u32>,
    reread_cache: Seq<u32>,
) -> Option<CacheLabel> {
    cache_label(expected == reread_cache, check == reread_cache)
}

/// The label of the second table for an observation.
pub open spec fn observed_memory_label(
    expected: Seq<u32>,
    check: Seq<u32>,
    reread_cache: Seq<u32>,
    reread_memory: Seq<u32>,
    reread_memory2: Seq<u32>,
) -> Option<MemoryLabel> {
    memory_label(
        expected == reread_cache,
        check == reread_cache,
        reread_memory == reread_cache,
        reread_memory == reread_memory2,
        reread_memory == check,
    )
}

/// Looks an observation up in the first table.
pub fn classify_cache(expected: &MemUnit, check: &MemUnit, reread_cache: &MemUnit) -> (label:
    Option<CacheLabel>)
    ensures
        label == observed_cache_label(expected@, check@, reread_cache@),
{
    match (*expected == *reread_cache, *check == *reread_cache) {
        (false, false) => Some(CacheLabel::UnstableCache),
        (true, false) => Some(CacheLabel::CacheAccessError),
        (false, true) => Some(CacheLabel::CachedError),
        (true, true) => None,
    }
}

/// Looks an observation up in the second table.
pub fn classify_memory(
    expected: &MemUnit,
    check: &MemUnit,
    reread_cache: &MemUnit,
    reread_memory: &MemUnit,
    reread_memory2: &MemUnit,
) -> (label: Option<MemoryLabel>)
    ensures
        label == observed_memory_label(
            expected@,
            check@,
            reread_cache@,
            reread_memory@,
            reread_memory2@,
        ),
{
    let stable = *reread_memory == *reread_memory2;
    match (*expected == *reread_cache, *check == *reread_cache, *reread_memory == *reread_cache) {
        (false, false, false) => Some(
            if stable {
                MemoryLabel::TemporalUnstableCache
            } else {
                MemoryLabel::PermanentUnstableCache
            },
        ),
        (false, false, true) => Some(
            if stable {
                MemoryLabel::SingleUnstableCache
            } else {
                MemoryLabel::RandomUnstableCache
            },
        ),
        (true, false, false) => Some(
            if *reread_memory == *check {
                MemoryLabel::ReproducableCacheAccessError
            } else {
                MemoryLabel::RandomCacheAccessError
            },
        ),
        (true, false, true) => Some(MemoryLabel::SingleCacheAccessError),
        (false, true, true) => Some(MemoryLabel::StoredAndCachedError),
        (false, true, false) => Some(
            if stable {
                MemoryLabel::NonStoredButCachedError
            } else {
                MemoryLabel::SometimesCachedError
            },
        ),
        (true, true, false) => Some(MemoryLabel::NewFail),
        (true, true, true) => None,
    }
}

impl CacheLabel {
    /// The label as it stands in the report.
    pub open spec fn text(self) -> Seq<char> {
        match self {
            CacheLabel::UnstableCache => "UNSTABLE CACHE"@,
            CacheLabel::CacheAccessError => "CACHE ACCESS ERROR"@,
            CacheLabel::CachedError => "CACHED ERROR"@,
        }
    }

    /// The label as it stands in the report.
    pub fn as_str(&self) -> (s: &'static str)
        ensures
            s@ == self.text(),
    {
        match self {
            CacheLabel::UnstableCache => "UNSTABLE CACHE",
            CacheLabel::CacheAccessError => "CACHE ACCESS ERROR",
            CacheLabel::CachedError => "CACHED ERROR",
        }
    }
}

impl MemoryLabel {
    /// The label as it stands in the report.
    pub open spec fn text(self) -> Seq<char> {
        match self {
            MemoryLabel::TemporalUnstableCache => "TEMPORAL UNSTABLE CACHE"@,
            MemoryLabel::PermanentUnstableCache => "PERMANENT UNSTABLE CACHE"@,
            MemoryLabel::SingleUnstableCache => "SINGLE UNSTABLE CACHE"@,
            MemoryLabel::RandomUnstableCache => "RANDOM UNSTABLE CACHE"@,
            MemoryLabel::ReproducableCacheAccessError => "REPRODUCABLE CACHE ACCESS ERROR"@,
            MemoryLabel::RandomCacheAccessError => "RANDOM CACHE ACCESS ERROR"@,
            MemoryLabel::SingleCacheAccessError => "SINGLE CACHE ACCESS ERROR"@,
            MemoryLabel::StoredAndCachedError => "STORED AND CACHED ERROR"@,
            MemoryLabel::NonStoredButCachedError => "NON-STORED BUT CACHED ERROR"@,
            MemoryLabel::SometimesCachedError => "SOMETIMES CACHED ERROR"@,
            MemoryLabel::NewFail => "NEW FAIL"@,
        }
    }

    /// The label as it stands in the report.
    pub fn as_str(&self) -> (s: &'static str)
        ensures
            s@ == self.text(),
    {
        match self {
            MemoryLabel::TemporalUnstableCache => "TEMPORAL UNSTABLE CACHE",
            MemoryLabel::PermanentUnstableCache => "PERMANENT UNSTABLE CACHE",
            MemoryLabel::SingleUnstableCache => "SINGLE UNSTABLE CACHE",
            MemoryLabel::RandomUnstableCache => "RANDOM UNSTABLE CACHE",
            MemoryLabel::ReproducableCacheAccessError => "REPRODUCABLE CACHE ACCESS ERROR",
            MemoryLabel::RandomCacheAccessError => "RANDOM CACHE ACCESS ERROR",
            MemoryLabel::SingleCacheAccessError => "SINGLE CACHE ACCESS ERROR",
            MemoryLabel::StoredAndCachedError => "STORED AND CACHED ERROR",
            MemoryLabel::NonStoredButCachedError => "NON-STORED BUT CACHED ERROR",
            MemoryLabel::SometimesCachedError => "SOMETIMES CACHED ERROR",
            MemoryLabel::NewFail => "NEW FAIL",
        }
    }
}

/// The labels of an observation are a function of its comparisons: two
/// observations that agree in all five comparisons get the same labels from
/// both tables, whatever the values are.
pub proof fn lemma_labels_follow_comparisons(
    expected: Seq<u32>,
    check: Seq<u32>,
    reread_cache: Seq<u32>,
    reread_memory: Seq<u32>,
    reread_memory2: Seq<u32>,
    expected_b: Seq<u32>,
    check_b: Seq<u32>,
    reread_cache_b: Seq<u32>,
    reread_memory_b: Seq<u32>,
    reread_memory2_b: Seq<u32>,
)
    requires
        (expected == reread_cache) == (expected_b == reread_cache_b),
        (check == reread_cache) == (check_b == reread_cache_b),
        (reread_memory == reread_cache) == (reread_memory_b == reread_cache_b),
        (reread_memory == reread_memory2) == (reread_memory_b == reread_memory2_b),
        (reread_memory == check) == (reread_memory_b == check_b),
    ensures
        observed_cache_label(expected, check, reread_cache) == observed_cache_label(
            expected_b,
            check_b,
            reread_cache_b,
        ),
        observed_memory_label(expected, check, reread_cache, reread_memory, reread_memory2)
            == observed_memory_label(
            expected_b,
            check_b,
            reread_cache_b,
            reread_memory_b,
            reread_memory2_b,
        ),
{
}

/// A unit whose checked value differs from the expected one always gets a
/// label from the first table, and one from the second as well: a confirmed
/// value is one that was not wrong in the first place.
pub proof fn lemma_mismatch_is_labelled(
    expected: Seq<u32>,
    check: Seq<u32>,
    reread_cache: Seq<u32>,
    reread_memory: Seq<u32>,
    reread_memory2: Seq<u32>,
)
    requires
        check != expected,
    ensures
        observed_cache_label(expected, check, reread_cache) is Some,
        observed_memory_label(expected, check, reread_cache, reread_memory, reread_memory2) is Some,
{
}

/// Where the second table confirms a value, the first one does so too.
pub proof fn lemma_confirmed_by_both(
    expected: Seq<u32>,
    check: Seq<u32>,
    reread_cache: Seq<u32>,
    reread_memory: Seq<u32>,
    reread_memory2: Seq<u32>,
)
    ensures
        observed_memory_label(expected, check, reread_cache, reread_memory, reread_memory2) is None
            ==> observed_cache_label(expected, check, reread_cache) is None,
{
}

} // verus!
