//! The mapped region: one stretch of storage, reached through a read-write
//! mapping and through a read-only mapping that was set up independently.
//!
//! What a read returns is not known in advance: the storage may change under
//! the mappings at any time, and that is what the test is there to find. The
//! region therefore keeps no model of its contents. It keeps a history: the
//! accesses that were made through it, in order, each with the value that was
//! written or that came back.

use std::ops::{Deref, DerefMut};
use std::sync::atomic::{compiler_fence, Ordering};
use vstd::prelude::*;
use crate::unit::{MemUnit, UNIT_ARRAY_BYTES};

verus! {

/// `memmap2::Mmap`, a read-only mapping: carried through as it is, nothing
/// of its inside is known.
#[verifier::external_type_specification]
#[verifier::external_body]
pub struct ExMmap(memmap2::Mmap);

/// `memmap2::MmapMut`, a read-write mapping: carried through as it is,
/// nothing of its inside is known.
#[verifier::external_type_specification]
#[verifier::external_body]
pub struct ExMmapMut(memmap2::MmapMut);

/// The number of bytes that a read-only mapping spans: the length it was
/// made with, which `memmap2` keeps for as long as the mapping lives.
pub uninterp spec fn mapping_len(m: memmap2::Mmap) -> nat;

/// The number of bytes that a read-write mapping spans: the length it was
/// made with, which `memmap2` keeps for as long as the mapping lives.
pub uninterp spec fn mapping_mut_len(m: memmap2::MmapMut) -> nat;

/// `Deref::deref` of `memmap2::Mmap`: the bytes of the mapping as a slice.
/// Claimed: the slice is as long as the mapping. Nothing is claimed of the
/// bytes; two calls may show different ones.
#[verifier::external_body]
fn mapped_bytes(m: &memmap2::Mmap) -> (bytes: &[u8])
    ensures
        bytes@.len() == mapping_len(*m),
{
    m.deref()
}

/// `Deref::deref` of `memmap2::MmapMut`: the bytes of the mapping as a slice.
/// Claimed: the slice is as long as the mapping. Nothing is claimed of the
/// bytes; two calls may show different ones.
#[verifier::external_body]
fn mapped_mut_bytes(m: &memmap2::MmapMut) -> (bytes: &[u8])
    ensures
        bytes@.len() == mapping_mut_len(*m),
{
    m.deref()
}

/// `DerefMut::deref_mut` of `memmap2::MmapMut`: the bytes of the mapping as a
/// slice that can be written. Claimed: the slice is as long as the mapping,
/// and the mapping keeps its length.
#[verifier::external_body]
fn mapped_bytes_for_writing(m: &mut memmap2::MmapMut) -> (bytes: &mut [u8])
    ensures
        bytes@.len() == mapping_mut_len(*old(m)),
        mapping_mut_len(*final(m)) == mapping_mut_len(*old(m)),
{
    m.deref_mut()
}

/// `std::sync::atomic::compiler_fence` with sequentially consistent ordering:
/// the compiler may neither merge nor reorder the memory accesses on its two
/// sides. It returns nothing, and nothing is claimed of it.
#[verifier::external_body]
fn ordering_barrier() {
    compiler_fence(Ordering::SeqCst);
}

/// The ways in which the region is accessed.
pub enum AccessKind {
    /// A unit written through the read-write mapping.
    Write,
    /// A unit read through the read-write mapping.
    Read,
    /// A unit read through the read-only mapping.
    Reread,
}

/// One access to the region: its kind, the unit it went to and the words that
/// were written or that came back.
pub struct Access {
    pub kind: AccessKind,
    pub addr: nat,
    pub value: Seq<u32>,
}

/// A write of `value` to unit `addr`.
pub open spec fn write_access(addr: nat, value: Seq<u32>) -> Access {
    Access { kind: AccessKind::Write, addr, value }
}

/// A read of unit `addr` through the read-write mapping that gave `value`.
pub open spec fn read_access(addr: nat, value: Seq<u32>) -> Access {
    Access { kind: AccessKind::Read, addr, value }
}

/// A read of unit `addr` through the read-only mapping that gave `value`.
pub open spec fn reread_access(addr: nat, value: Seq<u32>) -> Access {
    Access { kind: AccessKind::Reread, addr, value }
}

/// Why two mappings were not accepted as one region.
#[derive(Clone, Copy, Debug, PartialEq, Eq, Structural)]
pub enum RegionError {
    /// The two mappings do not span the same number of bytes.
    LengthMismatch,
}

/// Two mappings of one stretch of storage, addressed in units.
pub struct MappedRegion {
    rw: memmap2::MmapMut,
    ro: memmap2::Mmap,
    units: usize,
    history: Ghost<Seq<Access>>,
}

impl MappedRegion {
    /// Both mappings span the same bytes, and `len` counts the whole units
    /// among them.
    pub closed spec fn wf(&self) -> bool {
        &&& mapping_mut_len(self.rw) == mapping_len(self.ro)
        &&& mapping_mut_len(self.rw) <= usize::MAX
        &&& self.units == mapping_mut_len(self.rw) / 32
    }

    /// The number of units of the region.
    pub closed spec fn len(&self) -> nat {
        self.units as nat
    }

    /// The accesses made through the region so far, the oldest first.
    pub closed spec fn history(&self) -> Seq<Access> {
        self.history@
    }

    /// The read-write mapping of the region.
    pub closed spec fn direct_view(&self) -> memmap2::MmapMut {
        self.rw
    }

    /// The read-only mapping of the region.
    pub closed spec fn independent_view(&self) -> memmap2::Mmap {
        self.ro
    }

    /// Every unit of a region has bytes that `usize` can address.
    pub proof fn lemma_units_addressable(&self)
        requires
            self.wf(),
        ensures
            self.len() <= usize::MAX / 32,
    {
    }

    /// Makes a region of two mappings of the same storage: `rw` to fill it
    /// and to read it directly, `ro` to read it again independently. The
    /// region has as many units as fit in the mappings whole; bytes behind the
    /// last whole unit stay untouched. Mappings of different lengths are
    /// refused.
    pub fn new(rw: memmap2::MmapMut, ro: memmap2::Mmap) -> (r: Result<MappedRegion, RegionError>)
        ensures
            match r {
                Ok(region) => {
                    &&& mapping_mut_len(rw) == mapping_len(ro)
                    &&& region.wf()
                    &&& region.len() == mapping_len(ro) / 32
                    &&& region.history() == Seq::<Access>::empty()
                    &&& region.direct_view() == rw
                    &&& region.independent_view() == ro
                },
                Err(e) => {
                    &&& e == RegionError::LengthMismatch
                    &&& mapping_mut_len(rw) != mapping_len(ro)
                },
            },
    {
        let rw_len: usize = mapped_mut_bytes(&rw).len();
        let ro_len: usize = mapped_bytes(&ro).len();
        if rw_len != ro_len {
            return Err(RegionError::LengthMismatch);
        }
        Ok(MappedRegion { rw, ro, units: rw_len / UNIT_ARRAY_BYTES, history: Ghost(Seq::empty()) })
    }

    /// Gives the two mappings back.
    pub fn into_views(self) -> (views: (memmap2::MmapMut, memmap2::Mmap))
        ensures
            views.0 == self.direct_view(),
            views.1 == self.independent_view(),
    {
        (self.rw, self.ro)
    }

    /// The number of units of the region.
    pub fn len_in_units(&self) -> (n: usize)
        ensures
            n == self.len(),
    {
        self.units
    }

    /// Writes `value` to unit `addr` through the read-write mapping.
    pub fn write(&mut self, addr: usize, value: &MemUnit)
        requires
            old(self).wf(),
            addr < old(self).len(),
        ensures
            final(self).wf(),
            final(self).len() == old(self).len(),
            final(self).history() == old(self).history().push(write_access(addr as nat, value@)),
    {
        let bytes = mapped_bytes_for_writing(&mut self.rw);
        value.store(bytes, addr * UNIT_ARRAY_BYTES);
        proof {
            self.history@ = self.history@.push(write_access(addr as nat, value@));
        }
    }

    /// Reads unit `addr` through the read-write mapping.
    pub fn read(&mut self, addr: usize) -> (value: MemUnit)
        requires
            old(self).wf(),
            addr < old(self).len(),
        ensures
            final(self).wf(),
            final(self).len() == old(self).len(),
            final(self).history() == old(self).history().push(read_access(addr as nat, value@)),
    {
        let bytes = mapped_mut_bytes(&self.rw);
        let value = MemUnit::load(bytes, addr * UNIT_ARRAY_BYTES);
        proof {
            self.history@ = self.history@.push(read_access(addr as nat, value@));
        }
        value
    }

    /// Reads unit `addr` through the read-only mapping, as a memory access of
    /// its own: the compiler is kept from merging it with the reads before
    /// and after it.
    pub fn reread(&mut self, addr: usize) -> (value: MemUnit)
        requires
            old(self).wf(),
            addr < old(self).len(),
        ensures
            final(self).wf(),
            final(self).len() == old(self).len(),
            final(self).history() == old(self).history().push(reread_access(addr as nat, value@)),
    {
        let bytes = mapped_bytes(&self.ro);
        let value = MemUnit::load(bytes, addr * UNIT_ARRAY_BYTES);
        ordering_barrier();
        proof {
            self.history@ = self.history@.push(reread_access(addr as nat, value@));
        }
        value
    }
}

} // verus!
