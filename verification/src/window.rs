//! Which units are looked at once a mismatch is found: the diagnostic window
//! at and after the failing unit, and the half of the region opposite to it
//! that the estimation sweep reads.

use vstd::prelude::*;

verus! {

/// The window that a context of `capacity` units can use on a region of `len`
/// units: its capacity, but half the region at most.
pub open spec fn effective_window(capacity: nat, len: nat) -> nat {
    if capacity <= len / 2 {
        capacity
    } else {
        len / 2
    }
}

/// The number of units that are captured when unit `first_error_addr` fails:
/// the effective window, cut at the end of the region, and the failing unit
/// itself in any case.
pub open spec fn window_units(capacity: nat, len: nat, first_error_addr: nat) -> nat {
    let window = effective_window(capacity, len);
    let rest = if first_error_addr < len {
        (len - first_error_addr) as nat
    } else {
        0
    };
    let bound = if window <= rest {
        window
    } else {
        rest
    };
    if bound < 1 {
        1
    } else {
        bound
    }
}

/// The number of units that the estimation sweep reads: half the region.
pub open spec fn sweep_len(len: nat) -> nat {
    len / 2
}

/// The unit that the estimation sweep reads in its step `j`. The sweep starts
/// half a region behind the failing unit and wraps at the end of the region.
pub open spec fn sweep_addr(first_error_addr: nat, len: nat, j: nat) -> nat {
    let unwrapped = first_error_addr + len / 2 + j;
    if unwrapped >= len {
        (unwrapped - len) as nat
    } else {
        unwrapped
    }
}

/// Clamps the capacity of the diagnostic windows to half the region.
pub fn show_range_post(capacity: usize, len_in_units: usize) -> (window: usize)
    ensures
        window == effective_window(capacity as nat, len_in_units as nat),
        window <= len_in_units / 2,
        window <= capacity,
        capacity > len_in_units / 2 ==> window == len_in_units / 2,
{
    let half: usize = len_in_units / 2;
    if capacity <= half {
        capacity
    } else {
        half
    }
}

/// The number of units to capture for a mismatch at `first_error_addr`.
pub fn window_len(capacity: usize, len_in_units: usize, first_error_addr: usize) -> (units: usize)
    ensures
        units == window_units(capacity as nat, len_in_units as nat, first_error_addr as nat),
        1 <= units,
        capacity >= 1 ==> units <= capacity,
        first_error_addr < len_in_units ==> first_error_addr + units <= len_in_units,
{
    let window: usize = show_range_post(capacity, len_in_units);
    let rest: usize = if first_error_addr < len_in_units {
        len_in_units - first_error_addr
    } else {
        0
    };
    let bound: usize = if window <= rest {
        window
    } else {
        rest
    };
    if bound < 1 {
        1
    } else {
        bound
    }
}

/// The unit that the estimation sweep reads in its step `j`.
pub fn sweep_address(first_error_addr: usize, len_in_units: usize, j: usize) -> (addr: usize)
    requires
        first_error_addr < len_in_units,
        j < len_in_units / 2,
    ensures
        addr == sweep_addr(first_error_addr as nat, len_in_units as nat, j as nat),
        addr < len_in_units,
{
    let offset: usize = len_in_units / 2 + j;
    let room: usize = len_in_units - offset;
    if first_error_addr >= room {
        first_error_addr - room
    } else {
        first_error_addr + offset
    }
}

/// The estimation sweep reads no unit of the diagnostic window: the window is
/// half the region at most, and the sweep covers the half that starts half a
/// region behind the failing unit.
pub proof fn lemma_sweep_avoids_window(
    capacity: nat,
    len: nat,
    first_error_addr: nat,
    j: nat,
    k: nat,
)
    requires
        first_error_addr < len,
        j < sweep_len(len),
        k < window_units(capacity, len, first_error_addr),
    ensures
        sweep_addr(first_error_addr, len, j) != first_error_addr + k,
        first_error_addr + k < len,
{
}

/// The estimation sweep reads every unit once at most.
pub proof fn lemma_sweep_reads_once(first_error_addr: nat, len: nat, i: nat, j: nat)
    requires
        first_error_addr < len,
        i < sweep_len(len),
        j < sweep_len(len),
        i != j,
    ensures
        sweep_addr(first_error_addr, len, i) != sweep_addr(first_error_addr, len, j),
{
}

} // verus!
