//! The address-to-value function: every 32-bit word of the region is expected
//! to hold a value that is derived from its own byte address alone.

use vstd::prelude::*;

verus! {

/// Mask of the low seven hexadecimal digits of a word.
pub const LOW_DIGITS_MASK: u32 = 0x0fff_ffff;

/// The hexadecimal digit of `x` at position `i`, position 0 being the least
/// significant one.
pub open spec fn hex_digit(x: u32, i: u32) -> u32 {
    (x >> (4 * i) as u32) & 0xf
}

/// The digit that stands at position `i` once the low seven digits of `x` have
/// been rotated left by `k` positions: the one that stood `k` positions lower,
/// counted circularly among the seven.
pub open spec fn rotated_digit(x: u32, k: u32, i: u32) -> u32 {
    hex_digit(x, ((i + 7 - k) % 7) as u32)
}

/// The low seven hexadecimal digits of `x`, rotated left as a digit sequence
/// by `k` positions. The eighth digit of the result is zero.
pub open spec fn rotate_left_digits(x: u32, k: u32) -> u32 {
    rotated_digit(x, k, 0)
        | rotated_digit(x, k, 1) << 4
        | rotated_digit(x, k, 2) << 8
        | rotated_digit(x, k, 3) << 12
        | rotated_digit(x, k, 4) << 16
        | rotated_digit(x, k, 5) << 20
        | rotated_digit(x, k, 6) << 24
}

/// Rotates the low seven hexadecimal digits of `x` left by `shift_digits`
/// digit positions and clears the eighth.
pub fn get_rotated_left_7_hex_digits(x: u32, shift_digits: u32) -> (r: u32)
    requires
        shift_digits <= 7,
    ensures
        r == rotate_left_digits(x, shift_digits),
{
    let shift_bits: u32 = shift_digits * 4;
    let low: u32 = x & LOW_DIGITS_MASK;
    let r: u32 = ((low << shift_bits) | (low >> (28 - shift_bits))) & LOW_DIGITS_MASK;
    assert(r == rotate_left_digits(x, shift_digits)) by (bit_vector)
        requires
            shift_digits <= 7,
            shift_bits == shift_digits * 4,
            low == x & 0x0fff_ffff,
            r == ((low << shift_bits) | (low >> ((28 - shift_bits) as u32))) & 0x0fff_ffff,
    ;
    r
}

/// The self-check digit of the word at byte address `addr`: a value from 2
/// to 14 that also selects the rotation.
pub open spec fn pattern_shift(addr: nat) -> u32 {
    ((addr + 1) % 13 + 2) as u32
}

/// The word that the byte address `addr` is expected to hold: the low seven
/// hexadecimal digits of the address, rotated left by `pattern_shift(addr) % 7`
/// digit positions, below `pattern_shift(addr)` as the eighth digit.
pub open spec fn pattern(addr: nat) -> u32 {
    let shift = pattern_shift(addr);
    rotate_left_digits((addr % 0x1000_0000) as u32, shift % 7) | (shift << 28)
}

/// The pattern is a function of the address and of nothing else: the same
/// address has the same word, whenever it is asked for.
pub proof fn lemma_pattern_deterministic(addr: nat, same_addr: nat)
    requires
        addr == same_addr,
    ensures
        pattern(addr) == pattern(same_addr),
{
}

/// The digits of the pattern: the eighth is the self-check digit, from 2 to
/// 14, and each of the low seven is the digit of the address that stood as
/// many positions lower, counted circularly among the seven, as the
/// self-check digit says modulo 7.
pub proof fn lemma_pattern_digits(addr: nat, i: u32)
    requires
        i < 7,
    ensures
        2 <= pattern_shift(addr) <= 14,
        hex_digit(pattern(addr), 7) == pattern_shift(addr),
        hex_digit(pattern(addr), i) == rotated_digit(
            (addr % 0x1000_0000) as u32,
            pattern_shift(addr) % 7,
            i,
        ),
{
    let shift = pattern_shift(addr);
    let low = (addr % 0x1000_0000) as u32;
    let k = shift % 7;
    assert(hex_digit(rotate_left_digits(low, k) | (shift << 28), 7) == shift && hex_digit(
        rotate_left_digits(low, k) | (shift << 28),
        i,
    ) == rotated_digit(low, k, i)) by (bit_vector)
        requires
            2 <= shift <= 14,
            k == shift % 7,
            i < 7,
    ;
}

proof fn lemma_successor_mod_13(a: int)
    requires
        0 <= a,
    ensures
        (a % 13 + 1) % 13 == (a + 1) % 13,
{
    let q = a / 13;
    let r = a % 13;
    assert(a == 13 * q + r);
    if r == 12 {
        assert(a + 1 == 13 * (q + 1));
    } else {
        assert(a + 1 == 13 * q + (r + 1));
    }
}

/// Computes the word expected at byte address `phys_addr`.
pub fn index_to_single_value(phys_addr: usize) -> (r: u32)
    ensures
        r == pattern(phys_addr as nat),
{
    let next: usize = (phys_addr % 13 + 1) % 13;
    assert(next == (phys_addr + 1) % 13) by {
        lemma_successor_mod_13(phys_addr as int);
    }
    let shift: u32 = (next + 2) as u32;
    let low: u32 = (phys_addr % 0x1000_0000) as u32;
    let rotated: u32 = get_rotated_left_7_hex_digits(low, shift % 7);
    rotated | (shift << 28)
}

/// Computes the word expected at a byte address that may lie beyond what
/// `usize` holds.
pub fn wide_index_to_single_value(phys_addr: u128) -> (r: u32)
    ensures
        r == pattern(phys_addr as nat),
{
    let next: u128 = (phys_addr % 13 + 1) % 13;
    assert(next == (phys_addr + 1) % 13) by {
        lemma_successor_mod_13(phys_addr as int);
    }
    let shift: u32 = (next + 2) as u32;
    let low: u32 = (phys_addr % 0x1000_0000) as u32;
    let rotated: u32 = get_rotated_left_7_hex_digits(low, shift % 7);
    rotated | (shift << 28)
}

} // verus!
