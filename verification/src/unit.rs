//! The unit: the granule of the test, eight consecutive 32-bit words.

use vstd::prelude::*;
use crate::pattern::{index_to_single_value, pattern, wide_index_to_single_value};

verus! {

/// Number of words in a unit.
pub const UNIT_COUNT: usize = 8;

/// Number of bytes in a word.
pub const WORD_BYTES: usize = 4;

/// Number of bytes in a unit.
pub const UNIT_ARRAY_BYTES: usize = 32;

/// Eight consecutive words of the region, compared and reported as a whole.
#[derive(Clone, Copy, Debug)]
pub struct MemUnit(pub [u32; 8]);

impl View for MemUnit {
    type V = Seq<u32>;

    open spec fn view(&self) -> Seq<u32> {
        self.0@
    }
}

impl PartialEq for MemUnit {
    fn eq(&self, other: &MemUnit) -> (r: bool) {
        let mut x: usize = 0;
        while x < UNIT_COUNT
            invariant
                x <= 8,
                forall|w: int| 0 <= w < x ==> self.0@[w] == other.0@[w],
            decreases 8 - x,
        {
            if self.0[x] != other.0[x] {
                return false;
            }
            x += 1;
        }
        assert(self.0@ =~= other.0@);
        true
    }
}

impl Eq for MemUnit {

}

impl vstd::std_specs::cmp::PartialEqSpecImpl for MemUnit {
    open spec fn obeys_eq_spec() -> bool {
        true
    }

    open spec fn eq_spec(&self, other: &MemUnit) -> bool {
        self@ == other@
    }
}

/// The words of a unit that holds nothing but zeros.
pub open spec fn zero_words() -> Seq<u32> {
    Seq::new(8, |w: int| 0u32)
}

impl Default for MemUnit {
    fn default() -> (unit: MemUnit)
        ensures
            unit@ == zero_words(),
    {
        let unit = MemUnit([0u32; 8]);
        assert(unit@ =~= zero_words());
        unit
    }
}

/// The words that unit `i` is expected to hold: the pattern of each of its
/// eight word addresses, in ascending order.
pub open spec fn unit_pattern(i: nat) -> Seq<u32> {
    Seq::new(8, |w: int| pattern((i * 32 + w * 4) as nat))
}

/// Computes the value expected in unit `i`.
pub fn index_to_value(i: usize) -> (r: MemUnit)
    ensures
        r@ == unit_pattern(i as nat),
{
    let addressable: bool = i <= usize::MAX / UNIT_ARRAY_BYTES;
    let mut words: [u32; 8] = [0u32; 8];
    let mut x: usize = 0;
    while x < UNIT_COUNT
        invariant
            x <= 8,
            addressable == (i <= usize::MAX / 32),
            forall|w: int| 0 <= w < x ==> words@[w] == pattern((i * 32 + w * 4) as nat),
        decreases 8 - x,
    {
        words[x] = if addressable {
            index_to_single_value(i * UNIT_ARRAY_BYTES + x * WORD_BYTES)
        } else {
            wide_index_to_single_value(i as u128 * 32 + x as u128 * 4)
        };
        x += 1;
    }
    MemUnit(words)
}

/// Byte `j` (0 to 3) of the word `w`, the least significant byte first.
pub open spec fn word_byte(w: u32, j: int) -> u8 {
    ((w >> (8 * j) as u32) & 0xff) as u8
}

/// The word whose bytes are `b0` to `b3`, the least significant byte first.
pub open spec fn word_of_bytes(b0: u8, b1: u8, b2: u8, b3: u8) -> u32 {
    (b0 as u32) | (b1 as u32) << 8 | (b2 as u32) << 16 | (b3 as u32) << 24
}

/// The 32 bytes that stand for the eight words `words` in the region.
pub open spec fn unit_bytes(words: Seq<u32>) -> Seq<u8> {
    Seq::new(32, |j: int| word_byte(words[j / 4], j % 4))
}

/// The eight words that the 32 bytes `bytes` stand for.
pub open spec fn unit_of_bytes(bytes: Seq<u8>) -> Seq<u32> {
    Seq::new(
        8,
        |w: int| word_of_bytes(bytes[4 * w], bytes[4 * w + 1], bytes[4 * w + 2], bytes[4 * w + 3]),
    )
}

proof fn lemma_word_roundtrip(w: u32)
    ensures
        word_of_bytes(word_byte(w, 0), word_byte(w, 1), word_byte(w, 2), word_byte(w, 3)) == w,
{
    let b0 = ((w >> 0u32) & 0xff) as u8;
    let b1 = ((w >> 8u32) & 0xff) as u8;
    let b2 = ((w >> 16u32) & 0xff) as u8;
    let b3 = ((w >> 24u32) & 0xff) as u8;
    assert((b0 as u32) | (b1 as u32) << 8 | (b2 as u32) << 16 | (b3 as u32) << 24 == w)
        by (bit_vector)
        requires
            b0 == ((w >> 0u32) & 0xff) as u8,
            b1 == ((w >> 8u32) & 0xff) as u8,
            b2 == ((w >> 16u32) & 0xff) as u8,
            b3 == ((w >> 24u32) & 0xff) as u8,
    ;
}

proof fn lemma_bytes_roundtrip(b0: u8, b1: u8, b2: u8, b3: u8)
    ensures
        word_byte(word_of_bytes(b0, b1, b2, b3), 0) == b0,
        word_byte(word_of_bytes(b0, b1, b2, b3), 1) == b1,
        word_byte(word_of_bytes(b0, b1, b2, b3), 2) == b2,
        word_byte(word_of_bytes(b0, b1, b2, b3), 3) == b3,
{
    let w = word_of_bytes(b0, b1, b2, b3);
    assert(w == (b0 as u32) | (b1 as u32) << 8 | (b2 as u32) << 16 | (b3 as u32) << 24);
    assert((((w >> 0u32) & 0xff) as u8) == b0 && (((w >> 8u32) & 0xff) as u8) == b1 && (((w
        >> 16u32) & 0xff) as u8) == b2 && (((w >> 24u32) & 0xff) as u8) == b3) by (bit_vector)
        requires
            w == (b0 as u32) | (b1 as u32) << 8 | (b2 as u32) << 16 | (b3 as u32) << 24,
    ;
}

/// Eight words survive the way through their 32 bytes and back.
pub proof fn lemma_unit_bytes_roundtrip(words: Seq<u32>)
    requires
        words.len() == 8,
    ensures
        unit_of_bytes(unit_bytes(words)) == words,
{
    assert forall|w: int| 0 <= w < 8 implies unit_of_bytes(unit_bytes(words))[w] == words[w] by {
        lemma_word_roundtrip(words[w]);
    }
    assert(unit_of_bytes(unit_bytes(words)) =~= words);
}

/// 32 bytes survive the way through their eight words and back.
pub proof fn lemma_unit_words_roundtrip(bytes: Seq<u8>)
    requires
        bytes.len() == 32,
    ensures
        unit_bytes(unit_of_bytes(bytes)) == bytes,
{
    assert forall|j: int| 0 <= j < 32 implies unit_bytes(unit_of_bytes(bytes))[j] == bytes[j] by {
        let w = j / 4;
        lemma_bytes_roundtrip(bytes[4 * w], bytes[4 * w + 1], bytes[4 * w + 2], bytes[4 * w + 3]);
    }
    assert(unit_bytes(unit_of_bytes(bytes)) =~= bytes);
}

impl MemUnit {
    /// Reads the unit that the 32 bytes from `offset` on stand for.
    pub fn load(bytes: &[u8], offset: usize) -> (unit: MemUnit)
        requires
            offset + 32 <= bytes@.len(),
        ensures
            unit@ == unit_of_bytes(bytes@.subrange(offset as int, offset + 32)),
    {
        let total: usize = bytes.len();
        let mut words: [u32; 8] = [0u32; 8];
        let mut x: usize = 0;
        let ghost part = bytes@.subrange(offset as int, offset + 32);
        while x < UNIT_COUNT
            invariant
                x <= 8,
                offset + 32 <= total,
                total == bytes@.len(),
                part == bytes@.subrange(offset as int, offset + 32),
                forall|w: int| 0 <= w < x ==> words@[w] == unit_of_bytes(part)[w],
            decreases 8 - x,
        {
            let at: usize = offset + x * WORD_BYTES;
            let b0: u8 = bytes[at];
            let b1: u8 = bytes[at + 1];
            let b2: u8 = bytes[at + 2];
            let b3: u8 = bytes[at + 3];
            assert(b0 == part[4 * x] && b1 == part[4 * x + 1] && b2 == part[4 * x + 2] && b3
                == part[4 * x + 3]);
            words[x] = (b0 as u32) | (b1 as u32) << 8 | (b2 as u32) << 16 | (b3 as u32) << 24;
            x += 1;
        }
        let unit = MemUnit(words);
        assert(unit@ =~= unit_of_bytes(part));
        unit
    }

    /// Writes the 32 bytes that stand for the unit into `bytes`, from `offset`
    /// on, and leaves the other bytes as they were.
    pub fn store(&self, bytes: &mut [u8], offset: usize)
        requires
            offset + 32 <= old(bytes)@.len(),
        ensures
            final(bytes)@.len() == old(bytes)@.len(),
            final(bytes)@.subrange(offset as int, offset + 32) == unit_bytes(self@),
            forall|j: int|
                0 <= j < old(bytes)@.len() && !(offset <= j < offset + 32) ==> final(bytes)@[j]
                    == old(bytes)@[j],
    {
        let total: usize = bytes.len();
        let mut x: usize = 0;
        while x < UNIT_COUNT
            invariant
                x <= 8,
                bytes@.len() == old(bytes)@.len(),
                offset + 32 <= total,
                total == bytes@.len(),
                forall|j: int|
                    0 <= j < 4 * x ==> bytes@[offset + j] == #[trigger] unit_bytes(self@)[j],
                forall|j: int|
                    0 <= j < bytes@.len() && !(offset <= j < offset + 4 * x) ==> bytes@[j] == old(
                        bytes,
                    )@[j],
            decreases 8 - x,
        {
            let w: u32 = self.0[x];
            let at: usize = offset + x * WORD_BYTES;
            bytes[at] = #[verifier::truncate] ((w & 0xff) as u8);
            bytes[at + 1] = #[verifier::truncate] (((w >> 8) & 0xff) as u8);
            bytes[at + 2] = #[verifier::truncate] (((w >> 16) & 0xff) as u8);
            bytes[at + 3] = #[verifier::truncate] (((w >> 24) & 0xff) as u8);
            proof {
                assert(w >> 0u32 == w) by (bit_vector);
                assert(forall|j: int|
                    0 <= j < 4 ==> unit_bytes(self@)[4 * x + j] == word_byte(w, j));
            }
            x += 1;
        }
        assert(bytes@.subrange(offset as int, offset + 32) =~= unit_bytes(self@));
    }
}

} // verus!
