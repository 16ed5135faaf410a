//! Numbers and units as text, as they stand in the report.

use vstd::prelude::*;
use vstd::string::StringExecFns;
use crate::unit::MemUnit;

verus! {

/// The character that stands for the digit `d` in base 10 and in base 16.
pub open spec fn digit_char(d: nat) -> char {
    if d == 0 {
        '0'
    } else if d == 1 {
        '1'
    } else if d == 2 {
        '2'
    } else if d == 3 {
        '3'
    } else if d == 4 {
        '4'
    } else if d == 5 {
        '5'
    } else if d == 6 {
        '6'
    } else if d == 7 {
        '7'
    } else if d == 8 {
        '8'
    } else if d == 9 {
        '9'
    } else if d == 10 {
        'a'
    } else if d == 11 {
        'b'
    } else if d == 12 {
        'c'
    } else if d == 13 {
        'd'
    } else if d == 14 {
        'e'
    } else {
        'f'
    }
}

/// `n` in lower-case hexadecimal digits, the most significant first, padded
/// with zeros on the left to at least `width` digits (and to one at least).
pub open spec fn hex_text(n: nat, width: nat) -> Seq<char>
    decreases n, width,
{
    if n < 16 && width <= 1 {
        seq![digit_char(n)]
    } else {
        hex_text(n / 16, if width > 0 { (width - 1) as nat } else { 0 }) + seq![digit_char(n % 16)]
    }
}

/// `n` in decimal digits, the most significant first, without padding.
pub open spec fn dec_text(n: nat) -> Seq<char>
    decreases n,
{
    if n < 10 {
        seq![digit_char(n)]
    } else {
        dec_text(n / 10) + seq![digit_char(n % 10)]
    }
}

/// A word as it stands in the report: eight hexadecimal digits and a space.
pub open spec fn word_text(w: u32) -> Seq<char> {
    hex_text(w as nat, 8) + " "@
}

/// A unit as it stands in the report: its eight words in ascending order,
/// with two more spaces between the fourth and the fifth.
pub open spec fn unit_text(words: Seq<u32>) -> Seq<char> {
    word_text(words[0]) + word_text(words[1]) + word_text(words[2]) + word_text(words[3]) + "  "@
        + word_text(words[4]) + word_text(words[5]) + word_text(words[6]) + word_text(words[7])
}

/// A word is written with eight digits, whatever its value, and a unit takes
/// 74 characters.
pub proof fn lemma_unit_text_len(words: Seq<u32>)
    requires
        words.len() == 8,
    ensures
        forall|w: int| 0 <= w < 8 ==> (#[trigger] hex_text(words[w] as nat, 8)).len() == 8,
        unit_text(words).len() == 74,
{
    reveal_strlit(" ");
    reveal_strlit("  ");
    assert forall|w: int| 0 <= w < 8 implies (#[trigger] hex_text(words[w] as nat, 8)).len()
        == 8 by {
        lemma_hex_text_len_8(words[w]);
    }
}

proof fn lemma_hex_text_len_8(w: u32)
    ensures
        hex_text(w as nat, 8).len() == 8,
{
    reveal_with_fuel(hex_text, 9);
}

/// The one-character text of a digit below 16.
fn digit_str(d: u8) -> (s: &'static str)
    requires
        d < 16,
    ensures
        s@ == seq![digit_char(d as nat)],
{
    proof {
        reveal_strlit("0");
        reveal_strlit("1");
        reveal_strlit("2");
        reveal_strlit("3");
        reveal_strlit("4");
        reveal_strlit("5");
        reveal_strlit("6");
        reveal_strlit("7");
        reveal_strlit("8");
        reveal_strlit("9");
        reveal_strlit("a");
        reveal_strlit("b");
        reveal_strlit("c");
        reveal_strlit("d");
        reveal_strlit("e");
        reveal_strlit("f");
    }
    let s = match d {
        0 => "0",
        1 => "1",
        2 => "2",
        3 => "3",
        4 => "4",
        5 => "5",
        6 => "6",
        7 => "7",
        8 => "8",
        9 => "9",
        10 => "a",
        11 => "b",
        12 => "c",
        13 => "d",
        14 => "e",
        _ => "f",
    };
    assert(s@ =~= seq![digit_char(d as nat)]);
    s
}

/// Appends `n` in hexadecimal, padded with zeros to at least `width` digits.
pub fn push_hex(out: &mut String, n: u128, width: usize)
    ensures
        final(out)@ == old(out)@ + hex_text(n as nat, width as nat),
    decreases n, width,
{
    if n >= 16 || width > 1 {
        push_hex(out, n / 16, if width > 0 { width - 1 } else { 0 });
    }
    out.append(digit_str((n % 16) as u8));
    assert(final(out)@ =~= old(out)@ + hex_text(n as nat, width as nat));
}

/// Appends `n` in decimal.
pub fn push_dec(out: &mut String, n: u128)
    ensures
        final(out)@ == old(out)@ + dec_text(n as nat),
    decreases n,
{
    if n >= 10 {
        push_dec(out, n / 10);
    }
    out.append(digit_str((n % 10) as u8));
    assert(final(out)@ =~= old(out)@ + dec_text(n as nat));
}

/// Appends a word as it stands in the report.
fn push_word(out: &mut String, w: u32)
    ensures
        final(out)@ == old(out)@ + word_text(w),
{
    push_hex(out, w as u128, 8);
    out.append(" ");
    assert(final(out)@ =~= old(out)@ + word_text(w));
}

impl MemUnit {
    /// Appends the unit as it stands in the report.
    pub fn push_text(&self, out: &mut String)
        ensures
            final(out)@ == old(out)@ + unit_text(self@),
    {
        push_word(out, self.0[0]);
        push_word(out, self.0[1]);
        push_word(out, self.0[2]);
        push_word(out, self.0[3]);
        out.append("  ");
        push_word(out, self.0[4]);
        push_word(out, self.0[5]);
        push_word(out, self.0[6]);
        push_word(out, self.0[7]);
        assert(final(out)@ =~= old(out)@ + unit_text(self@));
    }

    /// The unit as it stands in the report.
    pub fn to_text(&self) -> (s: String)
        ensures
            s@ == unit_text(self@),
    {
        let mut s = String::new();
        self.push_text(&mut s);
        s
    }
}

} // verus!
