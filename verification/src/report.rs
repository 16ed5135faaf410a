//! What a run reports, as values and as text.

use vstd::prelude::*;
use vstd::string::StringExecFns;
use crate::classify::{CacheLabel, MemoryLabel};
use crate::text::{dec_text, hex_text, push_dec, push_hex, unit_text};
use crate::unit::{index_to_value, unit_pattern, MemUnit};

verus! {

/// Number of verification passes of a run.
pub const MAX_ITERATION: u32 = 3;

/// One line of the report on a mismatch.
#[derive(Clone, Copy, Debug, PartialEq)]
pub enum ReportItem {
    /// A pass met its first mismatch, at unit `addr`.
    Failure { iteration: u32, addr: usize },
    /// The value expected in unit `addr`; `confirmed` where the unit was
    /// found to hold it.
    Expected { addr: usize, confirmed: bool },
    /// The value read through the read-write mapping; `failed` where it is
    /// reported as the failing one.
    Checked { iteration: u32, value: MemUnit, failed: bool },
    /// The first value read through the read-only mapping, with its label
    /// from the first table where it is reported for that.
    Cached { iteration: u32, value: MemUnit, label: Option<CacheLabel> },
    /// The value read through the read-only mapping after the estimation
    /// sweep, with its label from the second table.
    Uncached { iteration: u32, value: MemUnit, finding: MemoryLabel },
    /// The value of the read that followed it at once.
    Reread { iteration: u32, value: MemUnit },
}

/// What the estimation sweep found: how many units it read and how many of
/// them did not hold their expected value.
#[derive(Clone, Copy, Debug, PartialEq, Eq, Structural)]
pub struct Estimate {
    pub sampled: usize,
    pub mismatches: usize,
}

/// The byte address of unit `addr` as text: `0x` and at least nine
/// hexadecimal digits.
pub open spec fn address_text(addr: nat) -> Seq<char> {
    "0x"@ + hex_text(addr * 32, 9)
}

/// The line that shows the value expected in unit `addr`, followed by `note`
/// after two spaces where there is one.
pub open spec fn expected_text(addr: nat, note: Seq<char>) -> Seq<char> {
    address_text(addr) + ": "@ + unit_text(unit_pattern(addr)) + (if note.len() == 0 {
        Seq::<char>::empty()
    } else {
        "  "@
    }) + note
}

/// The start of a line that shows a value read in pass `iteration`.
pub open spec fn value_text(iteration: u32, tag: Seq<char>, value: MemUnit) -> Seq<char> {
    " It"@ + dec_text(iteration as nat) + tag + unit_text(value@)
}

impl ReportItem {
    /// The item as a line of text, without the line's end.
    pub open spec fn text(self) -> Seq<char> {
        match self {
            ReportItem::Failure { iteration, addr } => {
                "FAIL: error found at iteration "@ + dec_text(iteration as nat) + " address "@
                    + address_text(addr as nat)
            },
            ReportItem::Expected { addr, confirmed } => expected_text(
                addr as nat,
                if confirmed {
                    "OK"@
                } else {
                    ""@
                },
            ),
            ReportItem::Checked { iteration, value, failed } => value_text(
                iteration,
                "  MEMBAR "@,
                value,
            ) + (if failed {
                "FAIL"@
            } else {
                Seq::<char>::empty()
            }),
            ReportItem::Cached { iteration, value, label } => value_text(
                iteration,
                "  CACHED "@,
                value,
            ) + (match label {
                Some(l) => l.text(),
                None => Seq::<char>::empty(),
            }),
            ReportItem::Uncached { iteration, value, finding } => value_text(
                iteration,
                "  UNCACH "@,
                value,
            ) + finding.text(),
            ReportItem::Reread { iteration, value } => value_text(iteration, "  REREAD "@, value),
        }
    }

    /// The item as a line of text, without the line's end.
    pub fn to_text(&self) -> (s: String)
        ensures
            s@ == self.text(),
    {
        match self {
            ReportItem::Failure { iteration, addr } => {
                let mut s = String::from_str("FAIL: error found at iteration ");
                push_dec(&mut s, *iteration as u128);
                s.append(" address ");
                push_address(&mut s, *addr);
                assert(s@ =~= self.text());
                s
            },
            ReportItem::Expected { addr, confirmed } => {
                address_expected_text(
                    *addr,
                    if *confirmed {
                        "OK"
                    } else {
                        ""
                    },
                )
            },
            ReportItem::Checked { iteration, value, failed } => {
                let mut s = String::new();
                push_value(&mut s, *iteration, "  MEMBAR ", value);
                if *failed {
                    s.append("FAIL");
                }
                assert(s@ =~= self.text());
                s
            },
            ReportItem::Cached { iteration, value, label } => {
                let mut s = String::new();
                push_value(&mut s, *iteration, "  CACHED ", value);
                match label {
                    Some(l) => {
                        s.append(l.as_str());
                    },
                    None => {},
                }
                assert(s@ =~= self.text());
                s
            },
            ReportItem::Uncached { iteration, value, finding } => {
                let mut s = String::new();
                push_value(&mut s, *iteration, "  UNCACH ", value);
                s.append(finding.as_str());
                assert(s@ =~= self.text());
                s
            },
            ReportItem::Reread { iteration, value } => {
                let mut s = String::new();
                push_value(&mut s, *iteration, "  REREAD ", value);
                assert(s@ =~= self.text());
                s
            },
        }
    }
}

/// Appends the byte address of unit `addr`.
fn push_address(out: &mut String, addr: usize)
    ensures
        final(out)@ == old(out)@ + address_text(addr as nat),
{
    out.append("0x");
    push_hex(out, addr as u128 * 32, 9);
    assert(final(out)@ =~= old(out)@ + address_text(addr as nat));
}

/// Appends the start of a line that shows a value read in pass `iteration`.
fn push_value(out: &mut String, iteration: u32, tag: &str, value: &MemUnit)
    ensures
        final(out)@ == old(out)@ + value_text(iteration, tag@, *value),
{
    out.append(" It");
    push_dec(out, iteration as u128);
    out.append(tag);
    value.push_text(out);
    assert(final(out)@ =~= old(out)@ + value_text(iteration, tag@, *value));
}

/// The line that shows the value expected in unit `addr`, followed by `note`
/// after two spaces where there is one.
pub fn address_expected_text(addr: usize, note: &str) -> (s: String)
    ensures
        s@ == expected_text(addr as nat, note@),
{
    let mut s = String::new();
    push_address(&mut s, addr);
    s.append(": ");
    index_to_value(addr).push_text(&mut s);
    if !note.is_empty() {
        s.append("  ");
    }
    s.append(note);
    assert(s@ =~= expected_text(addr as nat, note@));
    s
}

/// The duration of all the passes in whole seconds, projected from the
/// nanoseconds that the first one took.
pub open spec fn projected_seconds(elapsed_nanos: nat) -> nat {
    elapsed_nanos * 3 / 1_000_000_000
}

/// The line that follows a first pass without mismatch: the milliseconds it
/// took and the seconds that all the passes are expected to take.
pub open spec fn first_pass_line(elapsed_nanos: nat) -> Seq<char> {
    "First pass done without miscompares in "@ + dec_text(elapsed_nanos / 1_000_000)
        + " milliseconds, all "@ + dec_text(3) + " iterations are expected to be done in "@
        + dec_text(projected_seconds(elapsed_nanos)) + " seconds... "@
}

/// The line that follows a first pass without mismatch, which took
/// `elapsed_nanos` nanoseconds.
pub fn first_pass_text(elapsed_nanos: u128) -> (s: String)
    ensures
        s@ == first_pass_line(elapsed_nanos as nat),
{
    let whole: u128 = elapsed_nanos / 1_000_000_000;
    let part: u128 = elapsed_nanos % 1_000_000_000;
    let projected: u128 = whole * 3 + part * 3 / 1_000_000_000;
    assert(projected == projected_seconds(elapsed_nanos as nat));
    let mut s = String::from_str("First pass done without miscompares in ");
    push_dec(&mut s, elapsed_nanos / 1_000_000);
    s.append(" milliseconds, all ");
    push_dec(&mut s, MAX_ITERATION as u128);
    s.append(" iterations are expected to be done in ");
    push_dec(&mut s, projected);
    s.append(" seconds... ");
    assert(s@ =~= first_pass_line(elapsed_nanos as nat));
    s
}

/// The line that ends a run without mismatch.
pub fn pass_text() -> (s: String)
    ensures
        s@ == "PASS: iterations "@ + dec_text(3),
{
    let mut s = String::from_str("PASS: iterations ");
    push_dec(&mut s, MAX_ITERATION as u128);
    s
}

} // verus!
