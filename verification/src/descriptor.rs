//! Method descriptors: how many slots the arguments of a method take.
//!
//! A descriptor is `(`, the parameter types one after the other, `)`, and the
//! return type. A type is one of the letters `B C F I S Z` (one slot), `D J`
//! (two slots), `L`, a class name and `;` (one slot), or `[` and a type (an
//! array: one slot).

use vstd::prelude::*;
use vstd::string::StrSliceExecFns;

verus! {

/// The most slots that the parameters of a method may take.
pub const MAX_ARGUMENT_SLOTS: u16 = 255;

/// Where the scan of a descriptor stands.
#[derive(Clone, Copy, Debug, PartialEq, Eq, Structural)]
pub enum ScanMode {
    /// Nothing was read yet.
    Start,
    /// A parameter type, or `)`, comes next. `array` is set after a `[`.
    Type { array: bool },
    /// Inside a class name, up to its `;`.
    ClassName,
    /// The `)` was read: the parameters are counted.
    Done,
    /// The text is no descriptor.
    Invalid,
}

/// The state of a scan: where it stands, and the slots counted so far.
#[derive(Clone, Copy, Debug, PartialEq, Eq, Structural)]
pub struct Scan {
    pub mode: ScanMode,
    pub slots: u16,
}

/// The scan after a parameter type of `width` slots was read.
pub open spec fn spec_count(scan: Scan, width: u16, mode: ScanMode) -> Scan {
    if scan.slots + width > MAX_ARGUMENT_SLOTS {
        Scan { mode: ScanMode::Invalid, slots: scan.slots }
    } else {
        Scan { mode, slots: (scan.slots + width) as u16 }
    }
}

/// The scan after one more character.
pub open spec fn spec_scan_step(scan: Scan, c: char) -> Scan {
    match scan.mode {
        ScanMode::Start => if c == '(' {
            Scan { mode: ScanMode::Type { array: false }, slots: scan.slots }
        } else {
            Scan { mode: ScanMode::Invalid, slots: scan.slots }
        },
        ScanMode::Type { array } => if c == ')' && !array {
            Scan { mode: ScanMode::Done, slots: scan.slots }
        } else if c == '[' {
            Scan { mode: ScanMode::Type { array: true }, slots: scan.slots }
        } else if c == 'B' || c == 'C' || c == 'F' || c == 'I' || c == 'S' || c == 'Z' {
            spec_count(scan, 1, ScanMode::Type { array: false })
        } else if c == 'D' || c == 'J' {
            spec_count(
                scan,
                if array {
                    1
                } else {
                    2
                },
                ScanMode::Type { array: false },
            )
        } else if c == 'L' {
            spec_count(scan, 1, ScanMode::ClassName)
        } else {
            Scan { mode: ScanMode::Invalid, slots: scan.slots }
        },
        ScanMode::ClassName => if c == ';' {
            Scan { mode: ScanMode::Type { array: false }, slots: scan.slots }
        } else {
            scan
        },
        ScanMode::Done => scan,
        ScanMode::Invalid => scan,
    }
}

/// The scan after all the characters of `text`, from the left.
pub open spec fn spec_scan(text: Seq<char>) -> Scan
    decreases text.len(),
{
    if text.len() == 0 {
        Scan { mode: ScanMode::Start, slots: 0 }
    } else {
        spec_scan_step(spec_scan(text.drop_last()), text.last())
    }
}

/// The number of slots that the parameters of a method with this descriptor
/// take, or `None` where the text has no well-formed parameter list of at most
/// 255 slots. What follows the `)` is not looked at.
pub open spec fn spec_argument_slots(descriptor: Seq<char>) -> Option<u16> {
    let scan = spec_scan(descriptor);
    if scan.mode == ScanMode::Done {
        Some(scan.slots)
    } else {
        None
    }
}

/// The scan after a parameter type of `width` slots was read.
fn count(scan: Scan, width: u16, mode: ScanMode) -> (r: Scan)
    requires
        width <= 2,
    ensures
        r == spec_count(scan, width, mode),
{
    if scan.slots > MAX_ARGUMENT_SLOTS || MAX_ARGUMENT_SLOTS - scan.slots < width {
        Scan { mode: ScanMode::Invalid, slots: scan.slots }
    } else {
        Scan { mode, slots: scan.slots + width }
    }
}

/// The scan after one more character.
pub fn scan_step(scan: Scan, c: char) -> (r: Scan)
    ensures
        r == spec_scan_step(scan, c),
{
    match scan.mode {
        ScanMode::Start => if c == '(' {
            Scan { mode: ScanMode::Type { array: false }, slots: scan.slots }
        } else {
            Scan { mode: ScanMode::Invalid, slots: scan.slots }
        },
        ScanMode::Type { array } => if c == ')' && !array {
            Scan { mode: ScanMode::Done, slots: scan.slots }
        } else if c == '[' {
            Scan { mode: ScanMode::Type { array: true }, slots: scan.slots }
        } else if c == 'B' || c == 'C' || c == 'F' || c == 'I' || c == 'S' || c == 'Z' {
            count(scan, 1, ScanMode::Type { array: false })
        } else if c == 'D' || c == 'J' {
            count(
                scan,
                if array {
                    1
                } else {
                    2
                },
                ScanMode::Type { array: false },
            )
        } else if c == 'L' {
            count(scan, 1, ScanMode::ClassName)
        } else {
            Scan { mode: ScanMode::Invalid, slots: scan.slots }
        },
        ScanMode::ClassName => if c == ';' {
            Scan { mode: ScanMode::Type { array: false }, slots: scan.slots }
        } else {
            scan
        },
        ScanMode::Done => scan,
        ScanMode::Invalid => scan,
    }
}

/// True when no character changes the scan any more.
pub open spec fn settled(scan: Scan) -> bool {
    scan.mode == ScanMode::Done || scan.mode == ScanMode::Invalid
}

/// A scan that is settled after `i` characters is the scan of the whole text.
proof fn lemma_settled(text: Seq<char>, i: int)
    requires
        0 <= i <= text.len(),
        settled(spec_scan(text.take(i))),
    ensures
        spec_scan(text) == spec_scan(text.take(i)),
    decreases text.len() - i,
{
    if i == text.len() {
        assert(text.take(i) =~= text);
    } else {
        assert(text.take(i + 1).drop_last() =~= text.take(i));
        lemma_settled(text, i + 1);
    }
}

/// Counts the slots that the parameters of a method with this descriptor take.
pub fn argument_slots(descriptor: &str) -> (r: Option<u16>)
    ensures
        r == spec_argument_slots(descriptor@),
{
    let n = descriptor.unicode_len();
    let mut scan = Scan { mode: ScanMode::Start, slots: 0 };
    let mut i: usize = 0;
    while i < n && !matches!(scan.mode, ScanMode::Done | ScanMode::Invalid)
        invariant
            i <= n,
            n == descriptor@.len(),
            scan == spec_scan(descriptor@.take(i as int)),
        decreases n - i,
    {
        let c = descriptor.get_char(i);
        assert(descriptor@.take(i + 1).drop_last() =~= descriptor@.take(i as int));
        scan = scan_step(scan, c);
        i += 1;
    }
    proof {
        if i < n {
            lemma_settled(descriptor@, i as int);
        } else {
            assert(descriptor@.take(n as int) =~= descriptor@);
        }
    }
    match scan.mode {
        ScanMode::Done => Some(scan.slots),
        _ => None,
    }
}

} // verus!
