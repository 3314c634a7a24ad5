//! The listing with one entry on each line.

use crate::entry::ColoredEntry;
use vstd::prelude::*;
use vstd::string::*;

verus! {

/// The styled names, one for each line.
pub open spec fn names_of(entries: Seq<ColoredEntry>) -> Seq<Seq<char>> {
    Seq::new(entries.len(), |i: int| entries[i].formatted_name@)
}

/// The listing with one entry on each line: the styled names in their order.
pub fn show(colored_entries: Vec<ColoredEntry>) -> (lines: Vec<String>)
    ensures
        lines.deep_view() == names_of(colored_entries@),
{
    let count = colored_entries.len();
    let mut lines: Vec<String> = Vec::new();
    let mut at: usize = 0;
    while at < count
        invariant
            at <= count,
            count == colored_entries@.len(),
            lines@.len() == at,
            forall|i: int|
                0 <= i < at ==> (#[trigger] lines@[i])@ == colored_entries@[i].formatted_name@,
        decreases count - at,
    {
        lines.push(colored_entries[at].formatted_name.clone());
        at = at + 1;
    }
    assert(lines.deep_view() =~= names_of(colored_entries@));
    lines
}

} // verus!
