//! The listing on a single line.

use crate::config::Config;
use crate::entry::ColoredEntry;
use vstd::prelude::*;
use vstd::string::*;

verus! {

/// The styled names from position `at` on, the separator between every two
/// of them and nothing behind the last.
pub open spec fn joined_from(entries: Seq<ColoredEntry>, separator: Seq<char>, at: int) -> Seq<
    char,
>
    decreases entries.len() - at,
{
    if at < 0 || at >= entries.len() {
        Seq::empty()
    } else if at + 1 < entries.len() {
        entries[at].formatted_name@ + separator + joined_from(entries, separator, at + 1)
    } else {
        entries[at].formatted_name@
    }
}

/// The whole listing on one line.
pub open spec fn joined(entries: Seq<ColoredEntry>, separator: Seq<char>) -> Seq<char> {
    joined_from(entries, separator, 0)
}

/// The listing on one line: the styled names in their order, joined by the
/// separator. No padding is added.
pub fn show(colored_entries: Vec<ColoredEntry>, config: &Config) -> (line: String)
    ensures
        line@ == joined(colored_entries@, config.separator@),
{
    let ghost whole = joined(colored_entries@, config.separator@);
    let count = colored_entries.len();
    let mut line = String::new();
    let mut at: usize = 0;
    assert(line@ + whole =~= whole);
    while at < count
        invariant
            at <= count,
            count == colored_entries@.len(),
            line@ + joined_from(colored_entries@, config.separator@, at as int) == whole,
        decreases count - at,
    {
        let ghost before = line@;
        let ghost rest = joined_from(colored_entries@, config.separator@, at as int);
        line.append(colored_entries[at].formatted_name.as_str());
        if at + 1 < count {
            line.append(config.separator.as_str());
        }
        proof {
            let next = joined_from(colored_entries@, config.separator@, at + 1);
            if at + 1 < count {
                assert(line@ + next =~= before + rest);
            } else {
                assert(next =~= Seq::<char>::empty());
                assert(line@ + next =~= before + rest);
            }
        }
        at = at + 1;
    }
    assert(line@ + Seq::<char>::empty() =~= line@);
    line
}

} // verus!
