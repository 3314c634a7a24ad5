//! When two entries count as the same: by kind, extension and name, never by
//! colour or styled text.

use crate::entry::ColoredEntry;
use crate::text::{optional_view, same_text};
use vstd::prelude::*;
use vstd::std_specs::cmp::PartialEqSpecImpl;
use vstd::string::*;

verus! {

impl PartialEq for ColoredEntry {
    fn eq(&self, other: &Self) -> (same: bool) {
        let extensions = match &self.extension {
            Some(left) => match &other.extension {
                Some(right) => same_text(left.as_str(), right.as_str()),
                None => false,
            },
            None => other.extension.is_none(),
        };
        self.kind == other.kind && extensions && same_text(
            self.name.as_str(),
            other.name.as_str(),
        )
    }
}

impl PartialEqSpecImpl for ColoredEntry {
    open spec fn obeys_eq_spec() -> bool {
        true
    }

    open spec fn eq_spec(&self, other: &Self) -> bool {
        self.kind == other.kind && optional_view(self.extension) == optional_view(other.extension)
            && self.name@ == other.name@
    }
}

impl Eq for ColoredEntry {

}

} // verus!
