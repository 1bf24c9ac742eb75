//! When two chips are the same chip.

use crate::sim::Chip;
use vstd::prelude::*;
use vstd::std_specs::cmp::PartialEqSpecImpl;

verus! {

/// Two chips are the same chip where they have the same device node.
impl PartialEq for Chip {
    fn eq(&self, other: &Self) -> (same: bool) {
        *self.dev_path() == *other.dev_path()
    }
}

impl PartialEqSpecImpl for Chip {
    open spec fn obeys_eq_spec() -> bool {
        true
    }

    open spec fn eq_spec(&self, other: &Self) -> bool {
        self@.dev_path == other@.dev_path
    }
}

impl Eq for Chip {

}

} // verus!
