//! Queries over a selection of the registry's records.

use crate::filter::Filter;
use crate::model::Target;
use crate::registry::{registry, RFCs, REGISTRY_LEN};
use crate::rfc::{Contains, RFC};
use vstd::prelude::*;

verus! {

/// Some selected record of the registry contains the target.
pub open spec fn selected_contains(selection: Set<nat>, t: Target) -> bool {
    exists|i: int|
        0 <= i < registry().len() && selection.contains(i as nat) && (#[trigger] registry()[i]).contains(
            t,
        )
}

/// Selecting more records never loses a match.
pub proof fn lemma_selected_monotonic(small: Set<nat>, large: Set<nat>, t: Target)
    requires
        small.subset_of(large),
        selected_contains(small, t),
    ensures
        selected_contains(large, t),
{
    let i = choose|i: int|
        0 <= i < registry().len() && small.contains(i as nat) && (#[trigger] registry()[i]).contains(
            t,
        );
    assert(large.contains(i as nat));
}

/// A union of selections contains what either of them contains.
pub proof fn lemma_selected_union(a: Set<nat>, b: Set<nat>, t: Target)
    ensures
        selected_contains(a.union(b), t) == (selected_contains(a, t) || selected_contains(b, t)),
{
    if selected_contains(a.union(b), t) {
        let i = choose|i: int|
            0 <= i < registry().len() && a.union(b).contains(i as nat) && (
            #[trigger] registry()[i]).contains(t);
        if a.contains(i as nat) {
            assert(selected_contains(a, t));
        } else {
            assert(b.contains(i as nat));
            assert(selected_contains(b, t));
        }
    }
    if selected_contains(a, t) {
        lemma_selected_monotonic(a, a.union(b), t);
    }
    if selected_contains(b, t) {
        lemma_selected_monotonic(b, a.union(b), t);
    }
}

/// A selection of the registry's records, to be asked as one.
#[derive(Debug, Copy, Clone, Eq, PartialEq, Structural, Ord, PartialOrd, Hash)]
pub struct Subset(Filter);

impl View for Subset {
    type V = Set<nat>;

    /// The indices of the selected records.
    closed spec fn view(&self) -> Set<nat> {
        self.0@
    }
}

impl RFCs {
    /// The subset of the records that the filter selects.
    pub fn filter(filter: Filter) -> (r: Subset)
        ensures
            r@ == filter@,
    {
        Subset(filter)
    }
}

impl Subset {
    /// The filter that selects the subset.
    pub fn selection(&self) -> (r: Filter)
        ensures
            r@ == self@,
    {
        self.0
    }

    /// Whether some selected record contains `ip`: an address or a network,
    /// of one family or of either.
    pub fn contains<T>(&self, ip: &T) -> (r: bool) where RFC: Contains<T>
        ensures
            r == selected_contains(self@, <RFC as Contains<T>>::target(ip)),
    {
        let ghost goal = <RFC as Contains<T>>::target(ip);
        let mut i: usize = 0;
        while i < REGISTRY_LEN
            invariant
                i <= REGISTRY_LEN,
                registry().len() == REGISTRY_LEN,
                goal == <RFC as Contains<T>>::target(ip),
                forall|j: int|
                    0 <= j < i && self@.contains(j as nat) ==> !(#[trigger] registry()[j]).contains(
                        goal,
                    ),
            decreases REGISTRY_LEN - i,
        {
            if self.0.is_set(i) {
                let record = RFCs::at(i);
                if record.contains(ip) {
                    assert(registry()[i as int].contains(goal));
                    return true;
                }
            }
            i = i + 1;
        }
        false
    }
}

} // verus!
