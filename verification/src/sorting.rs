//! How the repository list is ordered.

use vstd::prelude::*;

verus! {

/// The order of the repository list; `s` cycles through them.
#[derive(Debug, Clone, Copy, PartialEq, Eq, Structural)]
pub enum SortOrder {
    Alphabetical,
    ReverseAlphabetical,
    DirtyFirst,
}

/// The order after `o`.
pub open spec fn next_order(o: SortOrder) -> SortOrder {
    match o {
        SortOrder::Alphabetical => SortOrder::ReverseAlphabetical,
        SortOrder::ReverseAlphabetical => SortOrder::DirtyFirst,
        SortOrder::DirtyFirst => SortOrder::Alphabetical,
    }
}

/// `s` runs through every order and is back after three presses.
pub proof fn law_sort_order_cycles(o: SortOrder)
    ensures
        next_order(next_order(next_order(o))) == o,
        next_order(o) != o,
        next_order(next_order(o)) != o,
{
}

impl SortOrder {
    /// The next order: A-Z, then Z-A, then dirty first, then A-Z again.
    pub fn next(self) -> (r: Self)
        ensures
            r == next_order(self),
    {
        match self {
            SortOrder::Alphabetical => SortOrder::ReverseAlphabetical,
            SortOrder::ReverseAlphabetical => SortOrder::DirtyFirst,
            SortOrder::DirtyFirst => SortOrder::Alphabetical,
        }
    }

    /// The order's short label in the list title.
    pub fn label(self) -> (r: &'static str)
        ensures
            r@ == match self {
                SortOrder::Alphabetical => "A-Z"@,
                SortOrder::ReverseAlphabetical => "Z-A"@,
                SortOrder::DirtyFirst => "Dirty"@,
            },
    {
        match self {
            SortOrder::Alphabetical => "A-Z",
            SortOrder::ReverseAlphabetical => "Z-A",
            SortOrder::DirtyFirst => "Dirty",
        }
    }
}

} // verus!
