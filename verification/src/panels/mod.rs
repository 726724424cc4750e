//! What the panels decide: sorting, filtering, grouping and the figures they
//! print. How a panel is drawn is the caller's.

pub mod distributions;
pub mod geometry;
pub mod health;
pub mod materials;
pub mod meshes;
pub mod silhouette;
pub mod textures;
pub mod uv;
pub mod validation;

use vstd::prelude::*;

verus! {

/// A sortable column set, shared by every table panel. One key steps through
/// the columns, and a second press on the same one reverses it.
#[derive(Debug, Clone, Copy, PartialEq, Eq, Structural)]
pub struct Sort {
    pub column: usize,
    pub descending: bool,
}

impl Default for Sort {
    fn default() -> (r: Sort)
        ensures
            r.column == 0,
            !r.descending,
    {
        Sort { column: 0, descending: false }
    }
}

impl Sort {
    pub open spec fn cycle_spec(self, columns: usize) -> Sort {
        if self.descending {
            Sort { column: ((self.column + 1) % (columns as int)) as usize, descending: false }
        } else {
            Sort { column: self.column, descending: true }
        }
    }

    /// Step to the next column, or reverse the current one. The first press
    /// on a new column sorts descending, because the interesting end of every
    /// numeric column here is the large one.
    pub fn cycle(self, columns: usize) -> (r: Sort)
        requires
            self.descending ==> columns > 0 && self.column < usize::MAX,
        ensures
            r == self.cycle_spec(columns),
    {
        if self.descending {
            Sort { column: (self.column + 1) % columns, descending: false }
        } else {
            Sort { column: self.column, descending: true }
        }
    }
}

/// Two presses visit each column once in each direction, so twice as many
/// presses as columns come back to where they started.
pub proof fn law_sort_visits_every_column(start: Sort, columns: usize)
    requires
        columns > 0,
        start.column < columns,
    ensures
        !start.descending ==> start.cycle_spec(columns) == (Sort { column: start.column, descending: true }),
        !start.descending ==> start.cycle_spec(columns).cycle_spec(columns) == (Sort {
            column: ((start.column + 1) % (columns as int)) as usize,
            descending: false,
        }),
        start.cycle_spec(columns).column < columns,
{
}

} // verus!
