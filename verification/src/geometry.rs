//! Which way a projection of the model looks.

use vstd::prelude::*;

verus! {

/// Which way the silhouette is looking, named for what a reader sees rather
/// than for the axis pointing at them.
#[derive(Debug, Clone, Copy, PartialEq, Eq, Structural)]
pub enum Axis {
    Front,
    Side,
    Top,
}

impl Default for Axis {
    fn default() -> (r: Axis)
        ensures
            r == Axis::Front,
    {
        Axis::Front
    }
}

impl Axis {
    pub open spec fn name_spec(self) -> Seq<char> {
        match self {
            Axis::Front => "front"@,
            Axis::Side => "side"@,
            Axis::Top => "top"@,
        }
    }

    pub open spec fn next_spec(self) -> Axis {
        match self {
            Axis::Front => Axis::Side,
            Axis::Side => Axis::Top,
            Axis::Top => Axis::Front,
        }
    }

    pub open spec fn axes_spec(self) -> (usize, usize, usize, bool) {
        match self {
            Axis::Front => (0, 1, 2, true),
            Axis::Side => (2, 1, 0, true),
            Axis::Top => (0, 2, 1, false),
        }
    }

    pub fn name(self) -> (r: &'static str)
        ensures
            r@ == self.name_spec(),
    {
        match self {
            Axis::Front => "front",
            Axis::Side => "side",
            Axis::Top => "top",
        }
    }

    pub fn next(self) -> (r: Axis)
        ensures
            r == self.next_spec(),
    {
        match self {
            Axis::Front => Axis::Side,
            Axis::Side => Axis::Top,
            Axis::Top => Axis::Front,
        }
    }

    /// Which model axis maps to screen right, screen down, and away, and
    /// whether screen rows run against the model's axis. Model up is
    /// positive y and terminal down is positive row, so the views that show
    /// height flip; the top view looks down that axis and does not.
    pub fn axes(self) -> (r: (usize, usize, usize, bool))
        ensures
            r == self.axes_spec(),
    {
        match self {
            Axis::Front => (0, 1, 2, true),
            Axis::Side => (2, 1, 0, true),
            Axis::Top => (0, 2, 1, false),
        }
    }
}

/// Cycling the axis visits all three views and comes back.
pub proof fn law_axis_cycles(a: Axis)
    ensures
        a.next_spec().next_spec().next_spec() == a,
        a.next_spec() != a,
        a.next_spec().next_spec() != a,
{
}

/// Every view maps three distinct model axes, so no projection collapses one
/// dimension onto another, and only the views whose screen rows show model
/// height invert them.
pub proof fn law_axes_are_a_permutation(a: Axis)
    ensures
        ({
            let (right, down, away, invert) = a.axes_spec();
            &&& right < 3 && down < 3 && away < 3
            &&& right != down && down != away && right != away
            &&& invert == (down == 1)
        }),
{
}

} // verus!
