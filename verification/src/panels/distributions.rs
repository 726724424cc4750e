//! Which meshes the model's weight is actually in.

use vstd::prelude::*;
use crate::keymap::{KeyCode, KeyEvent};
use crate::order::{sorted, sorted_spec, KeyView, SortKey};
use crate::panels::meshes::{display_name, display_name_spec, MeshRow};

verus! {

/// Which count the bars are of.
#[derive(Debug, Clone, Copy, PartialEq, Eq, Structural)]
pub enum By {
    Triangles,
    Vertices,
}

impl Default for By {
    fn default() -> (r: By)
        ensures
            r == By::Triangles,
    {
        By::Triangles
    }
}

impl By {
    pub open spec fn next_spec(self) -> By {
        match self {
            By::Triangles => By::Vertices,
            By::Vertices => By::Triangles,
        }
    }

    pub fn next(self) -> (r: By)
        ensures
            r == self.next_spec(),
    {
        match self {
            By::Triangles => By::Vertices,
            By::Vertices => By::Triangles,
        }
    }

    pub open spec fn label_spec(self) -> Seq<char> {
        match self {
            By::Triangles => "triangles per mesh"@,
            By::Vertices => "vertices per mesh"@,
        }
    }

    pub fn label(self) -> (r: &'static str)
        ensures
            r@ == self.label_spec(),
    {
        match self {
            By::Triangles => "triangles per mesh",
            By::Vertices => "vertices per mesh",
        }
    }
}

#[derive(Debug, Clone, Copy, PartialEq, Eq, Structural)]
pub struct Distributions {
    pub by: By,
}

impl Default for Distributions {
    fn default() -> (r: Distributions)
        ensures
            r.by == By::Triangles,
    {
        Distributions { by: By::Triangles }
    }
}

/// The count a metric reads off a mesh.
pub open spec fn metric_spec(by: By, mesh: MeshRow) -> u64 {
    match by {
        By::Triangles => mesh.triangle_count as u64,
        By::Vertices => mesh.vertex_count as u64,
    }
}

/// Every mesh's count under the metric, in report order.
pub open spec fn counts_spec(by: By, meshes: Seq<MeshRow>) -> Seq<u64> {
    Seq::new(meshes.len(), |i: int| metric_spec(by, meshes[i]))
}

impl Distributions {
    /// `b` switches what the bars count.
    pub fn handle(&mut self, key: KeyEvent)
        ensures
            final(self).by == (if key.code == KeyCode::Char('b') || key.code == KeyCode::Char('B') {
                old(self).by.next_spec()
            } else {
                old(self).by
            }),
    {
        match key.code {
            KeyCode::Char('b') | KeyCode::Char('B') => {
                self.by = self.by.next();
            },
            _ => {},
        }
    }

    /// Every mesh's label and count, largest first; meshes that tie keep
    /// the report's order.
    pub fn shares(&self, meshes: &Vec<MeshRow>) -> (r: Vec<(String, u64)>)
        ensures
            ({
                let order = sorted_spec(KeyView::Largest(counts_spec(self.by, meshes@)));
                &&& r@.len() == meshes@.len()
                &&& forall|t: int|
                    0 <= t < r@.len() ==> (#[trigger] r@[t]).0@ == display_name_spec(
                        meshes@[order[t] as int],
                    ) && r@[t].1 == metric_spec(self.by, meshes@[order[t] as int])
            }),
    {
        let mut counts: Vec<u64> = Vec::new();
        let mut i: usize = 0;
        while i < meshes.len()
            invariant
                i <= meshes@.len(),
                counts@ =~= counts_spec(self.by, meshes@).take(i as int),
            decreases meshes@.len() - i,
        {
            let count = match self.by {
                By::Triangles => meshes[i].triangle_count,
                By::Vertices => meshes[i].vertex_count,
            };
            counts.push(count as u64);
            i = i + 1;
        }
        assert(counts@ =~= counts_spec(self.by, meshes@));
        let key = SortKey::Largest(counts);
        let order = sorted(&key);
        let mut r: Vec<(String, u64)> = Vec::new();
        let mut t: usize = 0;
        while t < order.len()
            invariant
                key@ == KeyView::Largest(counts_spec(self.by, meshes@)),
                crate::order::arranges(order@, key@),
                order@ == sorted_spec(key@),
                t <= order@.len(),
                r@.len() == t,
                forall|q: int|
                    0 <= q < t ==> (#[trigger] r@[q]).0@ == display_name_spec(
                        meshes@[order@[q] as int],
                    ) && r@[q].1 == metric_spec(self.by, meshes@[order@[q] as int]),
            decreases order@.len() - t,
        {
            let k = order[t];
            let count = match self.by {
                By::Triangles => meshes[k].triangle_count,
                By::Vertices => meshes[k].vertex_count,
            };
            r.push((display_name(&meshes[k]), count as u64));
            t = t + 1;
        }
        r
    }
}

pub open spec fn median_spec(s: Seq<u64>) -> u64 {
    if s.len() == 0 {
        0
    } else if s.len() % 2 == 1 {
        s[s.len() as int / 2]
    } else {
        ((s[s.len() as int / 2 - 1] + s[s.len() as int / 2]) / 2) as u64
    }
}

/// The middle of a sorted series, or of its middle pair rounded down; zero
/// for an empty one rather than a panic.
pub fn median(sorted: &Vec<u64>) -> (r: u64)
    ensures
        r == median_spec(sorted@),
{
    if sorted.len() == 0 {
        return 0;
    }
    let middle = sorted.len() / 2;
    if sorted.len() % 2 == 1 {
        sorted[middle]
    } else {
        let a = sorted[middle - 1];
        let b = sorted[middle];
        let sum: u128 = a as u128 + b as u128;
        (sum / 2) as u64
    }
}

/// Toggling the metric twice comes back.
pub proof fn law_metric_toggles(by: By)
    ensures
        by.next_spec().next_spec() == by,
        by.next_spec() != by,
{
}

} // verus!
