//! Materials, with what uses them.
//!
//! Used-by resolves each material back to the meshes that reference it,
//! something the report has always known and no surface has shown.

use vstd::prelude::*;
use crate::keymap::{KeyCode, KeyEvent};
use crate::order::{counts_in_order, shown, shown_spec, texts_in_order, KeyView, SortKey};
use crate::panels::meshes::{display_name, display_name_spec, MeshRow};
use crate::panels::textures::{entries, entries_spec, missing, missing_upto, TextureRow};
use crate::panels::validation::{step, step_spec};
use crate::panels::Sort;
use crate::text::{chars_of, decimal, owned, push_decimal, push_str};

verus! {

/// How many columns the table has, which is how far the sort key cycles.
pub const COLUMN_COUNT: usize = 4;

/// The table's column headers, in sort-cycle order.
pub fn columns() -> (r: Vec<&'static str>)
    ensures
        r@.len() == COLUMN_COUNT,
        r@[0]@ == "name"@,
        r@[1]@ == "base colour"@,
        r@[2]@ == "tex"@,
        r@[3]@ == "used by"@,
{
    vec!["name", "base colour", "tex", "used by"]
}

/// What the table reads of one material in the report.
#[derive(Debug, Clone, PartialEq, Eq)]
pub struct MaterialRow {
    /// The material's position in the report, which meshes refer to it by.
    pub index: usize,
    pub name: String,
    /// Where the base colour's luminance falls in the total order of its
    /// floating-point value: a larger key is a brighter colour.
    pub luminance: u64,
    /// The texture slots the material references.
    pub textures: Vec<TextureRow>,
}

/// The meshes that reference a material, in report order.
pub open spec fn users_upto(meshes: Seq<MeshRow>, index: usize, upto: int) -> Seq<Seq<char>>
    decreases upto,
{
    if upto <= 0 {
        Seq::empty()
    } else if meshes[upto - 1].material_id == Some(index) {
        users_upto(meshes, index, upto - 1).push(display_name_spec(meshes[upto - 1]))
    } else {
        users_upto(meshes, index, upto - 1)
    }
}

pub open spec fn users_spec(meshes: Seq<MeshRow>, index: usize) -> Seq<Seq<char>> {
    users_upto(meshes, index, meshes.len() as int)
}

/// The labels of the meshes that reference a material, in report order.
pub fn users(meshes: &Vec<MeshRow>, index: usize) -> (r: Vec<String>)
    ensures
        r@.len() == users_spec(meshes@, index).len(),
        forall|t: int| 0 <= t < r@.len() ==> #[trigger] r@[t]@ == users_spec(meshes@, index)[t],
{
    let mut r: Vec<String> = Vec::new();
    let mut i: usize = 0;
    while i < meshes.len()
        invariant
            i <= meshes@.len(),
            r@.len() == users_upto(meshes@, index, i as int).len(),
            forall|t: int| 0 <= t < r@.len() ==> #[trigger] r@[t]@ == users_upto(meshes@, index, i as int)[t],
        decreases meshes@.len() - i,
    {
        if meshes[i].material_id == Some(index) {
            r.push(display_name(&meshes[i]));
        }
        i = i + 1;
    }
    r
}

/// Labels joined with a comma and a space.
pub open spec fn joined(parts: Seq<Seq<char>>) -> Seq<char>
    decreases parts.len(),
{
    if parts.len() == 0 {
        Seq::empty()
    } else if parts.len() == 1 {
        parts[0]
    } else {
        joined(parts.drop_last()) + ", "@ + parts.last()
    }
}

/// The users column: the meshes that reference a material, joined, or `-`
/// when none does.
pub open spec fn users_cell_spec(meshes: Seq<MeshRow>, index: usize) -> Seq<char> {
    let used = users_spec(meshes, index);
    if used.len() == 0 {
        "-"@
    } else {
        joined(used)
    }
}

/// What the users column says for one material.
pub fn users_cell(meshes: &Vec<MeshRow>, index: usize) -> (r: String)
    ensures
        r@ == users_cell_spec(meshes@, index),
{
    let used = users(meshes, index);
    let ghost parts = users_spec(meshes@, index);
    if used.len() == 0 {
        return owned("-");
    }
    let mut out = used[0].clone();
    let mut i: usize = 1;
    assert(parts.take(1).drop_last() =~= parts.take(0));
    assert(joined(parts.take(1)) == parts[0]);
    while i < used.len()
        invariant
            1 <= i <= used@.len(),
            used@.len() == parts.len(),
            forall|t: int| 0 <= t < used@.len() ==> #[trigger] used@[t]@ == parts[t],
            out@ == joined(parts.take(i as int)),
        decreases used@.len() - i,
    {
        push_str(&mut out, ", ");
        push_str(&mut out, used[i].as_str());
        assert(parts.take(i + 1).drop_last() =~= parts.take(i as int));
        assert(parts.take(i + 1).last() == parts[i as int]);
        i = i + 1;
    }
    assert(parts.take(i as int) =~= parts);
    out
}

/// The key a column sorts the materials by.
pub open spec fn column_key(materials: Seq<MaterialRow>, meshes: Seq<MeshRow>, column: usize) -> KeyView {
    let n = materials.len();
    match column {
        1 => KeyView::Smallest(Seq::new(n, |j: int| materials[j].luminance)),
        2 => KeyView::Smallest(Seq::new(n, |j: int| materials[j].textures@.len() as u64)),
        3 => KeyView::Smallest(
            Seq::new(n, |j: int| users_spec(meshes, materials[j].index).len() as u64),
        ),
        _ => KeyView::Text(Seq::new(n, |j: int| materials[j].name@)),
    }
}

/// Rows in the order of the column a header names: `base colour` by
/// luminance, `tex` by how many texture slots a material has, `used by` by
/// how many meshes use it, and `name` by name.
pub open spec fn column_in_order(
    materials: Seq<MaterialRow>,
    meshes: Seq<MeshRow>,
    rows: Seq<usize>,
    column: usize,
    descending: bool,
) -> bool {
    let n = rows.len();
    match column {
        1 => counts_in_order(Seq::new(n, |t: int| materials[rows[t] as int].luminance as int), descending),
        2 => counts_in_order(Seq::new(n, |t: int| materials[rows[t] as int].textures@.len() as int), descending),
        3 => counts_in_order(
            Seq::new(n, |t: int| users_spec(meshes, materials[rows[t] as int].index).len() as int),
            descending,
        ),
        _ => texts_in_order(Seq::new(n, |t: int| materials[rows[t] as int].name@), descending),
    }
}

proof fn lemma_users_bounded(meshes: Seq<MeshRow>, index: usize, upto: int)
    ensures
        users_upto(meshes, index, upto).len() <= if upto < 0 {
            0
        } else {
            upto
        },
    decreases upto,
{
    if upto > 0 {
        lemma_users_bounded(meshes, index, upto - 1);
    }
}

/// The table's own state: its sort and the selected row.
#[derive(Debug, Clone, Copy, PartialEq, Eq)]
pub struct Materials {
    pub sort: Sort,
    pub selected: Option<usize>,
}

impl Materials {
    pub fn new() -> (r: Materials)
        ensures
            r.sort == (Sort { column: 0, descending: false }),
            r.selected is None,
    {
        Materials { sort: Sort { column: 0, descending: false }, selected: None }
    }

    /// The rows the table shows, as positions in the report: sorted stably
    /// by the sort column, reversed when the sort is descending.
    pub fn rows(&self, materials: &Vec<MaterialRow>, meshes: &Vec<MeshRow>) -> (r: Vec<usize>)
        ensures
            r@ == shown_spec(column_key(materials@, meshes@, self.sort.column), self.sort.descending),
            r@.len() == materials@.len(),
            column_in_order(materials@, meshes@, r@, self.sort.column, self.sort.descending),
    {
        let n = materials.len();
        let m = meshes.len();
        let key = if self.sort.column == 0 || self.sort.column > 3 {
            let mut texts: Vec<Vec<char>> = Vec::new();
            let mut j: usize = 0;
            while j < n
                invariant
                    n == materials@.len(),
                    j <= n,
                    texts@.len() == j,
                    forall|t: int| 0 <= t < j ==> #[trigger] texts@[t]@ == materials@[t].name@,
                decreases n - j,
            {
                texts.push(chars_of(materials[j].name.as_str()));
                j = j + 1;
            }
            proof {
                assert(Seq::new(texts@.len(), |t: int| texts@[t]@) =~= Seq::new(
                    n as nat,
                    |j: int| materials@[j].name@,
                ));
            }
            SortKey::Text(texts)
        } else {
            let mut counts: Vec<u64> = Vec::new();
            let mut j: usize = 0;
            while j < n
                invariant
                    n == materials@.len(),
                    j <= n,
                    counts@.len() == j,
                    1 <= self.sort.column <= 3,
                    self.sort.column == 2 ==> forall|t: int|
                        0 <= t < j ==> #[trigger] materials@[t].textures@.len() <= usize::MAX,
                    forall|t: int|
                        0 <= t < j ==> #[trigger] counts@[t] == (match self.sort.column {
                            1 => materials@[t].luminance,
                            2 => materials@[t].textures@.len() as u64,
                            _ => users_spec(meshes@, materials@[t].index).len() as u64,
                        }),
                decreases n - j,
            {
                let value = if self.sort.column == 1 {
                    materials[j].luminance
                } else if self.sort.column == 2 {
                    let slots = materials[j].textures.len();
                    slots as u64
                } else {
                    users(meshes, materials[j].index).len() as u64
                };
                counts.push(value);
                j = j + 1;
            }
            proof {
                assert(counts@ =~= match column_key(materials@, meshes@, self.sort.column) {
                    KeyView::Smallest(k) => k,
                    _ => Seq::empty(),
                });
            }
            SortKey::Smallest(counts)
        };
        assert(key@ == column_key(materials@, meshes@, self.sort.column));
        let r = shown(&key, self.sort.descending);
        proof {
            let k = column_key(materials@, meshes@, self.sort.column);
            let c = self.sort.column;
            let rs = r@;
            match k {
                KeyView::Smallest(v) => {
                    assert forall|t: int| 0 <= t < rs.len() implies #[trigger] v[rs[t] as int] as int
                        == (match c {
                        1 => materials@[rs[t] as int].luminance as int,
                        2 => materials@[rs[t] as int].textures@.len() as int,
                        _ => users_spec(meshes@, materials@[rs[t] as int].index).len() as int,
                    }) by {
                        assert(rs[t] < materials@.len());
                        lemma_users_bounded(meshes@, materials@[rs[t] as int].index, m as int);
                    }
                    assert(Seq::new(rs.len(), |t: int| v[rs[t] as int] as int) =~= match c {
                        1 => Seq::new(rs.len(), |t: int| materials@[rs[t] as int].luminance as int),
                        2 => Seq::new(rs.len(), |t: int| materials@[rs[t] as int].textures@.len() as int),
                        _ => Seq::new(
                            rs.len(),
                            |t: int| users_spec(meshes@, materials@[rs[t] as int].index).len() as int,
                        ),
                    });
                },
                KeyView::Text(v) => {
                    assert(Seq::new(rs.len(), |t: int| v[rs[t] as int]) =~= Seq::new(
                        rs.len(),
                        |t: int| materials@[rs[t] as int].name@,
                    ));
                },
                _ => {},
            }
        }
        r
    }

    /// What a key does to the table: the sort, and a selection that stops
    /// at either end rather than wrapping.
    pub fn handle(&mut self, key: KeyEvent, count: usize)
        requires
            count <= i32::MAX,
            old(self).selected matches Some(s) ==> s <= i32::MAX,
            old(self).sort.column < COLUMN_COUNT,
        ensures
            match key.code {
                KeyCode::Char('s') | KeyCode::Char('S') => final(self).sort == old(self).sort.cycle_spec(COLUMN_COUNT) && final(self).selected == old(self).selected,
                KeyCode::Down | KeyCode::Char('j') => final(self).selected == step_spec(
                    old(self).selected,
                    1i32,
                    count,
                ) && final(self).sort == old(self).sort,
                KeyCode::Up | KeyCode::Char('k') => final(self).selected == step_spec(
                    old(self).selected,
                    -1i32,
                    count,
                ) && final(self).sort == old(self).sort,
                KeyCode::Char('g') => final(self).selected == (if count == 0 {
                    None
                } else {
                    Some(0usize)
                }) && final(self).sort == old(self).sort,
                KeyCode::Char('G') => final(self).selected == (if count == 0 {
                    None
                } else {
                    Some((count - 1) as usize)
                }) && final(self).sort == old(self).sort,
                _ => *final(self) == *old(self),
            },
            final(self).sort.column < COLUMN_COUNT,
    {
        match key.code {
            KeyCode::Char('s') | KeyCode::Char('S') => {
                self.sort = self.sort.cycle(COLUMN_COUNT);
            },
            KeyCode::Down | KeyCode::Char('j') => {
                self.selected = step(self.selected, 1, count);
            },
            KeyCode::Up | KeyCode::Char('k') => {
                self.selected = step(self.selected, -1, count);
            },
            KeyCode::Char('g') => {
                self.selected = if count == 0 {
                    None
                } else {
                    Some(0)
                };
            },
            KeyCode::Char('G') => {
                self.selected = if count == 0 {
                    None
                } else {
                    Some(count - 1)
                };
            },
            _ => {},
        }
    }

    /// Select a row a jump named.
    pub fn select_row(&mut self, row: usize) -> (r: bool)
        ensures
            r,
            final(self).selected == Some(row),
            final(self).sort == old(self).sort,
    {
        self.selected = Some(row);
        true
    }
}

pub open spec fn status_spec(material_count: usize, entries: Seq<TextureRow>) -> Seq<char> {
    decimal(material_count as nat) + " materials \u{b7} "@ + decimal(entries.len())
        + " texture slots \u{b7} "@ + decimal(missing_upto(entries, entries.len() as int))
        + " missing"@
}

/// The count in the table's bottom border: the report's material count, the
/// texture slots they reference, and how many of those are missing.
pub fn status(material_count: usize, materials: &Vec<MaterialRow>) -> (r: String)
    ensures
        r@ == status_spec(material_count, entries_spec(materials@)),
{
    let all = entries(materials);
    let gone = missing(&all);
    let mut out = String::new();
    push_decimal(&mut out, material_count as u64);
    push_str(&mut out, " materials \u{b7} ");
    push_decimal(&mut out, all.len() as u64);
    push_str(&mut out, " texture slots \u{b7} ");
    push_decimal(&mut out, gone as u64);
    push_str(&mut out, " missing");
    out
}

} // verus!
