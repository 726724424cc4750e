//! The mesh table: a table with a selected row, a sort and a filter.
//!
//! Mesh names are the fact this table recovers: a table that names its rows
//! is the difference between a report a reader can act on and one they have
//! to cross-reference against the file.

use vstd::prelude::*;
use crate::keymap::{KeyCode, KeyEvent};
use crate::order::{
    arranges, counts_in_order, law_shown_rows_follow_their_key, reversed, sorted, sorted_spec,
    texts_in_order, KeyView, SortKey,
};
use crate::panels::validation::{step, step_spec};
use crate::panels::Sort;
use crate::text::{
    chars_of, contains_chars, contains_seq, decimal, lowercased, owned, push_decimal, to_lowercase,
};

verus! {

/// How many columns the table has, which is how far the sort key cycles.
pub const COLUMN_COUNT: usize = 6;

/// The table's column headers, in sort-cycle order.
pub fn columns() -> (r: Vec<&'static str>)
    ensures
        r@.len() == COLUMN_COUNT,
        r@[0]@ == "name"@,
        r@[1]@ == "tris"@,
        r@[2]@ == "verts"@,
        r@[3]@ == "nrm"@,
        r@[4]@ == "uv"@,
        r@[5]@ == "material"@,
{
    vec!["name", "tris", "verts", "nrm", "uv", "material"]
}

/// What the table reads of one mesh in the report.
#[derive(Debug, Clone, PartialEq, Eq)]
pub struct MeshRow {
    /// The mesh's position in the file.
    pub index: usize,
    /// The name the file gives it, which may be empty.
    pub name: String,
    pub vertex_count: usize,
    pub triangle_count: usize,
    pub normal_count: usize,
    pub texcoord_count: usize,
    pub material_name: Option<String>,
    /// The position of the mesh's material in the report, if it has one.
    pub material_id: Option<usize>,
}

/// The label a mesh's row shows: its name, or its position when the file
/// gave it none.
pub open spec fn display_name_spec(mesh: MeshRow) -> Seq<char> {
    if mesh.name@.len() == 0 {
        "mesh "@ + decimal(mesh.index as nat)
    } else {
        mesh.name@
    }
}

/// The material column's text, empty for a mesh without one.
pub open spec fn material_spec(mesh: MeshRow) -> Seq<char> {
    match mesh.material_name {
        Some(m) => m@,
        None => Seq::empty(),
    }
}

/// A mesh with no name in the file still needs a row label.
pub fn display_name(mesh: &MeshRow) -> (r: String)
    ensures
        r@ == display_name_spec(*mesh),
{
    if mesh.name.as_str().is_empty() {
        let mut label = owned("mesh ");
        push_decimal(&mut label, mesh.index as u64);
        label
    } else {
        mesh.name.clone()
    }
}

/// The material column: the material's name, or `-` for a mesh with none.
pub open spec fn material_text_spec(mesh: MeshRow) -> Seq<char> {
    match mesh.material_name {
        Some(n) => n@,
        None => "-"@,
    }
}

/// What the material column says for a mesh.
pub fn material_text(mesh: &MeshRow) -> (r: String)
    ensures
        r@ == material_text_spec(*mesh),
{
    match &mesh.material_name {
        Some(n) => n.clone(),
        None => owned("-"),
    }
}

/// What an empty table says: that the model has no meshes, or that the
/// filter matches none of the `total` it has.
pub fn empty_message(total: usize) -> (r: &'static str)
    ensures
        r@ == (if total == 0 {
            "no meshes in this model"@
        } else {
            "no mesh matches the filter"@
        }),
{
    if total == 0 {
        "no meshes in this model"
    } else {
        "no mesh matches the filter"
    }
}

/// The meshes, by position, whose lower-cased label holds the lower-cased
/// query, in report order, among the first `upto`.
pub open spec fn matching(names: Seq<Seq<char>>, needle: Seq<char>, upto: int) -> Seq<usize>
    decreases upto,
{
    if upto <= 0 {
        Seq::empty()
    } else if contains_seq(names[upto - 1], needle) {
        matching(names, needle, upto - 1).push((upto - 1) as usize)
    } else {
        matching(names, needle, upto - 1)
    }
}

/// The key a column sorts the shown rows by.
pub open spec fn column_key(meshes: Seq<MeshRow>, shown: Seq<usize>, column: usize) -> KeyView {
    let n = shown.len();
    match column {
        1 => KeyView::Smallest(Seq::new(n, |j: int| meshes[shown[j] as int].triangle_count as u64)),
        2 => KeyView::Smallest(Seq::new(n, |j: int| meshes[shown[j] as int].vertex_count as u64)),
        3 => KeyView::Smallest(Seq::new(n, |j: int| meshes[shown[j] as int].normal_count as u64)),
        4 => KeyView::Smallest(Seq::new(n, |j: int| meshes[shown[j] as int].texcoord_count as u64)),
        5 => KeyView::Text(Seq::new(n, |j: int| material_spec(meshes[shown[j] as int]))),
        _ => KeyView::Text(Seq::new(n, |j: int| display_name_spec(meshes[shown[j] as int]))),
    }
}

/// Positions in a sorted order mapped back to the rows they stand for.
pub open spec fn placed(order: Seq<usize>, shown: Seq<usize>) -> Seq<usize> {
    Seq::new(order.len(), |t: int| shown[order[t] as int])
}

/// The rows the table shows, in order: the meshes whose lower-cased label
/// holds the lower-cased query, sorted stably by the sort column, reversed
/// when the sort is descending.
pub open spec fn rows_spec(
    meshes: Seq<MeshRow>,
    names: Seq<Seq<char>>,
    needle: Seq<char>,
    sort: Sort,
) -> Seq<usize> {
    let shown = matching(names, needle, meshes.len() as int);
    let order = placed(sorted_spec(column_key(meshes, shown, sort.column)), shown);
    if sort.descending {
        order.reverse()
    } else {
        order
    }
}

/// Rows in the order of the column a header names: `tris` by triangle count,
/// `verts` by vertex count, `nrm` by normal count, `uv` by texture
/// coordinate count, `material` by material name and `name` by label.
pub open spec fn column_in_order(meshes: Seq<MeshRow>, rows: Seq<usize>, column: usize, descending: bool) -> bool {
    let n = rows.len();
    match column {
        1 => counts_in_order(Seq::new(n, |t: int| meshes[rows[t] as int].triangle_count as int), descending),
        2 => counts_in_order(Seq::new(n, |t: int| meshes[rows[t] as int].vertex_count as int), descending),
        3 => counts_in_order(Seq::new(n, |t: int| meshes[rows[t] as int].normal_count as int), descending),
        4 => counts_in_order(Seq::new(n, |t: int| meshes[rows[t] as int].texcoord_count as int), descending),
        5 => texts_in_order(Seq::new(n, |t: int| material_spec(meshes[rows[t] as int])), descending),
        _ => texts_in_order(Seq::new(n, |t: int| display_name_spec(meshes[rows[t] as int])), descending),
    }
}

proof fn lemma_rows_in_column_order(meshes: Seq<MeshRow>, shown: Seq<usize>, column: usize, order: Seq<usize>, descending: bool)
    requires
        arranges(order, column_key(meshes, shown, column)),
    ensures
        column_in_order(
            meshes,
            if descending {
                placed(order, shown).reverse()
            } else {
                placed(order, shown)
            },
            column,
            descending,
        ),
{
    let keys = column_key(meshes, shown, column);
    law_shown_rows_follow_their_key(keys, order, descending);
    let o = if descending {
        order.reverse()
    } else {
        order
    };
    let rows = if descending {
        placed(order, shown).reverse()
    } else {
        placed(order, shown)
    };
    assert(rows =~= Seq::new(o.len(), |t: int| shown[o[t] as int]));
    let n = rows.len();
    match keys {
        KeyView::Smallest(k) => {
            assert(Seq::new(n, |t: int| k[o[t] as int] as int) =~= match column {
                1 => Seq::new(n, |t: int| meshes[rows[t] as int].triangle_count as int),
                2 => Seq::new(n, |t: int| meshes[rows[t] as int].vertex_count as int),
                3 => Seq::new(n, |t: int| meshes[rows[t] as int].normal_count as int),
                _ => Seq::new(n, |t: int| meshes[rows[t] as int].texcoord_count as int),
            });
        },
        KeyView::Text(k) => {
            assert(Seq::new(n, |t: int| k[o[t] as int]) =~= if column == 5 {
                Seq::new(n, |t: int| material_spec(meshes[rows[t] as int]))
            } else {
                Seq::new(n, |t: int| display_name_spec(meshes[rows[t] as int]))
            });
        },
        _ => {},
    }
}

proof fn lemma_matching(names: Seq<Seq<char>>, needle: Seq<char>, upto: int)
    requires
        upto <= usize::MAX,
    ensures
        forall|t: int|
            0 <= t < matching(names, needle, upto).len() ==> #[trigger] matching(names, needle, upto)[t]
                < upto && contains_seq(names[matching(names, needle, upto)[t] as int], needle),
        forall|i: int|
            0 <= i < upto && contains_seq(#[trigger] names[i], needle) ==> matching(
                names,
                needle,
                upto,
            ).contains(i as usize),
    decreases upto,
{
    if upto > 0 {
        lemma_matching(names, needle, upto - 1);
        let m = matching(names, needle, upto - 1);
        if contains_seq(names[upto - 1], needle) {
            let full = m.push((upto - 1) as usize);
            assert forall|i: int| 0 <= i < upto && contains_seq(#[trigger] names[i], needle) implies full.contains(
                i as usize,
            ) by {
                if i < upto - 1 {
                    let t = choose|t: int| 0 <= t < m.len() && m[t] == i as usize;
                    assert(full[t] == i as usize);
                } else {
                    assert(full[m.len() as int] == i as usize);
                }
            }
        }
    }
}

/// Every mesh's label in lower case, which is what a filter is matched on.
pub open spec fn lowered_names(meshes: Seq<MeshRow>) -> Seq<Seq<char>> {
    Seq::new(meshes.len(), |i: int| lowercased(display_name_spec(meshes[i])))
}

/// The table's own state: its sort, its filter, and the selected row.
#[derive(Debug, Clone, PartialEq, Eq)]
pub struct Meshes {
    pub sort: Sort,
    pub filter: Option<String>,
    pub selected: Option<usize>,
}

impl Meshes {
    pub fn new() -> (r: Meshes)
        ensures
            r.sort == (Sort { column: 0, descending: false }),
            r.filter is None,
            r.selected is None,
    {
        Meshes { sort: Sort { column: 0, descending: false }, filter: None, selected: None }
    }

    /// The query in lower case, the empty query when there is none.
    pub open spec fn needle(&self) -> Seq<char> {
        lowercased(
            match self.filter {
                Some(q) => q@,
                None => Seq::empty(),
            },
        )
    }

    /// The words the table's border offers.
    pub fn menu(&self) -> (r: Vec<&'static str>)
        ensures
            r@.len() == 2,
            r@[0]@ == "sort"@,
            r@[1]@ == "filter"@,
    {
        vec!["sort", "filter"]
    }

    /// The rows shown, given every mesh's label and the query already in
    /// lower case.
    pub fn rows_given(&self, meshes: &Vec<MeshRow>, names: &Vec<Vec<char>>, needle: &Vec<char>) -> (r:
        Vec<usize>)
        requires
            names@.len() == meshes@.len(),
        ensures
            r@ == rows_spec(meshes@, Seq::new(names@.len(), |i: int| names@[i]@), needle@, self.sort),
            r@.len() <= meshes@.len(),
            column_in_order(meshes@, r@, self.sort.column, self.sort.descending),
            forall|t: int|
                0 <= t < r@.len() ==> #[trigger] r@[t] < meshes@.len() && contains_seq(
                    names@[r@[t] as int]@,
                    needle@,
                ),
            forall|i: int|
                0 <= i < meshes@.len() && contains_seq(#[trigger] names@[i]@, needle@) ==> r@.contains(
                    i as usize,
                ),
    {
        let ghost lowered = Seq::new(names@.len(), |i: int| names@[i]@);
        let mut shown: Vec<usize> = Vec::new();
        let mut i: usize = 0;
        while i < meshes.len()
            invariant
                names@.len() == meshes@.len(),
                lowered == Seq::new(names@.len(), |i: int| names@[i]@),
                i <= meshes@.len(),
                shown@ == matching(lowered, needle@, i as int),
                shown@.len() <= i,
                forall|t: int| 0 <= t < shown@.len() ==> shown@[t] < i,
            decreases meshes@.len() - i,
        {
            if contains_chars(&names[i], needle) {
                shown.push(i);
            }
            i = i + 1;
        }
        let n = shown.len();
        let key = match self.sort.column {
            1 | 2 | 3 | 4 => {
                let mut counts: Vec<u64> = Vec::new();
                let mut j: usize = 0;
                while j < n
                    invariant
                        n == shown@.len(),
                        forall|t: int| 0 <= t < shown@.len() ==> shown@[t] < meshes@.len(),
                        j <= n,
                        counts@.len() == j,
                        1 <= self.sort.column <= 4,
                        forall|t: int|
                            0 <= t < j ==> #[trigger] counts@[t] == (match self.sort.column {
                                1 => meshes@[shown@[t] as int].triangle_count as u64,
                                2 => meshes@[shown@[t] as int].vertex_count as u64,
                                3 => meshes@[shown@[t] as int].normal_count as u64,
                                _ => meshes@[shown@[t] as int].texcoord_count as u64,
                            }),
                    decreases n - j,
                {
                    let mesh = &meshes[shown[j]];
                    let count = match self.sort.column {
                        1 => mesh.triangle_count,
                        2 => mesh.vertex_count,
                        3 => mesh.normal_count,
                        _ => mesh.texcoord_count,
                    };
                    counts.push(count as u64);
                    j = j + 1;
                }
                proof {
                    assert(counts@ =~= match column_key(meshes@, shown@, self.sort.column) {
                        KeyView::Smallest(k) => k,
                        _ => Seq::empty(),
                    });
                }
                SortKey::Smallest(counts)
            },
            _ => {
                let mut texts: Vec<Vec<char>> = Vec::new();
                let mut j: usize = 0;
                while j < n
                    invariant
                        n == shown@.len(),
                        forall|t: int| 0 <= t < shown@.len() ==> shown@[t] < meshes@.len(),
                        j <= n,
                        texts@.len() == j,
                        !(1 <= self.sort.column <= 4),
                        forall|t: int|
                            0 <= t < j ==> #[trigger] texts@[t]@ == (if self.sort.column == 5 {
                                material_spec(meshes@[shown@[t] as int])
                            } else {
                                display_name_spec(meshes@[shown@[t] as int])
                            }),
                    decreases n - j,
                {
                    let mesh = &meshes[shown[j]];
                    let text = if self.sort.column == 5 {
                        match &mesh.material_name {
                            Some(m) => chars_of(m.as_str()),
                            None => Vec::new(),
                        }
                    } else {
                        chars_of(display_name(mesh).as_str())
                    };
                    texts.push(text);
                    j = j + 1;
                }
                proof {
                    assert(Seq::new(texts@.len(), |t: int| texts@[t]@) =~= match column_key(
                        meshes@,
                        shown@,
                        self.sort.column,
                    ) {
                        KeyView::Text(k) => k,
                        _ => Seq::empty(),
                    });
                }
                SortKey::Text(texts)
            },
        };
        assert(key@ == column_key(meshes@, shown@, self.sort.column));
        let order = sorted(&key);
        let mut rows: Vec<usize> = Vec::new();
        let mut t: usize = 0;
        while t < order.len()
            invariant
                order@ == sorted_spec(key@),
                order@.len() == key@.count(),
                key@.count() == shown@.len(),
                forall|q: int| 0 <= q < order@.len() ==> order@[q] < key@.count(),
                t <= order@.len(),
                rows@ =~= placed(order@, shown@).take(t as int),
            decreases order@.len() - t,
        {
            rows.push(shown[order[t]]);
            t = t + 1;
        }
        assert(rows@ =~= placed(order@, shown@));
        proof {
            lemma_rows_in_column_order(meshes@, shown@, self.sort.column, order@, self.sort.descending);
            lemma_matching(lowered, needle@, meshes@.len() as int);
            assert forall|t: int| 0 <= t < rows@.len() implies #[trigger] rows@[t] < meshes@.len()
                && contains_seq(names@[rows@[t] as int]@, needle@) by {
                assert(rows@[t] == shown@[order@[t] as int]);
                assert(lowered[shown@[order@[t] as int] as int] == names@[shown@[order@[t] as int] as int]@);
            }
            assert forall|i: int| 0 <= i < meshes@.len() && contains_seq(#[trigger] names@[i]@, needle@)
                implies rows@.contains(i as usize) by {
                assert(lowered[i] == names@[i]@);
                assert(shown@.contains(i as usize));
                let j = choose|j: int| 0 <= j < shown@.len() && shown@[j] == i as usize;
                assert(order@.contains(j as usize));
                let t = choose|t: int| 0 <= t < order@.len() && order@[t] == j as usize;
                assert(rows@[t] == i as usize);
            }
        }
        if self.sort.descending {
            let r = reversed(&rows);
            proof {
                assert forall|t: int| 0 <= t < r@.len() implies #[trigger] r@[t] < meshes@.len()
                    && contains_seq(names@[r@[t] as int]@, needle@) by {
                    assert(r@[t] == rows@[rows@.len() - 1 - t]);
                }
                assert forall|i: int| 0 <= i < meshes@.len() && contains_seq(#[trigger] names@[i]@, needle@)
                    implies r@.contains(i as usize) by {
                    assert(rows@.contains(i as usize));
                    let t = choose|t: int| 0 <= t < rows@.len() && rows@[t] == i as usize;
                    assert(r@[rows@.len() - 1 - t] == i as usize);
                }
            }
            r
        } else {
            rows
        }
    }

    /// The rows this table shows, in order, as positions in the report.
    pub fn rows(&self, meshes: &Vec<MeshRow>) -> (r: Vec<usize>)
        ensures
            r@ == rows_spec(meshes@, lowered_names(meshes@), self.needle(), self.sort),
            r@.len() <= meshes@.len(),
            column_in_order(meshes@, r@, self.sort.column, self.sort.descending),
            forall|t: int|
                0 <= t < r@.len() ==> #[trigger] r@[t] < meshes@.len() && contains_seq(
                    lowered_names(meshes@)[r@[t] as int],
                    self.needle(),
                ),
            forall|i: int|
                0 <= i < meshes@.len() && contains_seq(#[trigger] lowered_names(meshes@)[i], self.needle())
                    ==> r@.contains(i as usize),
    {
        let raw: &str = match &self.filter {
            Some(q) => q.as_str(),
            None => "",
        };
        proof {
            reveal_strlit("");
            assert(""@ =~= Seq::<char>::empty());
            assert(raw@ == match self.filter {
                Some(q) => q@,
                None => Seq::empty(),
            });
        }
        let query = to_lowercase(raw);
        let mut names: Vec<Vec<char>> = Vec::new();
        let mut i: usize = 0;
        while i < meshes.len()
            invariant
                i <= meshes@.len(),
                names@.len() == i,
                forall|k: int| 0 <= k < i ==> #[trigger] names@[k]@ == lowercased(
                    display_name_spec(meshes@[k]),
                ),
            decreases meshes@.len() - i,
        {
            let label = display_name(&meshes[i]);
            names.push(chars_of(to_lowercase(label.as_str()).as_str()));
            i = i + 1;
        }
        proof {
            assert(Seq::new(names@.len(), |i: int| names@[i]@) =~= lowered_names(meshes@));
        }
        let needle = chars_of(query.as_str());
        let r = self.rows_given(meshes, &names, &needle);
        proof {
            assert forall|i: int| 0 <= i < meshes@.len() implies #[trigger] lowered_names(meshes@)[i]
                == names@[i]@ by {}
        }
        r
    }

    /// What a key does to the table: the sort, and a selection that stops
    /// at either end rather than wrapping.
    pub fn handle(&mut self, key: KeyEvent, meshes: &Vec<MeshRow>)
        requires
            meshes@.len() <= i32::MAX,
            old(self).selected matches Some(s) ==> s <= i32::MAX,
            old(self).sort.column < COLUMN_COUNT,
        ensures
            ({
                let count = rows_spec(meshes@, lowered_names(meshes@), old(self).needle(), old(self).sort).len();
                let selected = old(self).selected;
                final(self).filter == old(self).filter
                && match key.code {
                    KeyCode::Char('s') | KeyCode::Char('S') => final(self).sort == old(self).sort.cycle_spec(COLUMN_COUNT) && final(self).selected == selected,
                    KeyCode::Down | KeyCode::Char('j') => final(self).selected == step_spec(
                        selected,
                        1i32,
                        count as usize,
                    ) && final(self).sort == old(self).sort,
                    KeyCode::Up | KeyCode::Char('k') => final(self).selected == step_spec(
                        selected,
                        -1i32,
                        count as usize,
                    ) && final(self).sort == old(self).sort,
                    KeyCode::Char('g') => final(self).selected == (if count == 0 {
                        None
                    } else {
                        Some(0usize)
                    }) && final(self).sort == old(self).sort,
                    KeyCode::Char('G') => final(self).selected == (if count == 0 {
                        None
                    } else {
                        Some((count - 1) as usize)
                    }) && final(self).sort == old(self).sort,
                    _ => final(self).selected == selected && final(self).sort == old(self).sort,
                }
            }),
            final(self).sort.column < COLUMN_COUNT,
    {
        let count = self.rows(meshes).len();
        match key.code {
            KeyCode::Char('s') | KeyCode::Char('S') => {
                self.sort = self.sort.cycle(COLUMN_COUNT);
            },
            KeyCode::Down | KeyCode::Char('j') => {
                self.selected = step(self.selected, 1, count);
            },
            KeyCode::Up | KeyCode::Char('k') => {
                self.selected = step(self.selected, -1, count);
            },
            KeyCode::Char('g') => {
                self.selected = if count == 0 {
                    None
                } else {
                    Some(0)
                };
            },
            KeyCode::Char('G') => {
                self.selected = if count == 0 {
                    None
                } else {
                    Some(count - 1)
                };
            },
            _ => {},
        }
    }

    /// Keep a selection valid across a filter that shrank the table under
    /// it, rather than leaving it pointing past the end.
    pub fn settle(&mut self, shown: usize)
        ensures
            final(self).sort == old(self).sort,
            final(self).filter == old(self).filter,
            final(self).selected == (if shown > 0 && match old(self).selected {
                Some(i) => i >= shown,
                None => true,
            } {
                Some(0usize)
            } else {
                old(self).selected
            }),
    {
        if shown > 0 {
            match self.selected {
                Some(i) => {
                    if i >= shown {
                        self.selected = Some(0);
                    }
                },
                None => {
                    self.selected = Some(0);
                },
            }
        }
    }

    /// Take a query, where an empty one clears the filter.
    pub fn set_filter(&mut self, query: Option<String>)
        ensures
            final(self).sort == old(self).sort,
            final(self).selected == old(self).selected,
            match query {
                Some(q) => if q@.len() == 0 {
                    final(self).filter is None
                } else {
                    final(self).filter == Some(q)
                },
                None => final(self).filter is None,
            },
    {
        self.filter = match query {
            Some(q) => if q.as_str().is_empty() {
                None
            } else {
                Some(q)
            },
            None => None,
        };
    }

    /// How many rows the filter lets through, of how many.
    pub fn filter_counts(&self, meshes: &Vec<MeshRow>) -> (r: (usize, usize))
        ensures
            r.0 == rows_spec(meshes@, lowered_names(meshes@), self.needle(), self.sort).len(),
            r.1 == meshes@.len(),
    {
        (self.rows(meshes).len(), meshes.len())
    }

    /// Select a row a jump named.
    pub fn select_row(&mut self, row: usize) -> (r: bool)
        ensures
            r,
            final(self).selected == Some(row),
            final(self).sort == old(self).sort,
            final(self).filter == old(self).filter,
    {
        self.selected = Some(row);
        true
    }
}

/// The triangle counts of every mesh, largest first. One computation serves
/// the sparkline under the table and the histogram beside it.
pub fn triangle_series(meshes: &Vec<MeshRow>) -> (r: Vec<u64>)
    ensures
        ({
            let counts = Seq::new(meshes@.len(), |i: int| meshes@[i].triangle_count as u64);
            let order = sorted_spec(KeyView::Largest(counts));
            &&& r@.len() == meshes@.len()
            &&& forall|t: int| 0 <= t < r@.len() ==> #[trigger] r@[t] == counts[order[t] as int]
            &&& forall|a: int, b: int| 0 <= a < b < r@.len() ==> r@[a] >= r@[b]
        }),
{
    let ghost counts_spec = Seq::new(meshes@.len(), |i: int| meshes@[i].triangle_count as u64);
    let mut counts: Vec<u64> = Vec::new();
    let mut i: usize = 0;
    while i < meshes.len()
        invariant
            i <= meshes@.len(),
            counts@ =~= counts_spec.take(i as int),
            counts_spec == Seq::new(meshes@.len(), |i: int| meshes@[i].triangle_count as u64),
        decreases meshes@.len() - i,
    {
        counts.push(meshes[i].triangle_count as u64);
        i = i + 1;
    }
    assert(counts@ =~= counts_spec);
    let key = SortKey::Largest(counts);
    let order = sorted(&key);
    let mut r: Vec<u64> = Vec::new();
    let mut t: usize = 0;
    while t < order.len()
        invariant
            key@ == KeyView::Largest(counts_spec),
            crate::order::arranges(order@, key@),
            order@ == sorted_spec(key@),
            t <= order@.len(),
            r@.len() == t,
            forall|q: int| 0 <= q < t ==> #[trigger] r@[q] == counts_spec[order@[q] as int],
        decreases order@.len() - t,
    {
        let k = order[t];
        let value = match &key {
            SortKey::Largest(c) => c[k],
            _ => 0,
        };
        r.push(value);
        t = t + 1;
    }
    proof {
        assert forall|a: int, b: int| 0 <= a < b < r@.len() implies r@[a] >= r@[b] by {
            assert(key@.before(order@[a] as int, order@[b] as int));
        }
    }
    r
}

} // verus!
