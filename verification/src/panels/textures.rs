//! Every texture slot every material references, in one place.
//!
//! Missing textures are already raised as errors, one per slot, scattered
//! through a validation list. This is where someone goes to see all of them
//! at once.

use vstd::prelude::*;
use crate::keymap::{KeyCode, KeyEvent};
use crate::order::{counts_in_order, shown, shown_spec, texts_in_order, KeyView, SortKey};
use crate::panels::materials::MaterialRow;
use crate::panels::validation::{step, step_spec};
use crate::panels::Sort;
use crate::text::{chars_of, decimal, owned, push_char, push_decimal, push_str, string_of};

verus! {

pub open spec fn is_separator(c: char) -> bool {
    c == '/' || c == '\\'
}

/// The index just past the last separator before `to`, or zero.
pub open spec fn name_start(s: Seq<char>, to: int) -> int
    decreases to,
{
    if to <= 0 {
        0
    } else if is_separator(s[to - 1]) {
        to
    } else {
        name_start(s, to - 1)
    }
}

/// The file's own name: whatever follows the last `/` or `\`.
pub fn file_name(path: &str) -> (r: String)
    ensures
        r@ == path@.skip(name_start(path@, path@.len() as int)),
{
    let chars = chars_of(path);
    let mut start: usize = chars.len();
    while start > 0 && !(chars[start - 1] == '/' || chars[start - 1] == '\\')
        invariant
            0 <= start <= chars.len(),
            chars@ == path@,
            name_start(path@, path@.len() as int) == name_start(path@, start as int),
        decreases start,
    {
        start = start - 1;
    }
    let mut name: Vec<char> = Vec::new();
    let mut i: usize = start;
    while i < chars.len()
        invariant
            start <= i <= chars.len(),
            chars@ == path@,
            name@ == path@.subrange(start as int, i as int),
        decreases chars.len() - i,
    {
        name.push(chars[i]);
        i = i + 1;
        assert(name@ =~= path@.subrange(start as int, i as int));
    }
    assert(path@.skip(start as int) =~= path@.subrange(start as int, path@.len() as int));
    string_of(&name)
}

pub open spec fn resolution_spec(dimensions: Option<(u32, u32)>) -> Seq<char> {
    match dimensions {
        Some((w, h)) => if w == h {
            decimal(w as nat) + seq!['\u{b2}']
        } else {
            decimal(w as nat) + seq!['x'] + decimal(h as nat)
        },
        None => "-"@,
    }
}

/// The resolution as a reader would say it: square textures get the
/// shorter form, and one that could not be measured shows a dash.
pub fn resolution(dimensions: Option<(u32, u32)>) -> (r: String)
    ensures
        r@ == resolution_spec(dimensions),
{
    let mut out = String::new();
    match dimensions {
        Some((w, h)) => {
            push_decimal(&mut out, w as u64);
            if w == h {
                push_char(&mut out, '\u{b2}');
            } else {
                push_char(&mut out, 'x');
                push_decimal(&mut out, h as u64);
            }
        },
        None => {
            push_str(&mut out, "-");
        },
    }
    assert(out@ =~= resolution_spec(dimensions));
    out
}

/// How many columns the table has, which is how far the sort key cycles.
pub const COLUMN_COUNT: usize = 4;

/// The table's column headers, in sort-cycle order.
pub fn columns() -> (r: Vec<&'static str>)
    ensures
        r@.len() == COLUMN_COUNT,
        r@[0]@ == "slot"@,
        r@[1]@ == "file"@,
        r@[2]@ == "res"@,
        r@[3]@ == "ok"@,
{
    vec!["slot", "file", "res", "ok"]
}

/// One texture slot a material references.
#[derive(Debug, Clone, PartialEq, Eq)]
pub struct TextureRow {
    /// The slot's name, such as the diffuse map.
    pub slot: String,
    pub path: String,
    /// Whether the file is there.
    pub exists: bool,
    /// Width and height from the file's header, when it could be read.
    pub dimensions: Option<(u32, u32)>,
}

fn copy_row(t: &TextureRow) -> (r: TextureRow)
    ensures
        r == *t,
{
    TextureRow {
        slot: t.slot.clone(),
        path: t.path.clone(),
        exists: t.exists,
        dimensions: t.dimensions,
    }
}

/// The slots of the first `upto` materials, material by material.
pub open spec fn entries_upto(materials: Seq<MaterialRow>, upto: int) -> Seq<TextureRow>
    decreases upto,
{
    if upto <= 0 {
        Seq::empty()
    } else {
        entries_upto(materials, upto - 1) + materials[upto - 1].textures@
    }
}

pub open spec fn entries_spec(materials: Seq<MaterialRow>) -> Seq<TextureRow> {
    entries_upto(materials, materials.len() as int)
}

/// Every slot of every material, in report order.
pub fn entries(materials: &Vec<MaterialRow>) -> (r: Vec<TextureRow>)
    ensures
        r@ == entries_spec(materials@),
{
    let mut r: Vec<TextureRow> = Vec::new();
    let mut i: usize = 0;
    while i < materials.len()
        invariant
            i <= materials@.len(),
            r@ == entries_upto(materials@, i as int),
        decreases materials@.len() - i,
    {
        let textures = &materials[i].textures;
        let ghost start = r@;
        let mut j: usize = 0;
        while j < textures.len()
            invariant
                j <= textures@.len(),
                r@ == start + textures@.take(j as int),
            decreases textures@.len() - j,
        {
            r.push(copy_row(&textures[j]));
            j = j + 1;
            assert(r@ =~= start + textures@.take(j as int));
        }
        assert(textures@.take(textures@.len() as int) =~= textures@);
        i = i + 1;
    }
    r
}

/// A measured texture's area, zero for one that could not be measured.
pub open spec fn area_spec(t: TextureRow) -> u64 {
    match t.dimensions {
        Some((w, h)) => (w * h) as u64,
        None => 0,
    }
}

/// The key a column sorts the slots by.
pub open spec fn column_key(entries: Seq<TextureRow>, column: usize) -> KeyView {
    let n = entries.len();
    match column {
        1 => KeyView::Text(Seq::new(n, |j: int| entries[j].path@)),
        2 => KeyView::Smallest(Seq::new(n, |j: int| area_spec(entries[j]))),
        3 => KeyView::Smallest(
            Seq::new(
                n,
                |j: int|
                    if entries[j].exists {
                        1u64
                    } else {
                        0u64
                    },
            ),
        ),
        _ => KeyView::Text(Seq::new(n, |j: int| entries[j].slot@)),
    }
}

/// Rows in the order of the column a header names: `file` by path, `res` by
/// area in pixels (an unmeasured texture counts as none), `ok` with missing
/// files before present ones, and `slot` by slot name.
pub open spec fn column_in_order(entries: Seq<TextureRow>, rows: Seq<usize>, column: usize, descending: bool) -> bool {
    let n = rows.len();
    match column {
        1 => texts_in_order(Seq::new(n, |t: int| entries[rows[t] as int].path@), descending),
        2 => counts_in_order(
            Seq::new(
                n,
                |t: int|
                    match entries[rows[t] as int].dimensions {
                        Some((w, h)) => w * h,
                        None => 0,
                    },
            ),
            descending,
        ),
        3 => counts_in_order(
            Seq::new(
                n,
                |t: int|
                    if entries[rows[t] as int].exists {
                        1
                    } else {
                        0
                    },
            ),
            descending,
        ),
        _ => texts_in_order(Seq::new(n, |t: int| entries[rows[t] as int].slot@), descending),
    }
}

/// The table's own state: its sort and the selected row.
#[derive(Debug, Clone, Copy, PartialEq, Eq)]
pub struct Textures {
    pub sort: Sort,
    pub selected: Option<usize>,
}

impl Textures {
    pub fn new() -> (r: Textures)
        ensures
            r.sort == (Sort { column: 0, descending: false }),
            r.selected is None,
    {
        Textures { sort: Sort { column: 0, descending: false }, selected: None }
    }

    /// The slots the table shows, as positions in [`entries`]: sorted
    /// stably by the sort column, reversed when the sort is descending.
    pub fn rows(&self, materials: &Vec<MaterialRow>) -> (r: Vec<usize>)
        ensures
            r@ == shown_spec(column_key(entries_spec(materials@), self.sort.column), self.sort.descending),
            r@.len() == entries_spec(materials@).len(),
            column_in_order(entries_spec(materials@), r@, self.sort.column, self.sort.descending),
    {
        let all = entries(materials);
        let n = all.len();
        let key = if self.sort.column == 2 || self.sort.column == 3 {
            let mut counts: Vec<u64> = Vec::new();
            let mut j: usize = 0;
            while j < n
                invariant
                    n == all@.len(),
                    j <= n,
                    counts@.len() == j,
                    self.sort.column == 2 || self.sort.column == 3,
                    forall|t: int|
                        0 <= t < j ==> #[trigger] counts@[t] == (if self.sort.column == 2 {
                            area_spec(all@[t])
                        } else if all@[t].exists {
                            1u64
                        } else {
                            0u64
                        }),
                decreases n - j,
            {
                let value: u64 = if self.sort.column == 2 {
                    match all[j].dimensions {
                        Some((w, h)) => {
                            assert((w as u64) * (h as u64) <= u64::MAX) by (nonlinear_arith)
                                requires
                                    w <= u32::MAX,
                                    h <= u32::MAX,
                            ;
                            w as u64 * h as u64
                        },
                        None => 0,
                    }
                } else if all[j].exists {
                    1
                } else {
                    0
                };
                counts.push(value);
                j = j + 1;
            }
            proof {
                assert(counts@ =~= match column_key(all@, self.sort.column) {
                    KeyView::Smallest(k) => k,
                    _ => Seq::empty(),
                });
            }
            SortKey::Smallest(counts)
        } else {
            let mut texts: Vec<Vec<char>> = Vec::new();
            let mut j: usize = 0;
            while j < n
                invariant
                    n == all@.len(),
                    j <= n,
                    texts@.len() == j,
                    !(self.sort.column == 2 || self.sort.column == 3),
                    forall|t: int|
                        0 <= t < j ==> #[trigger] texts@[t]@ == (if self.sort.column == 1 {
                            all@[t].path@
                        } else {
                            all@[t].slot@
                        }),
                decreases n - j,
            {
                let text = if self.sort.column == 1 {
                    chars_of(all[j].path.as_str())
                } else {
                    chars_of(all[j].slot.as_str())
                };
                texts.push(text);
                j = j + 1;
            }
            proof {
                assert(Seq::new(texts@.len(), |t: int| texts@[t]@) =~= match column_key(
                    all@,
                    self.sort.column,
                ) {
                    KeyView::Text(k) => k,
                    _ => Seq::empty(),
                });
            }
            SortKey::Text(texts)
        };
        assert(key@ == column_key(all@, self.sort.column));
        let r = shown(&key, self.sort.descending);
        proof {
            let k = column_key(all@, self.sort.column);
            let c = self.sort.column;
            let rs = r@;
            let es = all@;
            match k {
                KeyView::Smallest(v) => {
                    assert forall|t: int| 0 <= t < rs.len() implies #[trigger] v[rs[t] as int] as int
                        == (if c == 2 {
                        match es[rs[t] as int].dimensions {
                            Some((w, h)) => w * h,
                            None => 0,
                        }
                    } else if es[rs[t] as int].exists {
                        1int
                    } else {
                        0int
                    }) by {
                        assert(rs[t] < es.len());
                        if let Some((w, h)) = es[rs[t] as int].dimensions {
                            assert(w * h <= u64::MAX) by (nonlinear_arith)
                                requires
                                    w <= u32::MAX,
                                    h <= u32::MAX,
                            ;
                        }
                    }
                    assert(Seq::new(rs.len(), |t: int| v[rs[t] as int] as int) =~= if c == 2 {
                        Seq::new(
                            rs.len(),
                            |t: int|
                                match es[rs[t] as int].dimensions {
                                    Some((w, h)) => w * h,
                                    None => 0,
                                },
                        )
                    } else {
                        Seq::new(
                            rs.len(),
                            |t: int|
                                if es[rs[t] as int].exists {
                                    1
                                } else {
                                    0
                                },
                        )
                    });
                },
                KeyView::Text(v) => {
                    assert(Seq::new(rs.len(), |t: int| v[rs[t] as int]) =~= if c == 1 {
                        Seq::new(rs.len(), |t: int| es[rs[t] as int].path@)
                    } else {
                        Seq::new(rs.len(), |t: int| es[rs[t] as int].slot@)
                    });
                },
                _ => {},
            }
        }
        r
    }

    /// What a key does to the table: the sort, and a selection that stops
    /// at either end rather than wrapping.
    pub fn handle(&mut self, key: KeyEvent, count: usize)
        requires
            count <= i32::MAX,
            old(self).selected matches Some(s) ==> s <= i32::MAX,
            old(self).sort.column < COLUMN_COUNT,
        ensures
            match key.code {
                KeyCode::Char('s') | KeyCode::Char('S') => final(self).sort == old(self).sort.cycle_spec(COLUMN_COUNT) && final(self).selected == old(self).selected,
                KeyCode::Down | KeyCode::Char('j') => final(self).selected == step_spec(
                    old(self).selected,
                    1i32,
                    count,
                ) && final(self).sort == old(self).sort,
                KeyCode::Up | KeyCode::Char('k') => final(self).selected == step_spec(
                    old(self).selected,
                    -1i32,
                    count,
                ) && final(self).sort == old(self).sort,
                KeyCode::Char('g') => final(self).selected == (if count == 0 {
                    None
                } else {
                    Some(0usize)
                }) && final(self).sort == old(self).sort,
                KeyCode::Char('G') => final(self).selected == (if count == 0 {
                    None
                } else {
                    Some((count - 1) as usize)
                }) && final(self).sort == old(self).sort,
                _ => *final(self) == *old(self),
            },
            final(self).sort.column < COLUMN_COUNT,
    {
        match key.code {
            KeyCode::Char('s') | KeyCode::Char('S') => {
                self.sort = self.sort.cycle(COLUMN_COUNT);
            },
            KeyCode::Down | KeyCode::Char('j') => {
                self.selected = step(self.selected, 1, count);
            },
            KeyCode::Up | KeyCode::Char('k') => {
                self.selected = step(self.selected, -1, count);
            },
            KeyCode::Char('g') => {
                self.selected = if count == 0 {
                    None
                } else {
                    Some(0)
                };
            },
            KeyCode::Char('G') => {
                self.selected = if count == 0 {
                    None
                } else {
                    Some(count - 1)
                };
            },
            _ => {},
        }
    }

    /// Select a row a jump named.
    pub fn select_row(&mut self, row: usize) -> (r: bool)
        ensures
            r,
            final(self).selected == Some(row),
            final(self).sort == old(self).sort,
    {
        self.selected = Some(row);
        true
    }
}

/// How many slots are missing their file.
pub open spec fn missing_upto(entries: Seq<TextureRow>, upto: int) -> nat
    decreases upto,
{
    if upto <= 0 {
        0
    } else if !entries[upto - 1].exists {
        missing_upto(entries, upto - 1) + 1
    } else {
        missing_upto(entries, upto - 1)
    }
}

pub open spec fn status_spec(entries: Seq<TextureRow>) -> Seq<char> {
    decimal(entries.len()) + " slots \u{b7} "@ + decimal(missing_upto(entries, entries.len() as int))
        + " missing"@
}

/// How many of these slots are missing their file.
pub fn missing(entries: &Vec<TextureRow>) -> (r: usize)
    ensures
        r == missing_upto(entries@, entries@.len() as int),
{
    let mut missing: usize = 0;
    let mut i: usize = 0;
    while i < entries.len()
        invariant
            i <= entries@.len(),
            missing == missing_upto(entries@, i as int),
            missing <= i,
        decreases entries@.len() - i,
    {
        if !entries[i].exists {
            missing = missing + 1;
        }
        i = i + 1;
    }
    missing
}

/// The count in the table's bottom border: how many slots, and how many of
/// them are missing.
pub fn status(materials: &Vec<MaterialRow>) -> (r: String)
    ensures
        r@ == status_spec(entries_spec(materials@)),
{
    let all = entries(materials);
    let missing = missing(&all);
    let mut out = String::new();
    push_decimal(&mut out, all.len() as u64);
    push_str(&mut out, " slots \u{b7} ");
    push_decimal(&mut out, missing as u64);
    push_str(&mut out, " missing");
    out
}

} // verus!
