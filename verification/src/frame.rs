//! What holds of every frame the solve produces.

use vstd::prelude::*;
use crate::layout::{
    address_spec, all_fit, fits_spec, insert_pos, lemma_insert_pos_bounds, lemma_reading_sort_len,
    numbered, reading_sort, reads_before, Layout, LeafId, Node, PanelType, Placement,
};
use crate::rect::Rect;

verus! {

/// How many placements carry an id.
pub open spec fn count_id(s: Seq<Placement>, id: LeafId) -> nat
    decreases s.len(),
{
    if s.len() == 0 {
        0
    } else {
        count_id(s.drop_last(), id) + (if s.last().id == id {
            1nat
        } else {
            0nat
        })
    }
}

/// How many placements hold focus.
pub open spec fn count_focused(s: Seq<Placement>) -> nat
    decreases s.len(),
{
    if s.len() == 0 {
        0
    } else {
        count_focused(s.drop_last()) + (if s.last().focused {
            1nat
        } else {
            0nat
        })
    }
}

proof fn lemma_count_concat(a: Seq<Placement>, b: Seq<Placement>, id: LeafId)
    ensures
        count_id(a + b, id) == count_id(a, id) + count_id(b, id),
    decreases b.len(),
{
    if b.len() == 0 {
        assert(a + b =~= a);
    } else {
        assert((a + b).drop_last() =~= a + b.drop_last());
        lemma_count_concat(a, b.drop_last(), id);
    }
}

proof fn lemma_count_tree(node: Node, area: Rect, id: LeafId)
    requires
        node.distinct(),
    ensures
        count_id(node.placements(area), id) == (if node.contains_spec(id) {
            1nat
        } else {
            0nat
        }),
    decreases node,
{
    match node {
        Node::Leaf { .. } => {
            let s = node.placements(area);
            assert(s.drop_last() =~= Seq::<Placement>::empty());
            assert(count_id(s.drop_last(), id) == 0);
        },
        Node::Split { dir, ratio, first, second } => {
            let halves = crate::layout::divide_spec(area, dir, ratio);
            lemma_count_concat(first.placements(halves.0), second.placements(halves.1), id);
            lemma_count_tree(*first, halves.0, id);
            lemma_count_tree(*second, halves.1, id);
        },
    }
}

proof fn lemma_count_insert(r: Seq<Placement>, k: int, p: Placement, id: LeafId)
    requires
        0 <= k <= r.len(),
    ensures
        count_id(r.insert(k, p), id) == count_id(r, id) + (if p.id == id {
            1nat
        } else {
            0nat
        }),
{
    assert(r.insert(k, p) =~= r.take(k) + seq![p] + r.skip(k));
    assert(r =~= r.take(k) + r.skip(k));
    lemma_count_concat(r.take(k) + seq![p], r.skip(k), id);
    lemma_count_concat(r.take(k), seq![p], id);
    lemma_count_concat(r.take(k), r.skip(k), id);
    assert(seq![p].drop_last() =~= Seq::<Placement>::empty());
    assert(count_id(seq![p].drop_last(), id) == 0);
}

/// Sorting into reading order neither adds nor drops a placement.
pub proof fn lemma_count_sort(s: Seq<Placement>, id: LeafId)
    ensures
        count_id(reading_sort(s), id) == count_id(s, id),
    decreases s.len(),
{
    if s.len() > 0 {
        let r = reading_sort(s.drop_last());
        lemma_count_sort(s.drop_last(), id);
        lemma_insert_pos_bounds(r, s.last());
        lemma_count_insert(r, insert_pos(r, s.last()), s.last(), id);
    }
}

proof fn lemma_count_numbered(s: Seq<Placement>, focus: LeafId)
    ensures
        count_focused(numbered(s, focus)) == count_id(s, focus),
    decreases s.len(),
{
    if s.len() > 0 {
        assert(numbered(s, focus).drop_last() =~= numbered(s.drop_last(), focus));
        lemma_count_numbered(s.drop_last(), focus);
    }
}

/// Sorting into reading order keeps every placement's rect among the rects
/// it was given.
proof fn lemma_sort_keeps_fit(s: Seq<Placement>)
    requires
        all_fit(s),
    ensures
        all_fit(reading_sort(s)),
    decreases s.len(),
{
    if s.len() > 0 {
        let r = reading_sort(s.drop_last());
        let p = s.last();
        assert(all_fit(s.drop_last())) by {
            assert forall|i: int| 0 <= i < s.drop_last().len() implies fits_spec(
                #[trigger] s.drop_last()[i].rect,
            ) by {
                assert(s.drop_last()[i] == s[i]);
            }
        }
        lemma_sort_keeps_fit(s.drop_last());
        lemma_insert_pos_bounds(r, p);
        lemma_reading_sort_len(s.drop_last());
        let k = insert_pos(r, p);
        r.insert_ensures(k, p);
        assert(fits_spec(s[s.len() - 1].rect));
        assert forall|i: int| 0 <= i < r.insert(k, p).len() implies fits_spec(
            #[trigger] r.insert(k, p)[i].rect,
        ) by {
            if i < k {
                assert(r.insert(k, p)[i] == r[i]);
            } else if i == k {
            } else {
                assert(r.insert(k, p)[(i - 1) + 1] == r[i - 1]);
            }
        }
    }
}

/// Whatever the pane and whatever is maximized, exactly one panel of a frame
/// holds focus.
pub proof fn law_one_focused_panel(l: Layout, area: Rect, maximized: Option<LeafId>)
    requires
        l.wf(),
    ensures
        count_focused(l.solve_spec(area, maximized)) == 1,
{
    let t = l.tree();
    let f = l.focus_spec();
    if maximized is Some && t.panel_spec(maximized.unwrap()) is Some {
        let s = l.solve_spec(area, maximized);
        assert(s.drop_last() =~= Seq::<Placement>::empty());
        assert(count_focused(s.drop_last()) == 0);
    } else {
        let raw = t.placements(area);
        let chosen = if all_fit(raw) {
            raw
        } else {
            seq![
                Placement {
                    id: f,
                    panel: match t.panel_spec(f) {
                        Some(p) => p,
                        None => crate::layout::PanelType::Geometry,
                    },
                    rect: area,
                    address: 1,
                    focused: true,
                },
            ]
        };
        if all_fit(raw) {
            lemma_count_tree(t, area, f);
        } else {
            assert(chosen.drop_last() =~= Seq::<Placement>::empty());
            assert(count_id(chosen.drop_last(), f) == 0);
        }
        lemma_count_sort(chosen, f);
        lemma_count_numbered(reading_sort(chosen), f);
    }
}

/// A frame without a maximized panel is either every panel of the tree, each
/// big enough to read, or the focused panel alone over the whole pane.
pub proof fn law_frame_fits_or_falls_back(l: Layout, area: Rect)
    requires
        l.wf(),
    ensures
        ({
            let s = l.solve_spec(area, None);
            ||| all_fit(s) && s.len() == l.tree().placements(area).len()
            ||| s.len() == 1 && s[0].rect == area && s[0].id == l.focus_spec() && s[0].focused
        }),
{
    let raw = l.tree().placements(area);
    lemma_reading_sort_len(raw);
    if all_fit(raw) {
        lemma_sort_keeps_fit(raw);
        let sorted = reading_sort(raw);
        let s = l.solve_spec(area, None);
        assert forall|i: int| 0 <= i < s.len() implies fits_spec(#[trigger] s[i].rect) by {
            assert(s[i].rect == sorted[i].rect);
        }
    } else {
        let chosen = seq![
            Placement {
                id: l.focus_spec(),
                panel: match l.tree().panel_spec(l.focus_spec()) {
                    Some(p) => p,
                    None => crate::layout::PanelType::Geometry,
                },
                rect: area,
                address: 1,
                focused: true,
            },
        ];
        lemma_reading_sort_len(chosen);
        assert(chosen.drop_last() =~= Seq::<Placement>::empty());
        assert(reading_sort(chosen.drop_last()) == Seq::<Placement>::empty());
        assert(reading_sort(chosen) =~= chosen);
        let s = l.solve_spec(area, None);
        assert(s.len() == 1);
    }
}


/// A rect lies within another.
pub open spec fn inside(r: Rect, area: Rect) -> bool {
    &&& area.x <= r.x && r.x + r.width <= area.x + area.width
    &&& area.y <= r.y && r.y + r.height <= area.y + area.height
}

/// Two rects share no cell.
pub open spec fn apart(a: Rect, b: Rect) -> bool {
    ||| a.x + a.width <= b.x
    ||| b.x + b.width <= a.x
    ||| a.y + a.height <= b.y
    ||| b.y + b.height <= a.y
}

/// The cells a sequence of placements covers, counted with repeats.
pub open spec fn total_area(s: Seq<Placement>) -> int
    decreases s.len(),
{
    if s.len() == 0 {
        0
    } else {
        total_area(s.drop_last()) + s.last().rect.area()
    }
}

proof fn lemma_total_concat(a: Seq<Placement>, b: Seq<Placement>)
    ensures
        total_area(a + b) == total_area(a) + total_area(b),
    decreases b.len(),
{
    if b.len() == 0 {
        assert(a + b =~= a);
    } else {
        assert((a + b).drop_last() =~= a + b.drop_last());
        lemma_total_concat(a, b.drop_last());
    }
}

/// The panels a tree solves to tile the pane: each lies inside it, no two
/// share a cell, and together they cover every cell of it.
pub proof fn law_placements_tile_the_pane(node: Node, area: Rect)
    requires
        node.ratios_ok(),
        area.wf(),
    ensures
        forall|i: int|
            0 <= i < node.placements(area).len() ==> inside(#[trigger] node.placements(area)[i].rect, area),
        forall|i: int, j: int|
            0 <= i < j < node.placements(area).len() ==> apart(
                #[trigger] node.placements(area)[i].rect,
                #[trigger] node.placements(area)[j].rect,
            ),
        total_area(node.placements(area)) == area.area(),
    decreases node,
{
    match node {
        Node::Leaf { .. } => {
            let s = node.placements(area);
            assert(s.drop_last() =~= Seq::<Placement>::empty());
            assert(total_area(s.drop_last()) == 0);
        },
        Node::Split { dir, ratio, first, second } => {
            crate::layout::lemma_divide_tiles(area, dir, ratio);
            let halves = crate::layout::divide_spec(area, dir, ratio);
            let (h0, h1) = halves;
            law_placements_tile_the_pane(*first, h0);
            law_placements_tile_the_pane(*second, h1);
            let a = first.placements(h0);
            let b = second.placements(h1);
            let s = node.placements(area);
            assert(s == a + b);
            lemma_total_concat(a, b);
            match dir {
                crate::layout::Direction::Vertical => {
                    assert(h0.width * area.height + h1.width * area.height == area.width * area.height)
                        by (nonlinear_arith)
                        requires
                            h0.width + h1.width == area.width,
                    ;
                },
                crate::layout::Direction::Horizontal => {
                    assert(area.width * h0.height + area.width * h1.height == area.width * area.height)
                        by (nonlinear_arith)
                        requires
                            h0.height + h1.height == area.height,
                    ;
                },
            }
            assert forall|i: int| 0 <= i < s.len() implies inside(#[trigger] s[i].rect, area) by {
                if i < a.len() {
                    assert(s[i] == a[i]);
                    assert(inside(a[i].rect, h0));
                } else {
                    assert(s[i] == b[i - a.len()]);
                    assert(inside(b[i - a.len()].rect, h1));
                }
            }
            assert forall|i: int, j: int| 0 <= i < j < s.len() implies apart(
                #[trigger] s[i].rect,
                #[trigger] s[j].rect,
            ) by {
                if j < a.len() {
                    assert(s[i] == a[i] && s[j] == a[j]);
                    assert(apart(a[i].rect, a[j].rect));
                } else if i >= a.len() {
                    assert(s[i] == b[i - a.len()] && s[j] == b[j - a.len()]);
                    assert(apart(b[i - a.len()].rect, b[j - a.len()].rect));
                } else {
                    assert(s[i] == a[i] && s[j] == b[j - a.len()]);
                    assert(inside(a[i].rect, h0));
                    assert(inside(b[j - a.len()].rect, h1));
                }
            }
        },
    }
}


/// Every placement of a sorted sequence is one it was given, and every one
/// it was given is there.
proof fn lemma_sort_members(s: Seq<Placement>)
    ensures
        forall|i: int| 0 <= i < reading_sort(s).len() ==> s.contains(#[trigger] reading_sort(s)[i]),
        forall|i: int| 0 <= i < s.len() ==> reading_sort(s).contains(#[trigger] s[i]),
    decreases s.len(),
{
    lemma_reading_sort_len(s);
    if s.len() > 0 {
        let t = s.drop_last();
        let r = reading_sort(t);
        let p = s.last();
        lemma_sort_members(t);
        lemma_reading_sort_len(t);
        lemma_insert_pos_bounds(r, p);
        let k = insert_pos(r, p);
        let q = reading_sort(s);
        assert(q == r.insert(k, p));
        assert forall|i: int| 0 <= i < q.len() implies s.contains(#[trigger] q[i]) by {
            if i < k {
                assert(q[i] == r[i]);
                let a = choose|a: int| 0 <= a < t.len() && t[a] == r[i];
                assert(s[a] == t[a]);
            } else if i == k {
                assert(s[s.len() - 1] == p);
            } else {
                assert(q[i] == r[i - 1]);
                let a = choose|a: int| 0 <= a < t.len() && t[a] == r[i - 1];
                assert(s[a] == t[a]);
            }
        }
        assert forall|i: int| 0 <= i < s.len() implies q.contains(#[trigger] s[i]) by {
            if i < s.len() - 1 {
                assert(s[i] == t[i]);
                let b = choose|b: int| 0 <= b < r.len() && r[b] == t[i];
                if b < k {
                    assert(q[b] == r[b]);
                } else {
                    assert(q[b + 1] == r[b]);
                }
            } else {
                assert(q[k] == p);
            }
        }
    }
}

/// Where a placement goes in a sorted sequence: everything before it reads
/// before or level with it, and it reads before everything after.
proof fn lemma_insert_pos_place(r: Seq<Placement>, p: Placement)
    requires
        forall|i: int, j: int| 0 <= i < j < r.len() ==> reads_before(#[trigger] r[i], #[trigger] r[j]),
    ensures
        forall|i: int| 0 <= i < insert_pos(r, p) ==> reads_before(#[trigger] r[i], p),
        forall|i: int| insert_pos(r, p) <= i < r.len() ==> reads_before(p, #[trigger] r[i]),
    decreases r.len(),
{
    lemma_insert_pos_bounds(r, p);
    if r.len() > 0 {
        if reads_before(r.last(), p) {
            assert forall|i: int| 0 <= i < insert_pos(r, p) implies reads_before(#[trigger] r[i], p) by {
                if i < r.len() - 1 {
                    assert(reads_before(r[i], r[r.len() - 1]));
                }
            }
        } else {
            let t = r.drop_last();
            assert forall|i: int, j: int| 0 <= i < j < t.len() implies reads_before(
                #[trigger] t[i],
                #[trigger] t[j],
            ) by {
                assert(t[i] == r[i] && t[j] == r[j]);
            }
            lemma_insert_pos_place(t, p);
            assert forall|i: int| 0 <= i < insert_pos(r, p) implies reads_before(#[trigger] r[i], p) by {
                assert(r[i] == t[i]);
            }
            assert forall|i: int| insert_pos(r, p) <= i < r.len() implies reads_before(p, #[trigger] r[i]) by {
                if i < r.len() - 1 {
                    assert(r[i] == t[i]);
                } else {
                    assert(r[i] == r.last());
                }
            }
        }
    }
}

/// Sorting leaves the placements in reading order.
proof fn lemma_sort_ordered(s: Seq<Placement>)
    ensures
        forall|i: int, j: int|
            0 <= i < j < reading_sort(s).len() ==> reads_before(
                #[trigger] reading_sort(s)[i],
                #[trigger] reading_sort(s)[j],
            ),
    decreases s.len(),
{
    if s.len() > 0 {
        let t = s.drop_last();
        let r = reading_sort(t);
        let p = s.last();
        lemma_sort_ordered(t);
        lemma_insert_pos_bounds(r, p);
        lemma_insert_pos_place(r, p);
        let k = insert_pos(r, p);
        let q = reading_sort(s);
        assert(q == r.insert(k, p));
        assert forall|i: int, j: int| 0 <= i < j < q.len() implies reads_before(
            #[trigger] q[i],
            #[trigger] q[j],
        ) by {
            let a = if i < k { r[i] } else if i == k { p } else { r[i - 1] };
            let b = if j < k { r[j] } else if j == k { p } else { r[j - 1] };
            assert(q[i] == a);
            assert(q[j] == b);
            if i < k && j > k {
                assert(reads_before(r[i], p));
                assert(reads_before(p, r[j - 1]));
            } else if i < k && j < k {
                assert(reads_before(r[i], r[j]));
            } else if i > k {
                assert(reads_before(r[i - 1], r[j - 1]));
            } else if i < k {
                assert(reads_before(r[i], p));
            } else {
                assert(reads_before(p, r[j - 1]));
            }
        }
    }
}

/// Sorting keeps rects pairwise apart.
proof fn lemma_sort_apart(s: Seq<Placement>)
    requires
        forall|i: int, j: int| 0 <= i < j < s.len() ==> apart(#[trigger] s[i].rect, #[trigger] s[j].rect),
    ensures
        forall|i: int, j: int|
            0 <= i < j < reading_sort(s).len() ==> apart(
                #[trigger] reading_sort(s)[i].rect,
                #[trigger] reading_sort(s)[j].rect,
            ),
    decreases s.len(),
{
    if s.len() > 0 {
        let t = s.drop_last();
        let r = reading_sort(t);
        let p = s.last();
        assert forall|i: int, j: int| 0 <= i < j < t.len() implies apart(
            #[trigger] t[i].rect,
            #[trigger] t[j].rect,
        ) by {
            assert(t[i] == s[i] && t[j] == s[j]);
        }
        lemma_sort_apart(t);
        lemma_sort_members(t);
        lemma_reading_sort_len(t);
        lemma_insert_pos_bounds(r, p);
        let k = insert_pos(r, p);
        let q = reading_sort(s);
        assert(q == r.insert(k, p));
        assert forall|m: int| 0 <= m < r.len() implies apart(#[trigger] r[m].rect, p.rect) by {
            let a = choose|a: int| 0 <= a < t.len() && t[a] == r[m];
            assert(s[a] == t[a]);
            assert(apart(s[a].rect, s[s.len() - 1].rect));
        }
        assert forall|i: int, j: int| 0 <= i < j < q.len() implies apart(
            #[trigger] q[i].rect,
            #[trigger] q[j].rect,
        ) by {
            if i < k && j < k {
                assert(q[i] == r[i] && q[j] == r[j]);
            } else if i < k && j == k {
                assert(q[i] == r[i] && q[j] == p);
                assert(apart(r[i].rect, p.rect));
            } else if i < k {
                assert(q[i] == r[i] && q[j] == r[j - 1]);
            } else if i == k {
                assert(q[i] == p && q[j] == r[j - 1]);
                assert(apart(r[j - 1].rect, p.rect));
            } else {
                assert(q[i] == r[i - 1] && q[j] == r[j - 1]);
            }
        }
    }
}

proof fn lemma_total_insert(r: Seq<Placement>, k: int, p: Placement)
    requires
        0 <= k <= r.len(),
    ensures
        total_area(r.insert(k, p)) == total_area(r) + p.rect.area(),
{
    assert(r.insert(k, p) =~= r.take(k) + seq![p] + r.skip(k));
    assert(r =~= r.take(k) + r.skip(k));
    lemma_total_concat(r.take(k) + seq![p], r.skip(k));
    lemma_total_concat(r.take(k), seq![p]);
    lemma_total_concat(r.take(k), r.skip(k));
    assert(seq![p].drop_last() =~= Seq::<Placement>::empty());
    assert(total_area(seq![p].drop_last()) == 0);
    assert(total_area(seq![p]) == p.rect.area());
}

proof fn lemma_total_sort(s: Seq<Placement>)
    ensures
        total_area(reading_sort(s)) == total_area(s),
    decreases s.len(),
{
    if s.len() > 0 {
        let r = reading_sort(s.drop_last());
        lemma_total_sort(s.drop_last());
        lemma_insert_pos_bounds(r, s.last());
        lemma_total_insert(r, insert_pos(r, s.last()), s.last());
    }
}

proof fn lemma_total_numbered(s: Seq<Placement>, focus: LeafId)
    ensures
        total_area(numbered(s, focus)) == total_area(s),
    decreases s.len(),
{
    if s.len() > 0 {
        assert(numbered(s, focus).drop_last() =~= numbered(s.drop_last(), focus));
        lemma_total_numbered(s.drop_last(), focus);
    }
}

/// A tree's placements are its leaves, in the same order.
proof fn lemma_placements_leaves(node: Node, area: Rect)
    ensures
        node.placements(area).len() == node.leaves_spec().len(),
        forall|i: int|
            0 <= i < node.leaves_spec().len() ==> (#[trigger] node.placements(area)[i].id,
            node.placements(area)[i].panel) == node.leaves_spec()[i],
    decreases node,
{
    match node {
        Node::Leaf { .. } => {},
        Node::Split { dir, ratio, first, second } => {
            let halves = crate::layout::divide_spec(area, dir, ratio);
            lemma_placements_leaves(*first, halves.0);
            lemma_placements_leaves(*second, halves.1);
            let a = first.placements(halves.0);
            let b = second.placements(halves.1);
            let la = first.leaves_spec();
            let lb = second.leaves_spec();
            assert forall|i: int| 0 <= i < node.leaves_spec().len() implies (
            #[trigger] node.placements(area)[i].id,
            node.placements(area)[i].panel) == node.leaves_spec()[i] by {
                if i < la.len() {
                    assert(node.placements(area)[i] == a[i]);
                    assert(node.leaves_spec()[i] == la[i]);
                } else {
                    assert(node.placements(area)[i] == b[i - la.len()]);
                    assert(node.leaves_spec()[i] == lb[i - la.len()]);
                }
            }
        },
    }
}

/// Where every panel of the tree fits, the solve tiles the pane with them
/// in reading order: each rect inside the pane, no two sharing a cell, their
/// areas adding up to the pane's, top to bottom and then left to right,
/// addressed one, two, three and so on (the last ones sharing 255), focus
/// marked on exactly the focused leaf, and every leaf of the tree there
/// once with its panel.
pub proof fn law_solve_tiles_in_reading_order(l: Layout, area: Rect)
    requires
        l.wf(),
        area.wf(),
        all_fit(l.tree().placements(area)),
    ensures
        ({
            let r = l.solve_spec(area, None);
            let leaves = l.tree().leaves_spec();
            &&& r.len() == leaves.len()
            &&& forall|i: int| 0 <= i < r.len() ==> inside(#[trigger] r[i].rect, area)
            &&& forall|i: int, j: int|
                0 <= i < j < r.len() ==> apart(#[trigger] r[i].rect, #[trigger] r[j].rect)
            &&& total_area(r) == area.area()
            &&& forall|i: int, j: int| 0 <= i < j < r.len() ==> reads_before(#[trigger] r[i], #[trigger] r[j])
            &&& forall|i: int| 0 <= i < r.len() ==> (#[trigger] r[i]).address == address_spec(i)
            &&& forall|i: int| 0 <= i < r.len() ==> (#[trigger] r[i]).focused == (r[i].id == l.focus_spec())
            &&& count_focused(r) == 1
            &&& forall|i: int| 0 <= i < r.len() ==> leaves.contains((#[trigger] r[i].id, r[i].panel))
            &&& forall|k: int|
                #![trigger leaves[k]]
                0 <= k < leaves.len() ==> exists|i: int|
                    0 <= i < r.len() && (#[trigger] r[i].id, r[i].panel) == leaves[k]
        }),
{
    let t = l.tree();
    let raw = t.placements(area);
    let sorted = reading_sort(raw);
    let r = l.solve_spec(area, None);
    let leaves = t.leaves_spec();
    assert(r == numbered(sorted, l.focus_spec()));
    law_placements_tile_the_pane(t, area);
    lemma_placements_leaves(t, area);
    lemma_reading_sort_len(raw);
    lemma_sort_members(raw);
    lemma_sort_ordered(raw);
    lemma_sort_apart(raw);
    lemma_total_sort(raw);
    lemma_total_numbered(sorted, l.focus_spec());
    law_one_focused_panel(l, area, None);
    assert forall|i: int| 0 <= i < r.len() implies inside(#[trigger] r[i].rect, area) by {
        assert(r[i].rect == sorted[i].rect);
        let a = choose|a: int| 0 <= a < raw.len() && raw[a] == sorted[i];
        assert(inside(raw[a].rect, area));
    }
    assert forall|i: int, j: int| 0 <= i < j < r.len() implies apart(
        #[trigger] r[i].rect,
        #[trigger] r[j].rect,
    ) by {
        assert(r[i].rect == sorted[i].rect && r[j].rect == sorted[j].rect);
    }
    assert forall|i: int, j: int| 0 <= i < j < r.len() implies reads_before(
        #[trigger] r[i],
        #[trigger] r[j],
    ) by {
        assert(reads_before(sorted[i], sorted[j]));
    }
    assert forall|i: int| 0 <= i < r.len() implies leaves.contains(
        (#[trigger] r[i].id, r[i].panel),
    ) by {
        let a = choose|a: int| 0 <= a < raw.len() && raw[a] == sorted[i];
        assert(leaves[a] == (raw[a].id, raw[a].panel));
    }
    assert forall|k: int| #![trigger leaves[k]] 0 <= k < leaves.len() implies exists|i: int|
        0 <= i < r.len() && (#[trigger] r[i].id, r[i].panel) == leaves[k] by {
        assert(leaves[k] == (raw[k].id, raw[k].panel));
        let i = choose|i: int| 0 <= i < sorted.len() && sorted[i] == raw[k];
        assert(r[i].id == sorted[i].id && r[i].panel == sorted[i].panel);
    }
}

} // verus!
