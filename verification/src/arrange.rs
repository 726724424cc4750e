//! Arrange mode: the grammar for changing an arrangement.
//!
//! Every command is a function of a layout and a pane, and every refusal is
//! a value rather than a beep.

use vstd::prelude::*;
use crate::layout::{
    Direction, Layout, LeafId, Placement, Refusal, active_share, adjust_spec, all_fit, even_spec,
    first_rect_of, law_resize_moves_the_divider_the_way_asked, lemma_build, lemma_rebuild,
    remove_leaf_spec, resized_as_asked, split_leaf_spec, MAX_SHARE, MIN_SHARE, RESIZE_STEP,
};
use crate::rect::Rect;

verus! {

/// One thing a reader can do to an arrangement.
#[derive(Debug, Clone, Copy, PartialEq, Eq, Structural)]
pub enum Command {
    /// Move focus to the nearest panel in a direction.
    Focus(Toward),
    /// Split the focused panel, putting a catalogue leaf beside it.
    Split(Direction),
    /// Close the focused panel; its sibling takes the room.
    Close,
    /// Move the divider above the focused panel.
    Grow,
    Shrink,
    /// Even every ratio out.
    Balance,
}

#[derive(Debug, Clone, Copy, PartialEq, Eq, Structural)]
pub enum Toward {
    Left,
    Right,
    Up,
    Down,
}

/// What happened: the arrangement changed, or the command was refused and
/// the arrangement is untouched.
#[derive(Debug, PartialEq, Eq)]
pub enum Outcome {
    Changed(Layout),
    Refused(Refusal),
}

pub open spec fn right_of(r: Rect) -> int {
    if r.x + r.width <= u16::MAX {
        r.x + r.width
    } else {
        u16::MAX as int
    }
}

pub open spec fn bottom_of(r: Rect) -> int {
    if r.y + r.height <= u16::MAX {
        r.y + r.height
    } else {
        u16::MAX as int
    }
}

/// Whether `other` lies past `here`'s edge in the direction of travel.
pub open spec fn beyond_spec(here: Rect, other: Rect, toward: Toward) -> bool {
    match toward {
        Toward::Left => right_of(other) <= here.x,
        Toward::Right => other.x >= right_of(here),
        Toward::Up => bottom_of(other) <= here.y,
        Toward::Down => other.y >= bottom_of(here),
    }
}

/// Whether the two share any of the axis perpendicular to the travel.
pub open spec fn overlaps_spec(here: Rect, other: Rect, toward: Toward) -> bool {
    match toward {
        Toward::Left | Toward::Right => here.y < bottom_of(other) && other.y < bottom_of(here),
        Toward::Up | Toward::Down => here.x < right_of(other) && other.x < right_of(here),
    }
}

pub open spec fn abs_diff(a: int, b: int) -> int {
    if a >= b {
        a - b
    } else {
        b - a
    }
}

/// How far off the reader's current line a candidate sits.
pub open spec fn cross_spec(here: Rect, other: Rect, toward: Toward) -> int {
    match toward {
        Toward::Left | Toward::Right => abs_diff(here.y + here.height / 2, other.y + other.height / 2),
        Toward::Up | Toward::Down => abs_diff(here.x + here.width / 2, other.x + other.width / 2),
    }
}

pub open spec fn gap(a: int, b: int) -> int {
    if a >= b {
        a - b
    } else {
        0
    }
}

/// How far along the direction of travel a candidate sits.
pub open spec fn along_spec(here: Rect, other: Rect, toward: Toward) -> int {
    match toward {
        Toward::Left => gap(here.x as int, right_of(other)),
        Toward::Right => gap(other.x as int, right_of(here)),
        Toward::Up => gap(here.y as int, bottom_of(other)),
        Toward::Down => gap(other.y as int, bottom_of(here)),
    }
}

/// Whether `a` is strictly nearer than `b`: along the travel first, then
/// across it.
pub open spec fn nearer(here: Rect, a: Rect, b: Rect, toward: Toward) -> bool {
    let (pa, xa) = (along_spec(here, a, toward), cross_spec(here, a, toward));
    let (pb, xb) = (along_spec(here, b, toward), cross_spec(here, b, toward));
    pa < pb || (pa == pb && xa < xb)
}

/// The first placement holding focus.
pub open spec fn first_focused(s: Seq<Placement>) -> Option<Placement>
    decreases s.len(),
{
    if s.len() == 0 {
        None
    } else if s[0].focused {
        Some(s[0])
    } else {
        first_focused(s.drop_first())
    }
}

/// The unfocused placements past `here` in the direction of travel, and,
/// with `aligned`, only those sharing its line.
pub open spec fn candidates(s: Seq<Placement>, here: Rect, toward: Toward, aligned: bool) -> Seq<Placement>
    decreases s.len(),
{
    if s.len() == 0 {
        Seq::empty()
    } else {
        let rest = candidates(s.drop_last(), here, toward, aligned);
        let p = s.last();
        if !p.focused && beyond_spec(here, p.rect, toward) && (!aligned || overlaps_spec(
            here,
            p.rect,
            toward,
        )) {
            rest.push(p)
        } else {
            rest
        }
    }
}

/// The nearest placement, the earliest among equals.
pub open spec fn nearest(s: Seq<Placement>, here: Rect, toward: Toward) -> Option<Placement>
    decreases s.len(),
{
    if s.len() == 0 {
        None
    } else {
        match nearest(s.drop_last(), here, toward) {
            None => Some(s.last()),
            Some(b) => if nearer(here, s.last().rect, b.rect, toward) {
                Some(s.last())
            } else {
                Some(b)
            },
        }
    }
}

/// Where focus goes when moving in a direction: the nearest panel past the
/// focused one's edge, preferring those sharing its line, or nowhere.
pub open spec fn focus_target(s: Seq<Placement>, toward: Toward) -> Option<LeafId> {
    match first_focused(s) {
        None => None,
        Some(current) => {
            let here = current.rect;
            let all = candidates(s, here, toward, false);
            let lined = candidates(s, here, toward, true);
            let pool = if lined.len() == 0 {
                all
            } else {
                lined
            };
            match nearest(pool, here, toward) {
                Some(p) => Some(p.id),
                None => None,
            }
        },
    }
}

fn right(r: Rect) -> (v: u16)
    ensures
        v == right_of(r),
{
    r.x.saturating_add(r.width)
}

fn bottom(r: Rect) -> (v: u16)
    ensures
        v == bottom_of(r),
{
    r.y.saturating_add(r.height)
}

fn beyond(here: Rect, other: Rect, toward: Toward) -> (b: bool)
    ensures
        b == beyond_spec(here, other, toward),
{
    match toward {
        Toward::Left => right(other) <= here.x,
        Toward::Right => other.x >= right(here),
        Toward::Up => bottom(other) <= here.y,
        Toward::Down => other.y >= bottom(here),
    }
}

fn overlaps(here: Rect, other: Rect, toward: Toward) -> (b: bool)
    ensures
        b == overlaps_spec(here, other, toward),
{
    match toward {
        Toward::Left | Toward::Right => here.y < bottom(other) && other.y < bottom(here),
        Toward::Up | Toward::Down => here.x < right(other) && other.x < right(here),
    }
}

fn diff(a: u32, b: u32) -> (d: u32)
    ensures
        d == abs_diff(a as int, b as int),
{
    if a >= b {
        a - b
    } else {
        b - a
    }
}

fn cross(here: Rect, other: Rect, toward: Toward) -> (d: u32)
    ensures
        d == cross_spec(here, other, toward),
{
    match toward {
        Toward::Left | Toward::Right => diff(
            here.y as u32 + here.height as u32 / 2,
            other.y as u32 + other.height as u32 / 2,
        ),
        Toward::Up | Toward::Down => diff(
            here.x as u32 + here.width as u32 / 2,
            other.x as u32 + other.width as u32 / 2,
        ),
    }
}

fn along(here: Rect, other: Rect, toward: Toward) -> (d: u16)
    ensures
        d == along_spec(here, other, toward),
{
    match toward {
        Toward::Left => here.x.saturating_sub(right(other)),
        Toward::Right => other.x.saturating_sub(right(here)),
        Toward::Up => here.y.saturating_sub(bottom(other)),
        Toward::Down => other.y.saturating_sub(bottom(here)),
    }
}

fn gather(s: &Vec<Placement>, here: Rect, toward: Toward, aligned: bool) -> (r: Vec<Placement>)
    ensures
        r@ == candidates(s@, here, toward, aligned),
{
    let mut r: Vec<Placement> = Vec::new();
    let mut i: usize = 0;
    assert(s@.take(0) =~= Seq::<Placement>::empty());
    while i < s.len()
        invariant
            0 <= i <= s.len(),
            r@ == candidates(s@.take(i as int), here, toward, aligned),
        decreases s.len() - i,
    {
        assert(s@.take(i + 1).drop_last() =~= s@.take(i as int));
        assert(s@.take(i + 1).last() == s@[i as int]);
        let p = s[i];
        if !p.focused && beyond(here, p.rect, toward) && (!aligned || overlaps(
            here,
            p.rect,
            toward,
        )) {
            r.push(p);
        }
        i = i + 1;
    }
    assert(s@.take(s@.len() as int) =~= s@);
    r
}

fn pick_nearest(s: &Vec<Placement>, here: Rect, toward: Toward) -> (r: Option<Placement>)
    ensures
        r == nearest(s@, here, toward),
{
    let mut best: Option<Placement> = None;
    let mut i: usize = 0;
    assert(s@.take(0) =~= Seq::<Placement>::empty());
    while i < s.len()
        invariant
            0 <= i <= s.len(),
            best == nearest(s@.take(i as int), here, toward),
        decreases s.len() - i,
    {
        assert(s@.take(i + 1).drop_last() =~= s@.take(i as int));
        assert(s@.take(i + 1).last() == s@[i as int]);
        let p = s[i];
        best = match best {
            None => Some(p),
            Some(b) => {
                let pa = along(here, p.rect, toward);
                let pb = along(here, b.rect, toward);
                let xa = cross(here, p.rect, toward);
                let xb = cross(here, b.rect, toward);
                if pa < pb || (pa == pb && xa < xb) {
                    Some(p)
                } else {
                    Some(b)
                }
            },
        };
        i = i + 1;
    }
    assert(s@.take(s@.len() as int) =~= s@);
    best
}

fn find_focused(s: &Vec<Placement>) -> (r: Option<Placement>)
    ensures
        r == first_focused(s@),
{
    let mut i: usize = 0;
    assert(s@.skip(0) =~= s@);
    while i < s.len()
        invariant
            0 <= i <= s.len(),
            first_focused(s@) == first_focused(s@.skip(i as int)),
        decreases s.len() - i,
    {
        assert(s@.skip(i as int)[0] == s@[i as int]);
        if s[i].focused {
            return Some(s[i]);
        }
        assert(s@.skip(i as int).drop_first() =~= s@.skip(i + 1));
        i = i + 1;
    }
    None
}

/// Move focus to the nearest panel in a direction: spatial rather than
/// structural, preferring panels sharing the reader's line, and staying put
/// at an edge rather than wrapping.
pub fn focus_toward(layout: &Layout, area: Rect, toward: Toward) -> (r: Layout)
    requires
        area.wf(),
    ensures
        r.tree() == layout.tree(),
        r.next_id_spec() == layout.next_id_spec(),
        r.focus_spec() == (match focus_target(layout.solve_spec(area, None), toward) {
            Some(id) => if layout.tree().contains_spec(id) {
                id
            } else {
                layout.focus_spec()
            },
            None => layout.focus_spec(),
        }),
{
    let placements = layout.solve(area, None);
    let current = match find_focused(&placements) {
        Some(p) => p,
        None => {
            return layout.duplicate();
        },
    };
    let here = current.rect;
    let all = gather(&placements, here, toward, false);
    let lined = gather(&placements, here, toward, true);
    let pool = if lined.len() == 0 {
        all
    } else {
        lined
    };
    match pick_nearest(&pool, here, toward) {
        Some(found) => layout.with_focus(found.id),
        None => layout.duplicate(),
    }
}

/// What a command does to an arrangement drawn in a pane.
pub open spec fn apply_spec(layout: Layout, area: Rect, command: Command) -> Outcome {
    let focus = layout.focus_spec();
    let next = layout.next_id_spec();
    match command {
        Command::Focus(toward) => Outcome::Changed(
            match focus_target(layout.solve_spec(area, None), toward) {
                Some(id) => layout.focused_on(id),
                None => layout,
            },
        ),
        Command::Split(dir) => if layout.split_refused(area, dir) {
            Outcome::Refused(Refusal::TooSmall)
        } else {
            Outcome::Changed(
                Layout::build(
                    split_leaf_spec(layout.tree(), focus, dir, LeafId(next)).0,
                    focus,
                    (next + 1) as u32,
                ),
            )
        },
        Command::Close => if layout.tree().is_leaf_spec() {
            Outcome::Refused(Refusal::LastPanel)
        } else {
            let removed = remove_leaf_spec(layout.tree(), focus);
            Outcome::Changed(Layout::build(removed.0, removed.1.unwrap(), next))
        },
        Command::Grow => resized(layout, area, RESIZE_STEP),
        Command::Shrink => resized(layout, area, (-RESIZE_STEP) as i32),
        Command::Balance => if !all_fit(even_spec(layout.tree()).placements(area)) {
            Outcome::Refused(Refusal::TooSmall)
        } else {
            Outcome::Changed(Layout::build(even_spec(layout.tree()), focus, next))
        },
    }
}

/// Moving the divider above the focused panel by a step, unless a panel
/// would fall below the minimum.
pub open spec fn resized(layout: Layout, area: Rect, delta: i32) -> Outcome {
    let moved = adjust_spec(layout.tree(), layout.focus_spec(), delta);
    if !moved.1 || !all_fit(moved.0.placements(area)) {
        Outcome::Refused(Refusal::TooSmall)
    } else {
        Outcome::Changed(Layout::build(moved.0, layout.focus_spec(), layout.next_id_spec()))
    }
}

/// Apply one command against the pane it is drawn in.
pub fn apply(layout: &Layout, area: Rect, command: Command) -> (r: Outcome)
    requires
        area.wf(),
        command matches Command::Split(dir) ==> (!layout.split_refused(area, dir)
            ==> layout.next_id_spec() < u32::MAX),
    ensures
        r == apply_spec(*layout, area, command),
{
    let r = match command {
        Command::Focus(toward) => Outcome::Changed(focus_toward(layout, area, toward)),
        Command::Split(dir) => result(layout.split(area, dir)),
        Command::Close => result(layout.close()),
        Command::Grow => result(layout.resize(area, RESIZE_STEP)),
        Command::Shrink => result(layout.resize(area, -RESIZE_STEP)),
        Command::Balance => result(layout.balance(area)),
    };
    proof {
        lemma_rebuild(*layout);
        if r is Changed {
            lemma_rebuild(r->Changed_0);
        }
    }
    r
}

fn result(outcome: Result<Layout, Refusal>) -> (r: Outcome)
    ensures
        match outcome {
            Ok(l) => r == Outcome::Changed(l),
            Err(e) => r == Outcome::Refused(e),
        },
{
    match outcome {
        Ok(layout) => Outcome::Changed(layout),
        Err(refusal) => Outcome::Refused(refusal),
    }
}

/// Whether a placement may take focus moving from `here`: another panel,
/// past `here`'s edge, and, with `aligned`, sharing its line.
pub open spec fn qualifies(p: Placement, here: Rect, toward: Toward, aligned: bool) -> bool {
    !p.focused && beyond_spec(here, p.rect, toward) && (!aligned || overlaps_spec(here, p.rect, toward))
}

proof fn lemma_candidates(s: Seq<Placement>, here: Rect, toward: Toward, aligned: bool)
    ensures
        forall|k: int|
            0 <= k < candidates(s, here, toward, aligned).len() ==> qualifies(
                #[trigger] candidates(s, here, toward, aligned)[k],
                here,
                toward,
                aligned,
            ) && s.contains(candidates(s, here, toward, aligned)[k]),
        candidates(s, here, toward, aligned).len() == 0 <==> forall|i: int|
            0 <= i < s.len() ==> !qualifies(#[trigger] s[i], here, toward, aligned),
    decreases s.len(),
{
    if s.len() > 0 {
        let rest = s.drop_last();
        lemma_candidates(rest, here, toward, aligned);
        let c = candidates(s, here, toward, aligned);
        let cr = candidates(rest, here, toward, aligned);
        assert forall|k: int| 0 <= k < c.len() implies qualifies(#[trigger] c[k], here, toward, aligned)
            && s.contains(c[k]) by {
            if k < cr.len() {
                assert(c[k] == cr[k]);
                let j = choose|j: int| 0 <= j < rest.len() && rest[j] == cr[k];
                assert(s[j] == rest[j]);
            } else {
                assert(c[k] == s.last());
                assert(s[s.len() - 1] == s.last());
            }
        }
        if c.len() == 0 {
            assert forall|i: int| 0 <= i < s.len() implies !qualifies(#[trigger] s[i], here, toward, aligned) by {
                if i < s.len() - 1 {
                    assert(s[i] == rest[i]);
                }
            }
        } else {
            if cr.len() == 0 {
                assert(qualifies(s[s.len() - 1], here, toward, aligned));
            } else {
                let i = choose|i: int| 0 <= i < rest.len() && qualifies(#[trigger] rest[i], here, toward, aligned);
                assert(s[i] == rest[i]);
            }
        }
    }
}

proof fn lemma_nearest(s: Seq<Placement>, here: Rect, toward: Toward)
    ensures
        s.len() == 0 <==> nearest(s, here, toward) is None,
        nearest(s, here, toward) matches Some(p) ==> s.contains(p),
    decreases s.len(),
{
    if s.len() > 0 {
        lemma_nearest(s.drop_last(), here, toward);
        assert(s[s.len() - 1] == s.last());
        if let Some(b) = nearest(s.drop_last(), here, toward) {
            let j = choose|j: int| 0 <= j < s.drop_last().len() && s.drop_last()[j] == b;
            assert(s[j] == b);
        }
    }
}

/// Directional focus never wraps: with no other panel past the focused
/// one's edge in the direction of travel, it goes nowhere. Otherwise it goes
/// to a panel past that edge, and to one sharing the focused panel's line
/// whenever any such panel does.
pub proof fn law_focus_stops_at_the_edge(s: Seq<Placement>, toward: Toward)
    ensures
        match first_focused(s) {
            None => focus_target(s, toward) is None,
            Some(current) => {
                &&& focus_target(s, toward) is None <==> forall|i: int|
                    0 <= i < s.len() ==> !qualifies(#[trigger] s[i], current.rect, toward, false)
                &&& focus_target(s, toward) matches Some(id) ==> exists|i: int|
                    0 <= i < s.len() && #[trigger] s[i].id == id && qualifies(
                        s[i],
                        current.rect,
                        toward,
                        (exists|j: int|
                            0 <= j < s.len() && qualifies(#[trigger] s[j], current.rect, toward, true)),
                    )
            },
        },
{
    if let Some(current) = first_focused(s) {
        let here = current.rect;
        lemma_candidates(s, here, toward, false);
        lemma_candidates(s, here, toward, true);
        let all = candidates(s, here, toward, false);
        let lined = candidates(s, here, toward, true);
        let pool = if lined.len() == 0 {
            all
        } else {
            lined
        };
        lemma_nearest(pool, here, toward);
        if lined.len() != 0 {
            let j = choose|j: int| 0 <= j < s.len() && qualifies(#[trigger] s[j], here, toward, true);
            assert(qualifies(s[j], here, toward, false));
        }
        if let Some(p) = nearest(pool, here, toward) {
            let k = choose|k: int| 0 <= k < pool.len() && pool[k] == p;
            assert(qualifies(pool[k], here, toward, lined.len() != 0));
            let i = choose|i: int| 0 <= i < s.len() && s[i] == pool[k];
            assert(s[i].id == p.id);
        }
    }
}


/// Grow widens or heightens the focused panel and never narrows it, and
/// shrink the other way round, whichever side of its divider the panel is on,
/// as long as that divider sits within the shares a resize can produce.
pub proof fn law_grow_and_shrink_act_on_the_focused_panel(layout: Layout, area: Rect)
    requires
        layout.wf(),
        area.wf(),
        active_share(layout.tree(), layout.focus_spec()) matches Some(share) ==> MIN_SHARE <= share
            <= MAX_SHARE,
    ensures
        apply_spec(layout, area, Command::Grow) matches Outcome::Changed(l) ==> resized_as_asked(
            first_rect_of(layout.tree().placements(area), layout.focus_spec()),
            first_rect_of(l.tree().placements(area), l.focus_spec()),
            RESIZE_STEP,
        ),
        apply_spec(layout, area, Command::Shrink) matches Outcome::Changed(l) ==> resized_as_asked(
            first_rect_of(layout.tree().placements(area), layout.focus_spec()),
            first_rect_of(l.tree().placements(area), l.focus_spec()),
            (-RESIZE_STEP) as i32,
        ),
{
    broadcast use lemma_build;

    law_resize_moves_the_divider_the_way_asked(layout.tree(), area, layout.focus_spec(), RESIZE_STEP);
    law_resize_moves_the_divider_the_way_asked(
        layout.tree(),
        area,
        layout.focus_spec(),
        (-RESIZE_STEP) as i32,
    );
}

} // verus!
