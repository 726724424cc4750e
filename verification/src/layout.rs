//! The split tree: what a layout is, and why it is a tree at all.
//!
//! Panels are leaves of a binary tree. Every split names a direction and a
//! ratio, so a layout survives a terminal resize by re-solving rather than by
//! remembering cells, and fits on one line of a configuration file.
//!
//! The tree carries the rule a bag of rectangles could not: no arrangement is
//! reachable in which a panel is too small to read. Mutations take `&self`
//! and hand back a new tree, so a refused one leaves nothing to roll back.
//!
//! A ratio is held in thousandths of its axis, which is exactly the precision
//! the serialised form carries.

use vstd::prelude::*;
use crate::rect::Rect;
use crate::codec::{
    lemma_encode_ends, lemma_encode_renumber, lemma_parse_encoded, renumber, encode_spec, ids_within, lemma_ids_within_below, parse_node, parse_spec, skip_spaces,
    skip_spaces_exec, write_node,
};
use crate::text::{
    chars_of, decimal, lemma_trim_len, owned, push_decimal, trim, trim_end_index, trim_spec,
    trim_start_index,
};

verus! {

/// The smallest panel that can still say anything, in cells.
pub const MIN_WIDTH: u16 = 24;

pub const MIN_HEIGHT: u16 = 6;

/// Below this width the arrangement sheds panels rather than shrinking them.
pub const NARROW_COLUMNS: u16 = 120;

/// A ratio of one whole axis, in thousandths.
pub const WHOLE: u16 = 1000;

/// An even split, in thousandths.
pub const HALF: u16 = 500;

/// The narrowest share a resize may leave either side of a divider.
pub const MIN_SHARE: i32 = 50;

/// The widest share a resize may give one side of a divider.
pub const MAX_SHARE: i32 = 950;

/// A stable handle for one leaf.
#[derive(Debug, Clone, Copy, PartialEq, Eq, Structural, PartialOrd, Ord, Hash)]
pub struct LeafId(pub u32);

/// The ten panel types, plus the state a freshly split leaf sits in.
#[derive(Debug, Clone, Copy, PartialEq, Eq, Structural)]
pub enum PanelType {
    Geometry,
    Health,
    Meshes,
    Materials,
    Silhouette,
    Uv,
    Validation,
    Distributions,
    Textures,
    Bounds,
    /// A leaf that exists but has not been given a panel yet.
    Catalogue,
}

/// The order panels leave in when the terminal is too narrow to hold them all.
pub open spec fn elision_order_spec() -> Seq<PanelType> {
    seq![
        PanelType::Silhouette,
        PanelType::Materials,
        PanelType::Textures,
        PanelType::Bounds,
        PanelType::Distributions,
    ]
}

/// Every type a reader can choose, in catalogue order.
pub open spec fn choosable_spec() -> Seq<PanelType> {
    seq![
        PanelType::Geometry,
        PanelType::Health,
        PanelType::Meshes,
        PanelType::Materials,
        PanelType::Silhouette,
        PanelType::Uv,
        PanelType::Validation,
        PanelType::Distributions,
        PanelType::Textures,
        PanelType::Bounds,
    ]
}

/// The order panels leave in when the terminal is too narrow to hold them all:
/// the picture goes first and the verdict goes last.
pub fn elision_order() -> (r: Vec<PanelType>)
    ensures
        r@ == elision_order_spec(),
{
    let r = vec![
        PanelType::Silhouette,
        PanelType::Materials,
        PanelType::Textures,
        PanelType::Bounds,
        PanelType::Distributions,
    ];
    assert(r@ =~= elision_order_spec());
    r
}

impl PanelType {
    /// Every type a reader can choose, in catalogue order.
    pub fn choosable() -> (r: Vec<PanelType>)
        ensures
            r@ == choosable_spec(),
    {
        let r = vec![
            PanelType::Geometry,
            PanelType::Health,
            PanelType::Meshes,
            PanelType::Materials,
            PanelType::Silhouette,
            PanelType::Uv,
            PanelType::Validation,
            PanelType::Distributions,
            PanelType::Textures,
            PanelType::Bounds,
        ];
        assert(r@ =~= choosable_spec());
        r
    }

    pub open spec fn name_spec(self) -> Seq<char> {
        match self {
            PanelType::Geometry => "geometry"@,
            PanelType::Health => "health"@,
            PanelType::Meshes => "meshes"@,
            PanelType::Materials => "materials"@,
            PanelType::Silhouette => "silhouette"@,
            PanelType::Uv => "uv"@,
            PanelType::Validation => "validation"@,
            PanelType::Distributions => "distributions"@,
            PanelType::Textures => "textures"@,
            PanelType::Bounds => "bounds"@,
            PanelType::Catalogue => "+ add"@,
        }
    }

    pub open spec fn token_spec(self) -> Seq<char> {
        match self {
            PanelType::Catalogue => "catalogue"@,
            other => other.name_spec(),
        }
    }

    /// The name as it appears in the top border, lowercase.
    pub fn name(self) -> (r: &'static str)
        ensures
            r@ == self.name_spec(),
    {
        match self {
            PanelType::Geometry => "geometry",
            PanelType::Health => "health",
            PanelType::Meshes => "meshes",
            PanelType::Materials => "materials",
            PanelType::Silhouette => "silhouette",
            PanelType::Uv => "uv",
            PanelType::Validation => "validation",
            PanelType::Distributions => "distributions",
            PanelType::Textures => "textures",
            PanelType::Bounds => "bounds",
            PanelType::Catalogue => "+ add",
        }
    }

    /// The token used in the serialised form. Distinct from the name because
    /// the catalogue's display name has a space in it.
    pub fn token(self) -> (r: &'static str)
        ensures
            r@ == self.token_spec(),
    {
        match self {
            PanelType::Catalogue => "catalogue",
            other => other.name(),
        }
    }
}

/// Which way a split divides its area.
#[derive(Debug, Clone, Copy, PartialEq, Eq, Structural)]
pub enum Direction {
    /// Children side by side; the ratio is the left child's share of width.
    Vertical,
    /// Children stacked; the ratio is the top child's share of height.
    Horizontal,
}

impl Direction {
    pub open spec fn token_spec(self) -> char {
        match self {
            Direction::Vertical => 'V',
            Direction::Horizontal => 'H',
        }
    }

    pub fn token(self) -> (c: char)
        ensures
            c == self.token_spec(),
    {
        match self {
            Direction::Vertical => 'V',
            Direction::Horizontal => 'H',
        }
    }
}

/// One node of the split tree. A ratio is the first child's share of the
/// axis, in thousandths.
#[derive(Debug, PartialEq, Eq)]
pub enum Node {
    Leaf { id: LeafId, panel: PanelType },
    Split { dir: Direction, ratio: u16, first: Box<Node>, second: Box<Node> },
}

/// Why a mutation was refused, in the words the panel border shows.
#[derive(Debug, Clone, Copy, PartialEq, Eq, Structural)]
pub enum Refusal {
    /// The operation would take a panel below the minimum.
    TooSmall,
    /// Closing the last panel would leave nothing focused.
    LastPanel,
}

impl Refusal {
    pub open spec fn message_spec(self) -> Seq<char> {
        match self {
            Refusal::TooSmall => "cannot split: 24x6 min"@,
            Refusal::LastPanel => "cannot close the last panel"@,
        }
    }

    /// The refusal in the words the focused panel's border shows.
    pub fn message(self) -> (s: String)
        ensures
            s@ == self.message_spec(),
    {
        match self {
            Refusal::TooSmall => String::from_str("cannot split: 24x6 min"),
            Refusal::LastPanel => String::from_str("cannot close the last panel"),
        }
    }
}

/// Where one leaf lands on the screen this frame.
#[derive(Debug, Clone, Copy, PartialEq, Eq)]
pub struct Placement {
    pub id: LeafId,
    pub panel: PanelType,
    pub rect: Rect,
    /// The jump address, one-based, in reading order.
    pub address: u8,
    pub focused: bool,
}

pub open spec fn fits_spec(rect: Rect) -> bool {
    rect.width >= MIN_WIDTH && rect.height >= MIN_HEIGHT
}

/// Whether a rect can hold a panel at all.
///
/// The one predicate. Split, resize, balance and the solve all ask it.
pub fn fits(rect: Rect) -> (b: bool)
    ensures
        b == fits_spec(rect),
{
    rect.width >= MIN_WIDTH && rect.height >= MIN_HEIGHT
}

/// A share of `total` cells, rounded to the nearest cell, halves up.
///
/// Ratios are held in exact thousandths rather than as binary floats, so a
/// share that a float product lands just below a half cell of (135 cells at
/// 0.7 is 94.5 exactly here, and a hair under it in `f32`) rounds up here
/// where a float split rounds down.
pub open spec fn scale_spec(total: u16, ratio: u16) -> int {
    (total * ratio + 500) / 1000
}

proof fn lemma_scale_bound(total: u16, ratio: u16)
    requires
        ratio <= WHOLE,
    ensures
        0 <= scale_spec(total, ratio) <= total,
{
    assert(total * ratio <= total * 1000) by (nonlinear_arith)
        requires
            ratio <= 1000,
    ;
    assert(0 <= total * ratio) by (nonlinear_arith);
}

fn scale(total: u16, ratio: u16) -> (cells: u16)
    requires
        ratio <= WHOLE,
    ensures
        cells == scale_spec(total, ratio),
        cells <= total,
{
    proof {
        lemma_scale_bound(total, ratio);
    }
    let product: u32 = (total as u32) * (ratio as u32);
    ((product + 500) / 1000) as u16
}

pub open spec fn divide_spec(area: Rect, dir: Direction, ratio: u16) -> (Rect, Rect) {
    match dir {
        Direction::Vertical => {
            let first = scale_spec(area.width, ratio);
            (
                Rect { x: area.x, y: area.y, width: first as u16, height: area.height },
                Rect {
                    x: (area.x + first) as u16,
                    y: area.y,
                    width: (area.width - first) as u16,
                    height: area.height,
                },
            )
        },
        Direction::Horizontal => {
            let first = scale_spec(area.height, ratio);
            (
                Rect { x: area.x, y: area.y, width: area.width, height: first as u16 },
                Rect {
                    x: area.x,
                    y: (area.y + first) as u16,
                    width: area.width,
                    height: (area.height - first) as u16,
                },
            )
        },
    }
}

/// The two halves of a division tile their parent exactly.
pub open spec fn tiles_spec(area: Rect, dir: Direction, a: Rect, b: Rect) -> bool {
    match dir {
        Direction::Vertical => {
            &&& a.x == area.x && a.y == area.y && b.y == area.y
            &&& a.height == area.height && b.height == area.height
            &&& a.x + a.width == b.x
            &&& b.x + b.width == area.x + area.width
        },
        Direction::Horizontal => {
            &&& a.x == area.x && a.y == area.y && b.x == area.x
            &&& a.width == area.width && b.width == area.width
            &&& a.y + a.height == b.y
            &&& b.y + b.height == area.y + area.height
        },
    }
}

pub proof fn lemma_divide_tiles(area: Rect, dir: Direction, ratio: u16)
    requires
        area.wf(),
        ratio <= WHOLE,
    ensures
        tiles_spec(area, dir, divide_spec(area, dir, ratio).0, divide_spec(area, dir, ratio).1),
        divide_spec(area, dir, ratio).0.wf(),
        divide_spec(area, dir, ratio).1.wf(),
{
    lemma_scale_bound(area.width, ratio);
    lemma_scale_bound(area.height, ratio);
}

/// Divide a rect, giving the first child `ratio` thousandths of the axis.
///
/// The second child takes the remainder rather than its own rounded share,
/// so the two always tile the parent exactly: no gap, no overlap.
pub fn divide(area: Rect, dir: Direction, ratio: u16) -> (r: (Rect, Rect))
    requires
        area.wf(),
        ratio <= WHOLE,
    ensures
        r == divide_spec(area, dir, ratio),
        tiles_spec(area, dir, r.0, r.1),
        r.0.wf(),
        r.1.wf(),
{
    proof {
        lemma_divide_tiles(area, dir, ratio);
    }
    match dir {
        Direction::Vertical => {
            let first = scale(area.width, ratio);
            (
                Rect { x: area.x, y: area.y, width: first, height: area.height },
                Rect {
                    x: area.x + first,
                    y: area.y,
                    width: area.width - first,
                    height: area.height,
                },
            )
        },
        Direction::Horizontal => {
            let first = scale(area.height, ratio);
            (
                Rect { x: area.x, y: area.y, width: area.width, height: first },
                Rect {
                    x: area.x,
                    y: area.y + first,
                    width: area.width,
                    height: area.height - first,
                },
            )
        },
    }
}

impl Node {
    /// Every ratio is a share of one whole axis.
    pub open spec fn ratios_ok(self) -> bool
        decreases self,
    {
        match self {
            Node::Leaf { .. } => true,
            Node::Split { ratio, first, second, .. } => {
                &&& ratio <= WHOLE
                &&& first.ratios_ok()
                &&& second.ratios_ok()
            },
        }
    }

    pub open spec fn contains_spec(self, id: LeafId) -> bool
        decreases self,
    {
        match self {
            Node::Leaf { id: leaf, .. } => leaf == id,
            Node::Split { first, second, .. } => first.contains_spec(id) || second.contains_spec(id),
        }
    }

    /// No leaf id appears twice.
    pub open spec fn distinct(self) -> bool
        decreases self,
    {
        match self {
            Node::Leaf { .. } => true,
            Node::Split { first, second, .. } => {
                &&& first.distinct()
                &&& second.distinct()
                &&& forall|x: LeafId| !(first.contains_spec(x) && second.contains_spec(x))
            },
        }
    }

    /// Every leaf id is below a bound.
    pub open spec fn ids_below(self, bound: u32) -> bool
        decreases self,
    {
        match self {
            Node::Leaf { id, .. } => id.0 < bound,
            Node::Split { first, second, .. } => first.ids_below(bound) && second.ids_below(bound),
        }
    }

    pub open spec fn is_leaf_spec(self) -> bool {
        self is Leaf
    }

    /// Every leaf, in reading order of the tree.
    pub open spec fn leaves_spec(self) -> Seq<(LeafId, PanelType)>
        decreases self,
    {
        match self {
            Node::Leaf { id, panel } => seq![(id, panel)],
            Node::Split { first, second, .. } => first.leaves_spec() + second.leaves_spec(),
        }
    }

    /// The panel type held by a leaf, or `None` if no leaf has that id.
    pub open spec fn panel_spec(self, id: LeafId) -> Option<PanelType>
        decreases self,
    {
        match self {
            Node::Leaf { id: leaf, panel } => if leaf == id {
                Some(panel)
            } else {
                None
            },
            Node::Split { first, second, .. } => match first.panel_spec(id) {
                Some(p) => Some(p),
                None => second.panel_spec(id),
            },
        }
    }

    pub open spec fn first_leaf_spec(self) -> LeafId
        decreases self,
    {
        match self {
            Node::Leaf { id, .. } => id,
            Node::Split { first, .. } => first.first_leaf_spec(),
        }
    }

    pub open spec fn leaf_count(self) -> nat
        decreases self,
    {
        match self {
            Node::Leaf { .. } => 1,
            Node::Split { first, second, .. } => first.leaf_count() + second.leaf_count(),
        }
    }

    /// Where every leaf lands in a pane, in tree order.
    pub open spec fn placements(self, area: Rect) -> Seq<Placement>
        decreases self,
    {
        match self {
            Node::Leaf { id, panel } => seq![
                Placement { id, panel, rect: area, address: 0, focused: false },
            ],
            Node::Split { dir, ratio, first, second } => {
                let halves = divide_spec(area, dir, ratio);
                first.placements(halves.0) + second.placements(halves.1)
            },
        }
    }

    /// A copy of this tree.
    pub fn copy(&self) -> (r: Node)
        ensures
            r == *self,
        decreases self,
    {
        match self {
            Node::Leaf { id, panel } => Node::Leaf { id: *id, panel: *panel },
            Node::Split { dir, ratio, first, second } => {
                let f = first.copy();
                let s = second.copy();
                Node::Split { dir: *dir, ratio: *ratio, first: Box::new(f), second: Box::new(s) }
            },
        }
    }

    pub fn is_leaf(&self) -> (b: bool)
        ensures
            b == self.is_leaf_spec(),
    {
        match self {
            Node::Leaf { .. } => true,
            Node::Split { .. } => false,
        }
    }
}

pub proof fn lemma_panel_contains(node: Node, id: LeafId)
    ensures
        node.panel_spec(id) is Some <==> node.contains_spec(id),
    decreases node,
{
    match node {
        Node::Leaf { .. } => {},
        Node::Split { first, second, .. } => {
            lemma_panel_contains(*first, id);
            lemma_panel_contains(*second, id);
        },
    }
}

pub proof fn lemma_first_leaf_contained(node: Node)
    ensures
        node.contains_spec(node.first_leaf_spec()),
    decreases node,
{
    match node {
        Node::Leaf { .. } => {},
        Node::Split { first, .. } => {
            lemma_first_leaf_contained(*first);
        },
    }
}

pub proof fn lemma_ids_below_contains(node: Node, bound: u32, id: LeafId)
    requires
        node.ids_below(bound),
        node.contains_spec(id),
    ensures
        id.0 < bound,
    decreases node,
{
    match node {
        Node::Leaf { .. } => {},
        Node::Split { first, second, .. } => {
            if first.contains_spec(id) {
                lemma_ids_below_contains(*first, bound, id);
            } else {
                lemma_ids_below_contains(*second, bound, id);
            }
        },
    }
}

/// Push every leaf's placement, in tree order.
fn place(node: &Node, area: Rect, out: &mut Vec<Placement>)
    requires
        node.ratios_ok(),
        area.wf(),
    ensures
        final(out)@ == old(out)@ + node.placements(area),
    decreases node,
{
    match node {
        Node::Leaf { id, panel } => {
            out.push(Placement { id: *id, panel: *panel, rect: area, address: 0, focused: false });
            assert(final(out)@ =~= old(out)@ + node.placements(area));
        },
        Node::Split { dir, ratio, first, second } => {
            let (a, b) = divide(area, *dir, *ratio);
            let ghost mid = out@;
            place(first, a, out);
            let ghost mid2 = out@;
            place(second, b, out);
            assert(out@ =~= old(out)@ + node.placements(area));
        },
    }
}

fn collect(node: &Node, out: &mut Vec<(LeafId, PanelType)>)
    ensures
        final(out)@ == old(out)@ + node.leaves_spec(),
    decreases node,
{
    match node {
        Node::Leaf { id, panel } => {
            out.push((*id, *panel));
            assert(final(out)@ =~= old(out)@ + node.leaves_spec());
        },
        Node::Split { first, second, .. } => {
            collect(first, out);
            collect(second, out);
            assert(out@ =~= old(out)@ + node.leaves_spec());
        },
    }
}

fn lookup(node: &Node, id: LeafId) -> (r: Option<PanelType>)
    ensures
        r == node.panel_spec(id),
    decreases node,
{
    match node {
        Node::Leaf { id: leaf, panel } => if *leaf == id {
            Some(*panel)
        } else {
            None
        },
        Node::Split { first, second, .. } => match lookup(first, id) {
            Some(p) => Some(p),
            None => lookup(second, id),
        },
    }
}

fn contains(node: &Node, id: LeafId) -> (b: bool)
    ensures
        b == node.contains_spec(id),
    decreases node,
{
    match node {
        Node::Leaf { id: leaf, .. } => *leaf == id,
        Node::Split { first, second, .. } => contains(first, id) || contains(second, id),
    }
}

fn first_leaf(node: &Node) -> (r: LeafId)
    ensures
        r == node.first_leaf_spec(),
    decreases node,
{
    match node {
        Node::Leaf { id, .. } => *id,
        Node::Split { first, .. } => first_leaf(first),
    }
}

} // verus!

verus! {

/// Reading order: top to bottom, then left to right.
pub open spec fn reads_before(a: Placement, b: Placement) -> bool {
    a.rect.y < b.rect.y || (a.rect.y == b.rect.y && a.rect.x <= b.rect.x)
}

/// Where `p` goes in a sequence already in reading order: after every
/// placement that reads before it or level with it, so equal keys keep
/// their order.
pub open spec fn insert_pos(s: Seq<Placement>, p: Placement) -> int
    decreases s.len(),
{
    if s.len() == 0 {
        0
    } else if reads_before(s.last(), p) {
        s.len() as int
    } else {
        insert_pos(s.drop_last(), p)
    }
}

/// A stable sort into reading order.
pub open spec fn reading_sort(s: Seq<Placement>) -> Seq<Placement>
    decreases s.len(),
{
    if s.len() == 0 {
        s
    } else {
        let r = reading_sort(s.drop_last());
        r.insert(insert_pos(r, s.last()), s.last())
    }
}

pub open spec fn address_spec(index: int) -> u8 {
    if index + 1 <= 255 {
        (index + 1) as u8
    } else {
        255u8
    }
}

/// Addresses in order, and focus marked on the leaf that holds it.
pub open spec fn numbered(s: Seq<Placement>, focus: LeafId) -> Seq<Placement> {
    Seq::new(
        s.len(),
        |i: int|
            Placement {
                id: s[i].id,
                panel: s[i].panel,
                rect: s[i].rect,
                address: address_spec(i),
                focused: s[i].id == focus,
            },
    )
}

pub open spec fn all_fit(s: Seq<Placement>) -> bool {
    forall|i: int| 0 <= i < s.len() ==> fits_spec(#[trigger] s[i].rect)
}

pub proof fn lemma_insert_pos_bounds(s: Seq<Placement>, p: Placement)
    ensures
        0 <= insert_pos(s, p) <= s.len(),
    decreases s.len(),
{
    if s.len() > 0 && !reads_before(s.last(), p) {
        lemma_insert_pos_bounds(s.drop_last(), p);
    }
}

pub proof fn lemma_reading_sort_len(s: Seq<Placement>)
    ensures
        reading_sort(s).len() == s.len(),
    decreases s.len(),
{
    if s.len() > 0 {
        lemma_reading_sort_len(s.drop_last());
        lemma_insert_pos_bounds(reading_sort(s.drop_last()), s.last());
    }
}

fn reads_before_exec(a: &Placement, b: &Placement) -> (r: bool)
    ensures
        r == reads_before(*a, *b),
{
    a.rect.y < b.rect.y || (a.rect.y == b.rect.y && a.rect.x <= b.rect.x)
}

/// Sort into reading order, keeping equal keys in the order they came.
fn sort_reading(v: Vec<Placement>) -> (r: Vec<Placement>)
    ensures
        r@ == reading_sort(v@),
{
    let mut out: Vec<Placement> = Vec::new();
    let mut i: usize = 0;
    assert(v@.take(0) =~= Seq::<Placement>::empty());
    while i < v.len()
        invariant
            0 <= i <= v.len(),
            out@ == reading_sort(v@.take(i as int)),
        decreases v.len() - i,
    {
        let p = v[i];
        proof {
            lemma_reading_sort_len(v@.take(i as int));
        }
        let mut j: usize = out.len();
        assert(out@.take(out@.len() as int) =~= out@);
        while j > 0 && !reads_before_exec(&out[j - 1], &p)
            invariant
                0 <= j <= out.len(),
                insert_pos(out@, p) == insert_pos(out@.take(j as int), p),
            decreases j,
        {
            assert(out@.take(j as int).drop_last() =~= out@.take(j - 1));
            j = j - 1;
        }
        proof {
            if j == 0 {
                assert(out@.take(0) =~= Seq::<Placement>::empty());
            } else {
                assert(out@.take(j as int).last() == out@[j - 1]);
            }
            assert(out@.take(out@.len() as int) =~= out@);
        }
        out.insert(j, p);
        i = i + 1;
        proof {
            assert(v@.take(i as int).drop_last() =~= v@.take(i - 1));
            assert(v@.take(i as int).last() == p);
        }
    }
    assert(v@.take(v@.len() as int) =~= v@);
    out
}

fn number(v: Vec<Placement>, focus: LeafId) -> (r: Vec<Placement>)
    ensures
        r@ == numbered(v@, focus),
{
    let mut out: Vec<Placement> = Vec::new();
    let mut i: usize = 0;
    while i < v.len()
        invariant
            0 <= i <= v.len(),
            out@.len() == i,
            forall|k: int| 0 <= k < i ==> out@[k] == #[trigger] numbered(v@, focus)[k],
        decreases v.len() - i,
    {
        let address: u8 = if i < 255 {
            (i + 1) as u8
        } else {
            255
        };
        let p = v[i];
        out.push(
            Placement {
                id: p.id,
                panel: p.panel,
                rect: p.rect,
                address,
                focused: p.id == focus,
            },
        );
        i = i + 1;
    }
    assert(out@ =~= numbered(v@, focus));
    out
}

fn every_fit(v: &Vec<Placement>) -> (b: bool)
    ensures
        b == all_fit(v@),
{
    let mut i: usize = 0;
    while i < v.len()
        invariant
            0 <= i <= v.len(),
            forall|k: int| 0 <= k < i ==> fits_spec(#[trigger] v@[k].rect),
        decreases v.len() - i,
    {
        if !fits(v[i].rect) {
            return false;
        }
        i = i + 1;
    }
    true
}

/// What an arrangement built from parts reads back as.
pub broadcast proof fn lemma_build(tree: Node, focus: LeafId, next_id: u32)
    ensures
        (#[trigger] Layout::build(tree, focus, next_id)).tree() == tree,
        Layout::build(tree, focus, next_id).focus_spec() == focus,
        Layout::build(tree, focus, next_id).next_id_spec() == next_id,
{
}

/// An arrangement is its tree, its focus and its counter, and nothing else.
pub proof fn lemma_rebuild(l: Layout)
    ensures
        Layout::build(l.tree(), l.focus_spec(), l.next_id_spec()) == l,
{
}

/// A whole arrangement: the tree, who has focus, and the id counter.
#[derive(Debug, PartialEq, Eq)]
pub struct Layout {
    root: Node,
    focus: LeafId,
    next_id: u32,
}

impl Layout {
    /// The arrangement is a usable tree: every ratio is a share of its axis,
    /// no leaf id repeats, focus names a leaf that exists, and the counter is
    /// ahead of every id handed out.
    #[verifier::type_invariant]
    pub open spec fn wf(self) -> bool {
        &&& self.tree().ratios_ok()
        &&& self.tree().distinct()
        &&& self.tree().contains_spec(self.focus_spec())
        &&& self.tree().ids_below(self.next_id_spec())
    }

    /// The tree.
    pub closed spec fn tree(self) -> Node {
        self.root
    }

    /// The leaf holding focus.
    pub closed spec fn focus_spec(self) -> LeafId {
        self.focus
    }

    /// The id the next new leaf will take.
    pub closed spec fn next_id_spec(self) -> u32 {
        self.next_id
    }

    /// The arrangement with this tree, focus and counter.
    pub closed spec fn build(tree: Node, focus: LeafId, next_id: u32) -> Layout {
        Layout { root: tree, focus, next_id }
    }

    /// The arrangement with focus moved, ignoring a leaf not in the tree.
    pub open spec fn focused_on(self, id: LeafId) -> Layout {
        Layout::build(
            self.tree(),
            if self.tree().contains_spec(id) {
                id
            } else {
                self.focus_spec()
            },
            self.next_id_spec(),
        )
    }

    /// The arrangement with focus on the panel showing a jump address.
    pub open spec fn focused_on_address(self, area: Rect, address: u8) -> Layout {
        match id_at_address(self.solve_spec(area, None), address) {
            Some(id) => self.focused_on(id),
            None => self,
        }
    }

    /// The arrangement with the focused leaf showing another panel type.
    pub open spec fn assigned(self, panel: PanelType) -> Layout {
        Layout::build(
            set_panel_spec(self.tree(), self.focus_spec(), panel).0,
            self.focus_spec(),
            self.next_id_spec(),
        )
    }

    /// The id the next new leaf will take.
    pub fn next_id(&self) -> (r: u32)
        ensures
            r == self.next_id_spec(),
    {
        self.next_id
    }

    /// Where every panel lands this frame, as the solve computes it.
    pub open spec fn solve_spec(self, area: Rect, maximized: Option<LeafId>) -> Seq<Placement> {
        if maximized is Some && self.tree().panel_spec(maximized.unwrap()) is Some {
            seq![
                Placement {
                    id: maximized.unwrap(),
                    panel: self.tree().panel_spec(maximized.unwrap()).unwrap(),
                    rect: area,
                    address: 1,
                    focused: true,
                },
            ]
        } else {
            let raw = self.tree().placements(area);
            let chosen = if all_fit(raw) {
                raw
            } else {
                seq![
                    Placement {
                        id: self.focus_spec(),
                        panel: match self.tree().panel_spec(self.focus_spec()) {
                            Some(p) => p,
                            None => PanelType::Geometry,
                        },
                        rect: area,
                        address: 1,
                        focused: true,
                    },
                ]
            };
            numbered(reading_sort(chosen), self.focus_spec())
        }
    }

    /// A single panel filling the pane.
    pub fn single(panel: PanelType) -> (r: Layout)
        ensures
            r.tree() == (Node::Leaf { id: LeafId(0), panel }),
            r.focus_spec() == LeafId(0),
            r.next_id_spec() == 1,
    {
        Layout { root: Node::Leaf { id: LeafId(0), panel }, focus: LeafId(0), next_id: 1 }
    }

    pub fn focus(&self) -> (r: LeafId)
        ensures
            r == self.focus_spec(),
    {
        self.focus
    }

    /// Every leaf in the tree's order.
    pub fn leaves(&self) -> (r: Vec<(LeafId, PanelType)>)
        ensures
            r@ == self.tree().leaves_spec(),
    {
        let mut out: Vec<(LeafId, PanelType)> = Vec::new();
        collect(&self.root, &mut out);
        assert(out@ =~= self.tree().leaves_spec());
        out
    }

    pub fn panel_of(&self, id: LeafId) -> (r: Option<PanelType>)
        ensures
            r == self.tree().panel_spec(id),
            r is Some <==> self.tree().contains_spec(id),
    {
        proof {
            lemma_panel_contains(self.root, id);
        }
        lookup(&self.root, id)
    }

    /// A copy of this arrangement.
    pub fn duplicate(&self) -> (r: Layout)
        ensures
            r.tree() == self.tree(),
            r.focus_spec() == self.focus_spec(),
            r.next_id_spec() == self.next_id_spec(),
    {
        proof {
            use_type_invariant(self);
        }
        Layout { root: self.root.copy(), focus: self.focus, next_id: self.next_id }
    }

    /// Move focus, ignoring a leaf that is not in this tree.
    pub fn with_focus(&self, id: LeafId) -> (r: Layout)
        ensures
            r == self.focused_on(id),
            r.tree() == self.tree(),
            r.next_id_spec() == self.next_id_spec(),
            r.focus_spec() == (if self.tree().contains_spec(id) {
                id
            } else {
                self.focus_spec()
            }),
    {
        proof {
            use_type_invariant(self);
        }
        let focus = if contains(&self.root, id) {
            id
        } else {
            self.focus
        };
        let r = Layout { root: self.root.copy(), focus, next_id: self.next_id };
        proof {
            lemma_rebuild(r);
        }
        r
    }

    /// Solve the tree into placements for a given pane.
    ///
    /// `maximized` renders that leaf over the whole pane and every other leaf
    /// not at all, without the tree knowing anything about it. A tree the
    /// pane cannot satisfy is not mutated to fit: the focused panel takes the
    /// pane instead. Addresses follow reading order.
    pub fn solve(&self, area: Rect, maximized: Option<LeafId>) -> (r: Vec<Placement>)
        requires
            area.wf(),
        ensures
            r@ == self.solve_spec(area, maximized),
    {
        proof {
            use_type_invariant(self);
        }
        match maximized {
            Some(id) => match lookup(&self.root, id) {
                Some(panel) => {
                    return vec![Placement { id, panel, rect: area, address: 1, focused: true }];
                },
                None => {},
            },
            None => {},
        }
        let mut out: Vec<Placement> = Vec::new();
        place(&self.root, area, &mut out);
        assert(out@ =~= self.tree().placements(area));
        if !every_fit(&out) {
            let panel = match lookup(&self.root, self.focus) {
                Some(p) => p,
                None => PanelType::Geometry,
            };
            out = vec![Placement { id: self.focus, panel, rect: area, address: 1, focused: true }];
            assert(out@ =~= seq![
                Placement { id: self.focus, panel, rect: area, address: 1, focused: true },
            ]);
        }
        let sorted = sort_reading(out);
        number(sorted, self.focus)
    }

    /// Where a leaf lands in a pane, if it is in the tree.
    fn rect_of(&self, id: LeafId, area: Rect) -> (r: Option<Rect>)
        requires
            area.wf(),
        ensures
            r == first_rect_of(self.tree().placements(area), id),
    {
        proof {
            use_type_invariant(self);
        }
        let mut out: Vec<Placement> = Vec::new();
        place(&self.root, area, &mut out);
        assert(out@ =~= self.tree().placements(area));
        let mut i: usize = 0;
        assert(out@.skip(0) =~= out@);
        while i < out.len()
            invariant
                0 <= i <= out.len(),
                out@ == self.tree().placements(area),
                first_rect_of(out@, id) == first_rect_of(out@.skip(i as int), id),
            decreases out.len() - i,
        {
            assert(out@.skip(i as int)[0] == out@[i as int]);
            if out[i].id == id {
                assert(out@.skip(i as int).len() > 0);
                assert(first_rect_of(out@.skip(i as int), id) == Some(out@[i as int].rect));
                return Some(out[i].rect);
            }
            assert(out@.skip(i as int).drop_first() =~= out@.skip(i + 1));
            i = i + 1;
        }
        None
    }
}

/// The rect of the first placement with an id, if any.
pub open spec fn first_rect_of(s: Seq<Placement>, id: LeafId) -> Option<Rect>
    decreases s.len(),
{
    if s.len() == 0 {
        None
    } else if s[0].id == id {
        Some(s[0].rect)
    } else {
        first_rect_of(s.drop_first(), id)
    }
}

} // verus!

verus! {

/// Turn the leaf `id` into a split with the original first and a fresh
/// catalogue leaf second.
pub open spec fn split_leaf_spec(node: Node, id: LeafId, dir: Direction, new_id: LeafId) -> (Node, bool)
    decreases node,
{
    match node {
        Node::Leaf { id: leaf, panel } => if leaf == id {
            (
                Node::Split {
                    dir,
                    ratio: HALF,
                    first: Box::new(Node::Leaf { id, panel }),
                    second: Box::new(Node::Leaf { id: new_id, panel: PanelType::Catalogue }),
                },
                true,
            )
        } else {
            (node, false)
        },
        Node::Split { dir: d, ratio, first, second } => {
            let f = split_leaf_spec(*first, id, dir, new_id);
            if f.1 {
                (Node::Split { dir: d, ratio, first: Box::new(f.0), second }, true)
            } else {
                let s = split_leaf_spec(*second, id, dir, new_id);
                (Node::Split { dir: d, ratio, first, second: Box::new(s.0) }, s.1)
            }
        },
    }
}

pub open spec fn set_panel_spec(node: Node, id: LeafId, panel: PanelType) -> (Node, bool)
    decreases node,
{
    match node {
        Node::Leaf { id: leaf, .. } => if leaf == id {
            (Node::Leaf { id: leaf, panel }, true)
        } else {
            (node, false)
        },
        Node::Split { dir, ratio, first, second } => {
            let f = set_panel_spec(*first, id, panel);
            if f.1 {
                (Node::Split { dir, ratio, first: Box::new(f.0), second }, true)
            } else {
                let s = set_panel_spec(*second, id, panel);
                (Node::Split { dir, ratio, first, second: Box::new(s.0) }, s.1)
            }
        },
    }
}

/// Remove a leaf, collapsing its parent into the surviving sibling, and name
/// a leaf of the survivor for focus to land on.
pub open spec fn remove_leaf_spec(node: Node, id: LeafId) -> (Node, Option<LeafId>)
    decreases node,
{
    match node {
        Node::Leaf { .. } => (node, None),
        Node::Split { dir, ratio, first, second } => {
            if first.is_leaf_spec() && first.first_leaf_spec() == id {
                (*second, Some(second.first_leaf_spec()))
            } else if second.is_leaf_spec() && second.first_leaf_spec() == id {
                (*first, Some(first.first_leaf_spec()))
            } else {
                let f = remove_leaf_spec(*first, id);
                if f.1 is Some {
                    (Node::Split { dir, ratio, first: Box::new(f.0), second }, f.1)
                } else {
                    let s = remove_leaf_spec(*second, id);
                    (Node::Split { dir, ratio, first, second: Box::new(s.0) }, s.1)
                }
            }
        },
    }
}

pub open spec fn clamp_share(value: int) -> u16 {
    if value < MIN_SHARE {
        MIN_SHARE as u16
    } else if value > MAX_SHARE {
        MAX_SHARE as u16
    } else {
        value as u16
    }
}

/// Nudge the ratio of the split immediately above a leaf by `delta`
/// thousandths, growing the side that holds the leaf.
pub open spec fn adjust_spec(node: Node, id: LeafId, delta: i32) -> (Node, bool)
    decreases node,
{
    match node {
        Node::Leaf { .. } => (node, false),
        Node::Split { dir, ratio, first, second } => {
            let in_first = first.contains_spec(id);
            let in_second = second.contains_spec(id);
            if (in_first || in_second) && (first.is_leaf_spec() || second.is_leaf_spec()) {
                let signed: int = if in_first {
                    delta as int
                } else {
                    -delta
                };
                (Node::Split { dir, ratio: clamp_share(ratio + signed), first, second }, true)
            } else if in_first {
                let f = adjust_spec(*first, id, delta);
                (Node::Split { dir, ratio, first: Box::new(f.0), second }, f.1)
            } else if in_second {
                let s = adjust_spec(*second, id, delta);
                (Node::Split { dir, ratio, first, second: Box::new(s.0) }, s.1)
            } else {
                (node, false)
            }
        },
    }
}

pub open spec fn even_spec(node: Node) -> Node
    decreases node,
{
    match node {
        Node::Leaf { .. } => node,
        Node::Split { dir, first, second, .. } => Node::Split {
            dir,
            ratio: HALF,
            first: Box::new(even_spec(*first)),
            second: Box::new(even_spec(*second)),
        },
    }
}

#[verifier::spinoff_prover]
proof fn lemma_split_leaf(node: Node, id: LeafId, dir: Direction, new_id: LeafId, bound: u32)
    requires
        node.ratios_ok(),
        node.distinct(),
        node.ids_below(bound),
        new_id.0 == bound,
        bound < u32::MAX,
        node.contains_spec(id),
    ensures
        split_leaf_spec(node, id, dir, new_id).1,
        split_leaf_spec(node, id, dir, new_id).0.ratios_ok(),
        split_leaf_spec(node, id, dir, new_id).0.distinct(),
        split_leaf_spec(node, id, dir, new_id).0.ids_below((bound + 1) as u32),
        forall|x: LeafId|
            #[trigger] split_leaf_spec(node, id, dir, new_id).0.contains_spec(x) <==> (
            node.contains_spec(x) || x == new_id),
    decreases node,
{
    match node {
        Node::Leaf { id: leaf, panel } => {
            let l1 = Node::Leaf { id, panel };
            let l2 = Node::Leaf { id: new_id, panel: PanelType::Catalogue };
            assert(l1.ratios_ok());
            assert(l2.ratios_ok());
            assert(l1.distinct() && l2.distinct());
            let r = split_leaf_spec(node, id, dir, new_id).0;
            assert(r == Node::Split { dir, ratio: HALF, first: Box::new(l1), second: Box::new(l2) });
            assert(l1.ids_below((bound + 1) as u32));
            assert(l2.ids_below((bound + 1) as u32));
            assert forall|x: LeafId|
                #[trigger] split_leaf_spec(node, id, dir, new_id).0.contains_spec(x) <==> (
                node.contains_spec(x) || x == new_id) by {
                assert(l1.contains_spec(x) <==> x == id);
                assert(l2.contains_spec(x) <==> x == new_id);
            }
            assert(forall|x: LeafId|
                #[trigger] split_leaf_spec(node, id, dir, new_id).0.contains_spec(x) <==> (
                node.contains_spec(x) || x == new_id));
        },
        Node::Split { dir: d, ratio, first, second } => {
            lemma_split_leaf_unchanged(*first, id, dir, new_id);
            lemma_split_leaf_unchanged(*second, id, dir, new_id);
            if first.contains_spec(id) {
                lemma_split_leaf(*first, id, dir, new_id, bound);
                lemma_ids_below_weaken(*second, bound, (bound + 1) as u32);
                if second.contains_spec(new_id) {
                    lemma_ids_below_contains(*second, bound, new_id);
                }
                let f = split_leaf_spec(*first, id, dir, new_id).0;
                assert(split_leaf_spec(node, id, dir, new_id).0 == Node::Split {
                    dir: d,
                    ratio,
                    first: Box::new(f),
                    second,
                });
                assert forall|x: LeafId| !(f.contains_spec(x) && second.contains_spec(x)) by {
                    assert(f.contains_spec(x) <==> (first.contains_spec(x) || x == new_id));
                }
                assert forall|x: LeafId|
                    #[trigger] split_leaf_spec(node, id, dir, new_id).0.contains_spec(x) <==> (
                    node.contains_spec(x) || x == new_id) by {
                    assert(f.contains_spec(x) <==> (first.contains_spec(x) || x == new_id));
                }
                assert(forall|x: LeafId|
                    #[trigger] split_leaf_spec(node, id, dir, new_id).0.contains_spec(x) <==> (
                    node.contains_spec(x) || x == new_id));
            } else {
                lemma_split_leaf(*second, id, dir, new_id, bound);
                lemma_ids_below_weaken(*first, bound, (bound + 1) as u32);
                if first.contains_spec(new_id) {
                    lemma_ids_below_contains(*first, bound, new_id);
                }
                let g = split_leaf_spec(*second, id, dir, new_id).0;
                assert(split_leaf_spec(node, id, dir, new_id).0 == Node::Split {
                    dir: d,
                    ratio,
                    first,
                    second: Box::new(g),
                });
                assert forall|x: LeafId| !(first.contains_spec(x) && g.contains_spec(x)) by {
                    assert(g.contains_spec(x) <==> (second.contains_spec(x) || x == new_id));
                }
                assert forall|x: LeafId|
                    #[trigger] split_leaf_spec(node, id, dir, new_id).0.contains_spec(x) <==> (
                    node.contains_spec(x) || x == new_id) by {
                    assert(g.contains_spec(x) <==> (second.contains_spec(x) || x == new_id));
                }
                assert(forall|x: LeafId|
                    #[trigger] split_leaf_spec(node, id, dir, new_id).0.contains_spec(x) <==> (
                    node.contains_spec(x) || x == new_id));
            }
        },
    }
}

proof fn lemma_ids_below_weaken(node: Node, a: u32, b: u32)
    requires
        node.ids_below(a),
        a <= b,
    ensures
        node.ids_below(b),
    decreases node,
{
    match node {
        Node::Leaf { .. } => {},
        Node::Split { first, second, .. } => {
            lemma_ids_below_weaken(*first, a, b);
            lemma_ids_below_weaken(*second, a, b);
        },
    }
}

proof fn lemma_set_panel(node: Node, id: LeafId, panel: PanelType, bound: u32)
    requires
        node.ratios_ok(),
        node.distinct(),
        node.ids_below(bound),
    ensures
        set_panel_spec(node, id, panel).1 == node.contains_spec(id),
        set_panel_spec(node, id, panel).0.ratios_ok(),
        set_panel_spec(node, id, panel).0.distinct(),
        set_panel_spec(node, id, panel).0.ids_below(bound),
        forall|x: LeafId| set_panel_spec(node, id, panel).0.contains_spec(x) <==> node.contains_spec(x),
        node.contains_spec(id) ==> set_panel_spec(node, id, panel).0.panel_spec(id) == Some(panel),
    decreases node,
{
    match node {
        Node::Leaf { .. } => {},
        Node::Split { dir, ratio, first, second } => {
            lemma_set_panel(*first, id, panel, bound);
            lemma_set_panel(*second, id, panel, bound);
            lemma_set_panel_unchanged(*first, id, panel);
            lemma_set_panel_unchanged(*second, id, panel);
            lemma_panel_contains(*first, id);
            let f = set_panel_spec(*first, id, panel);
            let g = set_panel_spec(*second, id, panel);
            if f.1 {
                assert(set_panel_spec(node, id, panel).0 == Node::Split {
                    dir,
                    ratio,
                    first: Box::new(f.0),
                    second,
                });
                assert forall|x: LeafId| !(f.0.contains_spec(x) && second.contains_spec(x)) by {
                    assert(f.0.contains_spec(x) <==> first.contains_spec(x));
                }
                assert forall|x: LeafId|
                    set_panel_spec(node, id, panel).0.contains_spec(x) <==> node.contains_spec(x) by {
                    assert(f.0.contains_spec(x) <==> first.contains_spec(x));
                }
            } else {
                assert(set_panel_spec(node, id, panel).0 == Node::Split {
                    dir,
                    ratio,
                    first,
                    second: Box::new(g.0),
                });
                assert forall|x: LeafId| !(first.contains_spec(x) && g.0.contains_spec(x)) by {
                    assert(g.0.contains_spec(x) <==> second.contains_spec(x));
                }
                assert forall|x: LeafId|
                    set_panel_spec(node, id, panel).0.contains_spec(x) <==> node.contains_spec(x) by {
                    assert(g.0.contains_spec(x) <==> second.contains_spec(x));
                }
                if node.contains_spec(id) {
                    lemma_panel_contains(*first, id);
                    assert(set_panel_spec(node, id, panel).0.panel_spec(id) == g.0.panel_spec(id));
                }
            }
        },
    }
}

proof fn lemma_remove_absent(node: Node, id: LeafId)
    requires
        !node.contains_spec(id),
    ensures
        remove_leaf_spec(node, id) == (node, None::<LeafId>),
    decreases node,
{
    match node {
        Node::Leaf { .. } => {},
        Node::Split { first, second, .. } => {
            lemma_first_leaf_contained(*first);
            lemma_first_leaf_contained(*second);
            lemma_remove_absent(*first, id);
            lemma_remove_absent(*second, id);
        },
    }
}

proof fn lemma_leaf_first(node: Node)
    ensures
        node.is_leaf_spec() ==> forall|x: LeafId|
            #[trigger] node.contains_spec(x) <==> x == node.first_leaf_spec(),
{
}

proof fn lemma_remove_leaf(node: Node, id: LeafId, bound: u32)
    requires
        node.ratios_ok(),
        node.distinct(),
        node.ids_below(bound),
        node.contains_spec(id),
        !node.is_leaf_spec(),
    ensures
        remove_leaf_spec(node, id).1 is Some,
        remove_leaf_spec(node, id).0.ratios_ok(),
        remove_leaf_spec(node, id).0.distinct(),
        remove_leaf_spec(node, id).0.ids_below(bound),
        remove_leaf_spec(node, id).0.contains_spec(remove_leaf_spec(node, id).1.unwrap()),
        forall|x: LeafId|
            #[trigger] remove_leaf_spec(node, id).0.contains_spec(x) <==> (node.contains_spec(x)
                && x != id),
    decreases node,
{
    match node {
        Node::Leaf { .. } => {},
        Node::Split { dir, ratio, first, second } => {
            lemma_first_leaf_contained(*first);
            lemma_first_leaf_contained(*second);
            if first.is_leaf_spec() && first.first_leaf_spec() == id {
                assert forall|x: LeafId|
                    #[trigger] remove_leaf_spec(node, id).0.contains_spec(x) <==> (node.contains_spec(x)
                        && x != id) by {
                    assert(first.contains_spec(x) <==> x == id);
                }
            } else if second.is_leaf_spec() && second.first_leaf_spec() == id {
                assert forall|x: LeafId|
                    #[trigger] remove_leaf_spec(node, id).0.contains_spec(x) <==> (node.contains_spec(x)
                        && x != id) by {
                    assert(second.contains_spec(x) <==> x == id);
                }
            } else if first.contains_spec(id) {
                lemma_leaf_first(*first);
                lemma_remove_leaf(*first, id, bound);
                let f = remove_leaf_spec(*first, id);
                assert(remove_leaf_spec(node, id) == (
                    Node::Split { dir, ratio, first: Box::new(f.0), second },
                    f.1,
                ));
                assert forall|x: LeafId| !(f.0.contains_spec(x) && second.contains_spec(x)) by {
                    assert(f.0.contains_spec(x) <==> (first.contains_spec(x) && x != id));
                }
                assert forall|x: LeafId|
                    #[trigger] remove_leaf_spec(node, id).0.contains_spec(x) <==> (node.contains_spec(x)
                        && x != id) by {
                    assert(f.0.contains_spec(x) <==> (first.contains_spec(x) && x != id));
                }
            } else {
                assert(second.contains_spec(id));
                lemma_leaf_first(*second);
                lemma_remove_absent(*first, id);
                lemma_remove_leaf(*second, id, bound);
                let g = remove_leaf_spec(*second, id);
                assert(remove_leaf_spec(node, id) == (
                    Node::Split { dir, ratio, first, second: Box::new(g.0) },
                    g.1,
                ));
                assert forall|x: LeafId| !(first.contains_spec(x) && g.0.contains_spec(x)) by {
                    assert(g.0.contains_spec(x) <==> (second.contains_spec(x) && x != id));
                }
                assert forall|x: LeafId|
                    #[trigger] remove_leaf_spec(node, id).0.contains_spec(x) <==> (node.contains_spec(x)
                        && x != id) by {
                    assert(g.0.contains_spec(x) <==> (second.contains_spec(x) && x != id));
                }
            }
        },
    }
}

proof fn lemma_adjust(node: Node, id: LeafId, delta: i32, bound: u32)
    requires
        node.ratios_ok(),
        node.distinct(),
        node.ids_below(bound),
    ensures
        adjust_spec(node, id, delta).0.ratios_ok(),
        adjust_spec(node, id, delta).0.distinct(),
        adjust_spec(node, id, delta).0.ids_below(bound),
        forall|x: LeafId| adjust_spec(node, id, delta).0.contains_spec(x) <==> node.contains_spec(x),
    decreases node,
{
    match node {
        Node::Leaf { .. } => {},
        Node::Split { dir, ratio, first, second } => {
            lemma_adjust(*first, id, delta, bound);
            lemma_adjust(*second, id, delta, bound);
            let f = adjust_spec(*first, id, delta).0;
            let g = adjust_spec(*second, id, delta).0;
            let r = adjust_spec(node, id, delta).0;
            assert forall|x: LeafId| !(f.contains_spec(x) && second.contains_spec(x)) by {
                assert(f.contains_spec(x) <==> first.contains_spec(x));
            }
            assert forall|x: LeafId| !(first.contains_spec(x) && g.contains_spec(x)) by {
                assert(g.contains_spec(x) <==> second.contains_spec(x));
            }
            assert forall|x: LeafId| adjust_spec(node, id, delta).0.contains_spec(x) <==> node.contains_spec(x) by {
                assert(f.contains_spec(x) <==> first.contains_spec(x));
                assert(g.contains_spec(x) <==> second.contains_spec(x));
            }
        },
    }
}

/// The share of the divider a resize moves: the split immediately above
/// the leaf, as `adjust_spec` finds it; none when the leaf has no split
/// above it.
pub open spec fn active_share(node: Node, id: LeafId) -> Option<u16>
    decreases node,
{
    match node {
        Node::Leaf { .. } => None,
        Node::Split { ratio, first, second, .. } => {
            let in_first = first.contains_spec(id);
            let in_second = second.contains_spec(id);
            if (in_first || in_second) && (first.is_leaf_spec() || second.is_leaf_spec()) {
                Some(ratio)
            } else if in_first {
                active_share(*first, id)
            } else if in_second {
                active_share(*second, id)
            } else {
                None
            }
        },
    }
}

/// A panel's rect after a resize, against its rect before: with a delta of
/// zero or more it is at least as wide and as tall as it was, and with a
/// delta of zero or less at most as wide and as tall.
pub open spec fn resized_as_asked(before: Option<Rect>, after: Option<Rect>, delta: i32) -> bool {
    &&& before is Some
    &&& after is Some
    &&& delta >= 0 ==> after.unwrap().width >= before.unwrap().width && after.unwrap().height
        >= before.unwrap().height
    &&& delta <= 0 ==> after.unwrap().width <= before.unwrap().width && after.unwrap().height
        <= before.unwrap().height
}

proof fn lemma_first_rect_concat(a: Seq<Placement>, b: Seq<Placement>, id: LeafId)
    ensures
        first_rect_of(a + b, id) == if first_rect_of(a, id) is Some {
            first_rect_of(a, id)
        } else {
            first_rect_of(b, id)
        },
    decreases a.len(),
{
    if a.len() == 0 {
        assert(a + b =~= b);
    } else {
        assert((a + b)[0] == a[0]);
        assert((a + b).drop_first() =~= a.drop_first() + b);
        lemma_first_rect_concat(a.drop_first(), b, id);
    }
}

proof fn lemma_first_rect_found(node: Node, area: Rect, id: LeafId)
    ensures
        first_rect_of(node.placements(area), id) is Some <==> node.contains_spec(id),
    decreases node,
{
    match node {
        Node::Leaf { .. } => {
            let s = node.placements(area);
            assert(first_rect_of(s.drop_first(), id) is None);
        },
        Node::Split { dir, ratio, first, second } => {
            let h = divide_spec(area, dir, ratio);
            lemma_first_rect_found(*first, h.0, id);
            lemma_first_rect_found(*second, h.1, id);
            lemma_first_rect_concat(first.placements(h.0), second.placements(h.1), id);
        },
    }
}

proof fn lemma_split_rect(node: Node, area: Rect, id: LeafId)
    requires
        node is Split,
    ensures
        ({
            let (dir, ratio, first, second) = (node->dir, node->ratio, *node->first, *node->second);
            let h = divide_spec(area, dir, ratio);
            first_rect_of(node.placements(area), id) == if first.contains_spec(id) {
                first_rect_of(first.placements(h.0), id)
            } else {
                first_rect_of(second.placements(h.1), id)
            }
        }),
{
    let (dir, ratio, first, second) = (node->dir, node->ratio, *node->first, *node->second);
    let h = divide_spec(area, dir, ratio);
    lemma_first_rect_found(first, h.0, id);
    lemma_first_rect_concat(first.placements(h.0), second.placements(h.1), id);
}

proof fn lemma_scale_grows_with_total(t1: u16, t2: u16, ratio: u16)
    requires
        t1 <= t2,
        ratio <= WHOLE,
    ensures
        scale_spec(t1, ratio) <= scale_spec(t2, ratio),
        t1 - scale_spec(t1, ratio) <= t2 - scale_spec(t2, ratio),
{
    let x = t1 * ratio + 500;
    let y = t2 * ratio + 500;
    assert(x <= y && y <= x + (t2 - t1) * 1000) by (nonlinear_arith)
        requires
            t1 <= t2,
            0 <= ratio <= 1000,
            x == t1 * ratio + 500,
            y == t2 * ratio + 500,
    ;
    vstd::arithmetic::div_mod::lemma_div_is_ordered(x, y, 1000);
    vstd::arithmetic::div_mod::lemma_div_is_ordered(y, x + (t2 - t1) * 1000, 1000);
    vstd::arithmetic::div_mod::lemma_hoist_over_denominator(x, t2 - t1, 1000);
}

proof fn lemma_scale_grows_with_ratio(total: u16, r1: u16, r2: u16)
    requires
        r1 <= r2,
    ensures
        scale_spec(total, r1) <= scale_spec(total, r2),
{
    assert(total * r1 <= total * r2) by (nonlinear_arith)
        requires
            r1 <= r2,
            0 <= total,
    ;
    vstd::arithmetic::div_mod::lemma_div_is_ordered(total * r1 + 500, total * r2 + 500, 1000);
}

/// A leaf's rect in a larger pane is at least as large on each axis.
proof fn lemma_rect_grows_with_area(node: Node, a1: Rect, a2: Rect, id: LeafId)
    requires
        node.ratios_ok(),
        node.contains_spec(id),
        a1.wf(),
        a2.wf(),
        a1.width <= a2.width,
        a1.height <= a2.height,
    ensures
        first_rect_of(node.placements(a1), id) is Some,
        first_rect_of(node.placements(a2), id) is Some,
        first_rect_of(node.placements(a1), id).unwrap().width <= first_rect_of(
            node.placements(a2),
            id,
        ).unwrap().width,
        first_rect_of(node.placements(a1), id).unwrap().height <= first_rect_of(
            node.placements(a2),
            id,
        ).unwrap().height,
    decreases node,
{
    match node {
        Node::Leaf { .. } => {},
        Node::Split { dir, ratio, first, second } => {
            lemma_split_rect(node, a1, id);
            lemma_split_rect(node, a2, id);
            lemma_divide_tiles(a1, dir, ratio);
            lemma_divide_tiles(a2, dir, ratio);
            lemma_scale_bound(a1.width, ratio);
            lemma_scale_bound(a2.width, ratio);
            lemma_scale_bound(a1.height, ratio);
            lemma_scale_bound(a2.height, ratio);
            lemma_scale_grows_with_total(a1.width, a2.width, ratio);
            lemma_scale_grows_with_total(a1.height, a2.height, ratio);
            let h1 = divide_spec(a1, dir, ratio);
            let h2 = divide_spec(a2, dir, ratio);
            if first.contains_spec(id) {
                lemma_rect_grows_with_area(*first, h1.0, h2.0, id);
            } else {
                lemma_rect_grows_with_area(*second, h1.1, h2.1, id);
            }
        },
    }
}

proof fn lemma_adjust_keeps(node: Node, id: LeafId, delta: i32)
    requires
        node.ratios_ok(),
    ensures
        adjust_spec(node, id, delta).0.ratios_ok(),
        forall|x: LeafId| #[trigger] adjust_spec(node, id, delta).0.contains_spec(x) <==> node.contains_spec(x),
        adjust_spec(node, id, delta).0 is Split <==> node is Split,
    decreases node,
{
    match node {
        Node::Leaf { .. } => {
            assert(adjust_spec(node, id, delta).0 == node);
        },
        Node::Split { first, second, .. } => {
            lemma_adjust_keeps(*first, id, delta);
            lemma_adjust_keeps(*second, id, delta);
            let f = adjust_spec(*first, id, delta).0;
            let g = adjust_spec(*second, id, delta).0;
            assert forall|x: LeafId| #[trigger] adjust_spec(node, id, delta).0.contains_spec(x)
                <==> node.contains_spec(x) by {
                assert(f.contains_spec(x) <==> first.contains_spec(x));
                assert(g.contains_spec(x) <==> second.contains_spec(x));
            }
        },
    }
}

/// Growing never shrinks the focused panel and shrinking never grows it,
/// whichever side of its divider the panel is on: a resize moves the divider
/// above the focused leaf toward the other side for a positive delta and
/// toward the leaf for a negative one. This holds wherever that divider sits
/// within the shares a resize can produce; one already outside them is
/// first pulled inside, which can move it either way.
pub proof fn law_resize_moves_the_divider_the_way_asked(node: Node, area: Rect, id: LeafId, delta: i32)
    requires
        node.ratios_ok(),
        area.wf(),
        node.contains_spec(id),
        active_share(node, id) matches Some(share) ==> MIN_SHARE <= share <= MAX_SHARE,
    ensures
        resized_as_asked(
            first_rect_of(node.placements(area), id),
            first_rect_of(adjust_spec(node, id, delta).0.placements(area), id),
            delta,
        ),
    decreases node,
{
    lemma_first_rect_found(node, area, id);
    lemma_adjust_keeps(node, id, delta);
    lemma_first_rect_found(adjust_spec(node, id, delta).0, area, id);
    match node {
        Node::Leaf { .. } => {
            assert(adjust_spec(node, id, delta).0 == node);
        },
        Node::Split { dir, ratio, first, second } => {
            let after = adjust_spec(node, id, delta).0;
            lemma_split_rect(node, area, id);
            lemma_split_rect(after, area, id);
            lemma_divide_tiles(area, dir, ratio);
            let h = divide_spec(area, dir, ratio);
            let in_first = first.contains_spec(id);
            let in_second = second.contains_spec(id);
            if (in_first || in_second) && (first.is_leaf_spec() || second.is_leaf_spec()) {
                let moved = after->ratio;
                assert(after == Node::Split { dir, ratio: moved, first, second });
                lemma_divide_tiles(area, dir, moved);
                lemma_scale_bound(area.width, ratio);
                lemma_scale_bound(area.height, ratio);
                lemma_scale_bound(area.width, moved);
                lemma_scale_bound(area.height, moved);
                let g = divide_spec(area, dir, moved);
                if moved >= ratio {
                    lemma_scale_grows_with_ratio(area.width, ratio, moved);
                    lemma_scale_grows_with_ratio(area.height, ratio, moved);
                    if in_first {
                        lemma_rect_grows_with_area(*first, h.0, g.0, id);
                    } else {
                        lemma_rect_grows_with_area(*second, g.1, h.1, id);
                    }
                }
                if moved <= ratio {
                    lemma_scale_grows_with_ratio(area.width, moved, ratio);
                    lemma_scale_grows_with_ratio(area.height, moved, ratio);
                    if in_first {
                        lemma_rect_grows_with_area(*first, g.0, h.0, id);
                    } else {
                        lemma_rect_grows_with_area(*second, h.1, g.1, id);
                    }
                }
            } else if in_first {
                lemma_adjust_keeps(*first, id, delta);
                law_resize_moves_the_divider_the_way_asked(*first, h.0, id, delta);
            } else {
                lemma_adjust_keeps(*second, id, delta);
                law_resize_moves_the_divider_the_way_asked(*second, h.1, id, delta);
            }
        },
    }
}

proof fn lemma_even(node: Node, bound: u32)
    requires
        node.ratios_ok(),
        node.distinct(),
        node.ids_below(bound),
    ensures
        even_spec(node).ratios_ok(),
        even_spec(node).distinct(),
        even_spec(node).ids_below(bound),
        forall|x: LeafId| even_spec(node).contains_spec(x) <==> node.contains_spec(x),
    decreases node,
{
    match node {
        Node::Leaf { .. } => {},
        Node::Split { dir, ratio, first, second } => {
            lemma_even(*first, bound);
            lemma_even(*second, bound);
            let f = even_spec(*first);
            let g = even_spec(*second);
            assert(even_spec(node) == Node::Split { dir, ratio: HALF, first: Box::new(f), second: Box::new(g) });
            assert forall|x: LeafId| even_spec(node).contains_spec(x) <==> node.contains_spec(x) by {
                assert(f.contains_spec(x) <==> first.contains_spec(x));
                assert(g.contains_spec(x) <==> second.contains_spec(x));
            }
            assert forall|x: LeafId| !(f.contains_spec(x) && g.contains_spec(x)) by {
                assert(f.contains_spec(x) <==> first.contains_spec(x));
                assert(g.contains_spec(x) <==> second.contains_spec(x));
            }
        },
    }
}

fn split_leaf(node: Node, id: LeafId, dir: Direction, new_id: LeafId) -> (r: (Node, bool))
    ensures
        r == split_leaf_spec(node, id, dir, new_id),
    decreases node,
{
    match node {
        Node::Leaf { id: leaf, panel } => if leaf == id {
            (
                Node::Split {
                    dir,
                    ratio: HALF,
                    first: Box::new(Node::Leaf { id, panel }),
                    second: Box::new(Node::Leaf { id: new_id, panel: PanelType::Catalogue }),
                },
                true,
            )
        } else {
            (Node::Leaf { id: leaf, panel }, false)
        },
        Node::Split { dir: d, ratio, first, second } => {
            proof {
                lemma_split_leaf_unchanged(*first, id, dir, new_id);
            }
            let (f, done) = split_leaf(*first, id, dir, new_id);
            if done {
                (Node::Split { dir: d, ratio, first: Box::new(f), second }, true)
            } else {
                let (s, done2) = split_leaf(*second, id, dir, new_id);
                (Node::Split { dir: d, ratio, first: Box::new(f), second: Box::new(s) }, done2)
            }
        },
    }
}

proof fn lemma_split_leaf_unchanged(node: Node, id: LeafId, dir: Direction, new_id: LeafId)
    ensures
        split_leaf_spec(node, id, dir, new_id).1 == node.contains_spec(id),
        !split_leaf_spec(node, id, dir, new_id).1 ==> split_leaf_spec(node, id, dir, new_id).0
            == node,
    decreases node,
{
    match node {
        Node::Leaf { .. } => {},
        Node::Split { first, second, .. } => {
            lemma_split_leaf_unchanged(*first, id, dir, new_id);
            lemma_split_leaf_unchanged(*second, id, dir, new_id);
        },
    }
}

fn set_panel(node: Node, id: LeafId, panel: PanelType) -> (r: (Node, bool))
    ensures
        r == set_panel_spec(node, id, panel),
    decreases node,
{
    match node {
        Node::Leaf { id: leaf, panel: old } => if leaf == id {
            (Node::Leaf { id: leaf, panel }, true)
        } else {
            (Node::Leaf { id: leaf, panel: old }, false)
        },
        Node::Split { dir, ratio, first, second } => {
            proof {
                lemma_set_panel_unchanged(*first, id, panel);
            }
            let (f, done) = set_panel(*first, id, panel);
            if done {
                (Node::Split { dir, ratio, first: Box::new(f), second }, true)
            } else {
                let (s, done2) = set_panel(*second, id, panel);
                (Node::Split { dir, ratio, first: Box::new(f), second: Box::new(s) }, done2)
            }
        },
    }
}

proof fn lemma_set_panel_unchanged(node: Node, id: LeafId, panel: PanelType)
    ensures
        !set_panel_spec(node, id, panel).1 ==> set_panel_spec(node, id, panel).0 == node,
    decreases node,
{
    match node {
        Node::Leaf { .. } => {},
        Node::Split { first, second, .. } => {
            lemma_set_panel_unchanged(*first, id, panel);
            lemma_set_panel_unchanged(*second, id, panel);
        },
    }
}

proof fn lemma_remove_unchanged(node: Node, id: LeafId)
    ensures
        remove_leaf_spec(node, id).1 is None ==> remove_leaf_spec(node, id).0 == node,
    decreases node,
{
    match node {
        Node::Leaf { .. } => {},
        Node::Split { first, second, .. } => {
            lemma_remove_unchanged(*first, id);
            lemma_remove_unchanged(*second, id);
        },
    }
}

fn remove_leaf(node: Node, id: LeafId) -> (r: (Node, Option<LeafId>))
    ensures
        r == remove_leaf_spec(node, id),
    decreases node,
{
    match node {
        Node::Leaf { id: leaf, panel } => (Node::Leaf { id: leaf, panel }, None),
        Node::Split { dir, ratio, first, second } => {
            let drop_first = match &*first {
                Node::Leaf { id: leaf, .. } => *leaf == id,
                Node::Split { .. } => false,
            };
            let drop_second = match &*second {
                Node::Leaf { id: leaf, .. } => *leaf == id,
                Node::Split { .. } => false,
            };
            if drop_first {
                let heir = first_leaf(&second);
                (*second, Some(heir))
            } else if drop_second {
                let heir = first_leaf(&first);
                (*first, Some(heir))
            } else {
                proof {
                    lemma_remove_unchanged(*first, id);
                }
                let (f, heir) = remove_leaf(*first, id);
                match heir {
                    Some(h) => (Node::Split { dir, ratio, first: Box::new(f), second }, Some(h)),
                    None => {
                        let (s, heir2) = remove_leaf(*second, id);
                        (Node::Split { dir, ratio, first: Box::new(f), second: Box::new(s) }, heir2)
                    },
                }
            }
        },
    }
}

fn clamp_ratio(ratio: u16, signed: i64) -> (r: u16)
    requires
        -2147483648 <= signed <= 2147483648,
    ensures
        r == clamp_share(ratio + signed),
{
    let value: i64 = ratio as i64 + signed;
    if value < MIN_SHARE as i64 {
        MIN_SHARE as u16
    } else if value > MAX_SHARE as i64 {
        MAX_SHARE as u16
    } else {
        value as u16
    }
}

fn adjust_ratio(node: Node, id: LeafId, delta: i32) -> (r: (Node, bool))
    ensures
        r == adjust_spec(node, id, delta),
    decreases node,
{
    match node {
        Node::Leaf { id: leaf, panel } => (Node::Leaf { id: leaf, panel }, false),
        Node::Split { dir, ratio, first, second } => {
            let in_first = contains(&first, id);
            let in_second = contains(&second, id);
            if (in_first || in_second) && (first.is_leaf() || second.is_leaf()) {
                let signed: i64 = if in_first {
                    delta as i64
                } else {
                    -(delta as i64)
                };
                (Node::Split { dir, ratio: clamp_ratio(ratio, signed), first, second }, true)
            } else if in_first {
                let (f, done) = adjust_ratio(*first, id, delta);
                (Node::Split { dir, ratio, first: Box::new(f), second }, done)
            } else if in_second {
                let (s, done) = adjust_ratio(*second, id, delta);
                (Node::Split { dir, ratio, first, second: Box::new(s) }, done)
            } else {
                (Node::Split { dir, ratio, first, second }, false)
            }
        },
    }
}

fn even(node: Node) -> (r: Node)
    ensures
        r == even_spec(node),
    decreases node,
{
    match node {
        Node::Leaf { id, panel } => Node::Leaf { id, panel },
        Node::Split { dir, first, second, .. } => Node::Split {
            dir,
            ratio: HALF,
            first: Box::new(even(*first)),
            second: Box::new(even(*second)),
        },
    }
}

/// One resize step, in thousandths of the axis.
pub const RESIZE_STEP: i32 = 50;

impl Layout {
    /// A split is refused when the focused leaf's rect, halved, would leave
    /// either half below the minimum.
    pub open spec fn split_refused(self, area: Rect, dir: Direction) -> bool {
        match first_rect_of(self.tree().placements(area), self.focus_spec()) {
            None => true,
            Some(current) => {
                let halves = divide_spec(current, dir, HALF);
                !fits_spec(halves.0) || !fits_spec(halves.1)
            },
        }
    }

    /// Split the focused leaf, putting a catalogue leaf beside it. Focus stays
    /// with the original panel.
    pub fn split(&self, area: Rect, dir: Direction) -> (r: Result<Layout, Refusal>)
        requires
            area.wf(),
            !self.split_refused(area, dir) ==> self.next_id_spec() < u32::MAX,
        ensures
            r is Err <==> self.split_refused(area, dir),
            r is Err ==> r == Err::<Layout, Refusal>(Refusal::TooSmall),
            r matches Ok(l) ==> {
                &&& l.tree() == split_leaf_spec(
                    self.tree(),
                    self.focus_spec(),
                    dir,
                    LeafId(self.next_id_spec()),
                ).0
                &&& l.focus_spec() == self.focus_spec()
                &&& l.next_id_spec() == self.next_id_spec() + 1
            },
    {
        proof {
            use_type_invariant(self);
        }
        let current = match self.rect_of(self.focus, area) {
            Some(rect) => rect,
            None => {
                return Err(Refusal::TooSmall);
            },
        };
        proof {
            lemma_first_rect_wf(self.tree(), area, self.focus);
        }
        let (first, second) = divide(current, dir, HALF);
        if !fits(first) || !fits(second) {
            return Err(Refusal::TooSmall);
        }
        let new_id = LeafId(self.next_id);
        proof {
            lemma_split_leaf(self.root, self.focus, dir, new_id, self.next_id);
        }
        let (root, _) = split_leaf(self.root.copy(), self.focus, dir, new_id);
        Ok(Layout { root, focus: self.focus, next_id: self.next_id + 1 })
    }

    /// Close the focused leaf; its sibling takes its place.
    pub fn close(&self) -> (r: Result<Layout, Refusal>)
        ensures
            r is Err <==> self.tree().is_leaf_spec(),
            r is Err ==> r == Err::<Layout, Refusal>(Refusal::LastPanel),
            r matches Ok(l) ==> {
                &&& l.tree() == remove_leaf_spec(self.tree(), self.focus_spec()).0
                &&& l.focus_spec() == remove_leaf_spec(self.tree(), self.focus_spec()).1.unwrap()
                &&& l.next_id_spec() == self.next_id_spec()
            },
    {
        proof {
            use_type_invariant(self);
        }
        if self.root.is_leaf() {
            return Err(Refusal::LastPanel);
        }
        proof {
            lemma_remove_leaf(self.root, self.focus, self.next_id);
        }
        let (root, heir) = remove_leaf(self.root.copy(), self.focus);
        let focus = match heir {
            Some(h) => h,
            None => self.focus,
        };
        Ok(Layout { root, focus, next_id: self.next_id })
    }

    /// Give the focused leaf a panel type.
    pub fn assign(&self, panel: PanelType) -> (r: Layout)
        ensures
            r == self.assigned(panel),
            r.tree() == set_panel_spec(self.tree(), self.focus_spec(), panel).0,
            r.tree().panel_spec(self.focus_spec()) == Some(panel),
            r.focus_spec() == self.focus_spec(),
            r.next_id_spec() == self.next_id_spec(),
    {
        proof {
            use_type_invariant(self);
            lemma_set_panel(self.root, self.focus, panel, self.next_id);
        }
        let (root, _) = set_panel(self.root.copy(), self.focus, panel);
        let r = Layout { root, focus: self.focus, next_id: self.next_id };
        proof {
            lemma_rebuild(r);
        }
        r
    }

    /// Move the divider above the focused leaf by `delta` thousandths of its
    /// axis, refusing a move that would leave any panel unusable.
    pub fn resize(&self, area: Rect, delta: i32) -> (r: Result<Layout, Refusal>)
        requires
            area.wf(),
        ensures
            r is Err <==> (!adjust_spec(self.tree(), self.focus_spec(), delta).1 || !all_fit(
                adjust_spec(self.tree(), self.focus_spec(), delta).0.placements(area),
            )),
            r is Err ==> r == Err::<Layout, Refusal>(Refusal::TooSmall),
            r matches Ok(l) ==> {
                &&& l.tree() == adjust_spec(self.tree(), self.focus_spec(), delta).0
                &&& l.focus_spec() == self.focus_spec()
                &&& l.next_id_spec() == self.next_id_spec()
            },
            r matches Ok(l) ==> ((active_share(self.tree(), self.focus_spec()) matches Some(share)
                ==> MIN_SHARE <= share <= MAX_SHARE) ==> resized_as_asked(
                first_rect_of(self.tree().placements(area), self.focus_spec()),
                first_rect_of(l.tree().placements(area), l.focus_spec()),
                delta,
            )),
    {
        proof {
            use_type_invariant(self);
            lemma_adjust(self.root, self.focus, delta, self.next_id);
            if active_share(self.root, self.focus) matches Some(share) ==> MIN_SHARE <= share
                <= MAX_SHARE {
                law_resize_moves_the_divider_the_way_asked(self.root, area, self.focus, delta);
            }
        }
        let (root, moved) = adjust_ratio(self.root.copy(), self.focus, delta);
        if !moved {
            return Err(Refusal::TooSmall);
        }
        let next = Layout { root, focus: self.focus, next_id: self.next_id };
        if next.smallest(area).is_none() {
            return Err(Refusal::TooSmall);
        }
        Ok(next)
    }

    /// Reset every ratio to an even share, refusing if that would leave any
    /// panel unusable.
    pub fn balance(&self, area: Rect) -> (r: Result<Layout, Refusal>)
        requires
            area.wf(),
        ensures
            r is Err <==> !all_fit(even_spec(self.tree()).placements(area)),
            r is Err ==> r == Err::<Layout, Refusal>(Refusal::TooSmall),
            r matches Ok(l) ==> {
                &&& l.tree() == even_spec(self.tree())
                &&& l.focus_spec() == self.focus_spec()
                &&& l.next_id_spec() == self.next_id_spec()
            },
    {
        proof {
            use_type_invariant(self);
            lemma_even(self.root, self.next_id);
        }
        let next = Layout { root: even(self.root.copy()), focus: self.focus, next_id: self.next_id };
        if next.smallest(area).is_none() {
            return Err(Refusal::TooSmall);
        }
        Ok(next)
    }

    /// The smallest rect the tree solves to, or `None` if any is unusable.
    fn smallest(&self, area: Rect) -> (r: Option<Rect>)
        requires
            area.wf(),
        ensures
            r is None <==> !all_fit(self.tree().placements(area)),
            r matches Some(rect) ==> {
                &&& exists|i: int|
                    0 <= i < self.tree().placements(area).len()
                        && #[trigger] self.tree().placements(area)[i].rect == rect
                &&& forall|i: int|
                    0 <= i < self.tree().placements(area).len() ==> rect.area()
                        <= #[trigger] self.tree().placements(area)[i].rect.area()
            },
    {
        proof {
            use_type_invariant(self);
        }
        let mut out: Vec<Placement> = Vec::new();
        place(&self.root, area, &mut out);
        assert(out@ =~= self.tree().placements(area));
        if !every_fit(&out) {
            return None;
        }
        proof {
            lemma_placements_nonempty(self.tree(), area);
        }
        let mut best = out[0].rect;
        let mut best_area: u32 = rect_area(best);
        let mut i: usize = 1;
        while i < out.len()
            invariant
                1 <= i <= out.len(),
                out@ == self.tree().placements(area),
                best_area == best.area(),
                exists|k: int| 0 <= k < i && #[trigger] out@[k].rect == best,
                forall|k: int| 0 <= k < i ==> best.area() <= #[trigger] out@[k].rect.area(),
            decreases out.len() - i,
        {
            let candidate = out[i].rect;
            let candidate_area: u32 = rect_area(candidate);
            if candidate_area < best_area {
                best = candidate;
                best_area = candidate_area;
            }
            i = i + 1;
        }
        Some(best)
    }
}

fn rect_area(r: Rect) -> (a: u32)
    ensures
        a == r.area(),
{
    let w = r.width as u32;
    let h = r.height as u32;
    assert(w * h <= 65535 * 65535) by (nonlinear_arith)
        requires
            w <= 65535,
            h <= 65535,
    ;
    w * h
}

pub proof fn lemma_placements_nonempty(node: Node, area: Rect)
    ensures
        node.placements(area).len() > 0,
    decreases node,
{
    match node {
        Node::Leaf { .. } => {},
        Node::Split { dir, ratio, first, second } => {
            let halves = divide_spec(area, dir, ratio);
            lemma_placements_nonempty(*first, halves.0);
        },
    }
}

/// Every placement of a tree over a well formed pane is well formed.
pub proof fn lemma_placements_wf(node: Node, area: Rect)
    requires
        node.ratios_ok(),
        area.wf(),
    ensures
        forall|i: int|
            0 <= i < node.placements(area).len() ==> (#[trigger] node.placements(area)[i]).rect.wf(),
    decreases node,
{
    match node {
        Node::Leaf { .. } => {},
        Node::Split { dir, ratio, first, second } => {
            lemma_divide_tiles(area, dir, ratio);
            let halves = divide_spec(area, dir, ratio);
            lemma_placements_wf(*first, halves.0);
            lemma_placements_wf(*second, halves.1);
            let a = first.placements(halves.0);
            let b = second.placements(halves.1);
            assert forall|i: int| 0 <= i < (a + b).len() implies (#[trigger] (a + b)[i]).rect.wf() by {
                if i < a.len() {
                    assert((a + b)[i] == a[i]);
                } else {
                    assert((a + b)[i] == b[i - a.len()]);
                }
            }
        },
    }
}

proof fn lemma_first_rect_in(s: Seq<Placement>, id: LeafId)
    ensures
        first_rect_of(s, id) matches Some(r) ==> exists|i: int| 0 <= i < s.len() && s[i].rect == r,
    decreases s.len(),
{
    if s.len() > 0 && s[0].id != id {
        lemma_first_rect_in(s.drop_first(), id);
        if first_rect_of(s, id) is Some {
            let i = choose|i: int|
                0 <= i < s.drop_first().len() && s.drop_first()[i].rect == first_rect_of(s, id).unwrap();
            assert(s[i + 1] == s.drop_first()[i]);
        }
    }
}

proof fn lemma_first_rect_wf(node: Node, area: Rect, id: LeafId)
    requires
        node.ratios_ok(),
        area.wf(),
    ensures
        first_rect_of(node.placements(area), id) matches Some(r) ==> r.wf(),
{
    lemma_placements_wf(node, area);
    lemma_first_rect_in(node.placements(area), id);
}


/// What reading a whole source gives: the tree and the number of leaves it
/// numbered, or what went wrong.
pub open spec fn decode_spec(source: Seq<char>) -> Result<(Node, nat), Seq<char>> {
    let t = trim_spec(source);
    match parse_spec(t, 0, 0) {
        Err(m) => Err(m),
        Ok((node, end, count)) => {
            let p = skip_spaces(t, end);
            if p < t.len() {
                Err("trailing text at byte "@ + decimal(p as nat))
            } else {
                Ok((node, count))
            }
        },
    }
}

impl Layout {
    /// The serialised form: one line that reads the way the arrangement looks.
    pub fn encode(&self) -> (r: String)
        ensures
            r@ == encode_spec(self.tree()),
    {
        proof {
            use_type_invariant(self);
        }
        let mut out = String::new();
        write_node(&self.root, &mut out);
        assert(out@ =~= encode_spec(self.tree()));
        out
    }

    /// Read a layout back, or say where it stopped making sense. Leaves are
    /// numbered afresh in the order they are read, and focus starts on the
    /// first of them.
    ///
    /// The text must be shorter than `u32::MAX` characters: leaf ids are
    /// 32-bit, and the bound is what keeps the leaf counter from overflowing.
    pub fn decode(source: &str) -> (r: Result<Layout, String>)
        requires
            source@.len() < u32::MAX,
        ensures
            match (r, decode_spec(source@)) {
                (Ok(l), Ok((node, count))) => {
                    &&& l.tree() == node
                    &&& l.focus_spec() == node.first_leaf_spec()
                    &&& l.next_id_spec() == count
                },
                (Err(m), Err(m2)) => m@ == m2,
                _ => false,
            },
    {
        let text = trim(&chars_of(source));
        proof {
            lemma_trim_len(source@);
        }
        match parse_node(&text, 0, 0) {
            Err(m) => Err(m),
            Ok((root, end, count)) => {
                let p = skip_spaces_exec(&text, end);
                if p < text.len() {
                    let mut m = owned("trailing text at byte ");
                    push_decimal(&mut m, p as u64);
                    return Err(m);
                }
                proof {
                    lemma_ids_within_below(root, 0, count as nat);
                    lemma_first_leaf_contained(root);
                }
                let focus = first_leaf(&root);
                Ok(Layout { root, focus, next_id: count })
            },
        }
    }
}


/// Reading back the text of a tree gives the tree, numbered afresh.
pub proof fn lemma_decode_encode(node: Node)
    requires
        node.ratios_ok(),
    ensures
        decode_spec(encode_spec(node)) == Ok::<(Node, nat), Seq<char>>(
            (renumber(node, 0), node.leaf_count()),
        ),
        encode_spec(renumber(node, 0)) == encode_spec(node),
{
    let enc = encode_spec(node);
    lemma_encode_ends(node);
    assert(trim_start_index(enc, 0) == 0);
    assert(trim_end_index(enc, enc.len() as int) == enc.len());
    assert(trim_spec(enc) =~= enc);
    lemma_parse_encoded(enc, 0, node, 0);
    assert(skip_spaces(enc, enc.len() as int) == enc.len());
    lemma_encode_renumber(node, 0);
}

/// Reading back what `encode` writes gives the same arrangement, its leaves
/// numbered afresh in the order they are written, and writing that again
/// gives the same text: a saved layout survives a round trip.
pub proof fn law_decode_inverts_encode(l: Layout)
    requires
        l.wf(),
    ensures
        decode_spec(encode_spec(l.tree())) == Ok::<(Node, nat), Seq<char>>(
            (renumber(l.tree(), 0), l.tree().leaf_count()),
        ),
        encode_spec(renumber(l.tree(), 0)) == encode_spec(l.tree()),
{
    lemma_decode_encode(l.tree());
}


/// The ids a tree's leaves carry, as numbers.
pub open spec fn id_set(node: Node) -> Set<int>
    decreases node,
{
    match node {
        Node::Leaf { id, .. } => set![id.0 as int],
        Node::Split { first, second, .. } => id_set(*first) + id_set(*second),
    }
}

proof fn lemma_id_set_members(node: Node, v: int)
    ensures
        id_set(node).contains(v) ==> 0 <= v <= u32::MAX && node.contains_spec(LeafId(v as u32)),
        forall|b: u32| #[trigger] node.ids_below(b) && id_set(node).contains(v) ==> v < b,
    decreases node,
{
    match node {
        Node::Leaf { id, .. } => {
            if id_set(node).contains(v) {
                assert(v == id.0 as int);
            }
        },
        Node::Split { first, second, .. } => {
            lemma_id_set_members(*first, v);
            lemma_id_set_members(*second, v);
            assert forall|b: u32| #[trigger] node.ids_below(b) && id_set(node).contains(v) implies v < b by {
                assert(first.ids_below(b) && second.ids_below(b));
            }
        },
    }
}

proof fn lemma_id_set_len(node: Node)
    requires
        node.distinct(),
    ensures
        id_set(node).finite(),
        id_set(node).len() == node.leaf_count(),
    decreases node,
{
    match node {
        Node::Leaf { id, .. } => {
            assert(set![id.0 as int].len() == 1) by {
                assert(set![id.0 as int] =~= Set::<int>::empty().insert(id.0 as int));
            }
        },
        Node::Split { first, second, .. } => {
            lemma_id_set_len(*first);
            lemma_id_set_len(*second);
            assert(id_set(*first).disjoint(id_set(*second))) by {
                assert forall|v: int| !(id_set(*first).contains(v) && id_set(*second).contains(v)) by {
                    lemma_id_set_members(*first, v);
                    lemma_id_set_members(*second, v);
                    if id_set(*first).contains(v) && id_set(*second).contains(v) {
                        assert(!(first.contains_spec(LeafId(v as u32)) && second.contains_spec(
                            LeafId(v as u32),
                        )));
                    }
                }
            }
            vstd::set_lib::lemma_set_disjoint_lens(id_set(*first), id_set(*second));
        },
    }
}

/// A tree whose ids are distinct and below a bound has at most that many
/// leaves.
pub proof fn lemma_leaves_within_bound(node: Node, bound: u32)
    requires
        node.distinct(),
        node.ids_below(bound),
    ensures
        node.leaf_count() <= bound,
{
    lemma_id_set_len(node);
    vstd::set_lib::lemma_int_range(0, bound as int);
    assert forall|v: int| id_set(node).contains(v) implies vstd::set_lib::set_int_range(
        0,
        bound as int,
    ).contains(v) by {
        lemma_id_set_members(node, v);
    }
    vstd::set_lib::lemma_len_subset(id_set(node), vstd::set_lib::set_int_range(0, bound as int));
}

proof fn lemma_leaves_len(node: Node)
    ensures
        node.leaves_spec().len() == node.leaf_count(),
    decreases node,
{
    if let Node::Split { first, second, .. } = node {
        lemma_leaves_len(*first);
        lemma_leaves_len(*second);
    }
}

/// Numbering a tree afresh from `next` keeps its panels in order and gives
/// its leaves the ids `next`, `next + 1` and so on, in reading order.
proof fn lemma_renumber_leaves(node: Node, next: nat)
    requires
        next + node.leaf_count() <= u32::MAX,
    ensures
        renumber(node, next).leaves_spec().len() == node.leaves_spec().len(),
        forall|i: int|
            0 <= i < node.leaves_spec().len() ==> #[trigger] renumber(node, next).leaves_spec()[i] == (
            LeafId((next + i) as u32), node.leaves_spec()[i].1),
        renumber(node, next).first_leaf_spec() == LeafId(next as u32),
        renumber(node, next).ids_below((next + node.leaf_count()) as u32),
    decreases node,
{
    lemma_leaves_len(node);
    match node {
        Node::Leaf { .. } => {},
        Node::Split { dir, ratio, first, second } => {
            lemma_renumber_leaves(*first, next);
            lemma_renumber_leaves(*second, next + first.leaf_count());
            lemma_leaves_len(*first);
            lemma_ids_below_weaken(
                renumber(*first, next),
                (next + first.leaf_count()) as u32,
                (next + node.leaf_count()) as u32,
            );
            let r = renumber(node, next);
            let la = first.leaves_spec();
            let ra = renumber(*first, next).leaves_spec();
            let rb = renumber(*second, next + first.leaf_count()).leaves_spec();
            assert(r.leaves_spec() == ra + rb);
            assert forall|i: int| 0 <= i < node.leaves_spec().len() implies #[trigger] r.leaves_spec()[i]
                == (LeafId((next + i) as u32), node.leaves_spec()[i].1) by {
                if i < la.len() {
                    assert(r.leaves_spec()[i] == ra[i]);
                    assert(node.leaves_spec()[i] == la[i]);
                } else {
                    assert(r.leaves_spec()[i] == rb[i - la.len()]);
                    assert(node.leaves_spec()[i] == second.leaves_spec()[i - la.len()]);
                }
            }
        },
    }
}

/// A saved arrangement reads back as itself: decoding what `encode` writes
/// succeeds, keeps every panel in its place in reading order, numbers the
/// leaves 0, 1, 2 and so on in that order, puts focus on the first, and
/// leaves the counter past every id, so the next split takes an id no leaf
/// has; writing the result again gives the same text.
pub proof fn law_saved_layout_reads_back(l: Layout)
    requires
        l.wf(),
    ensures
        ({
            let t = l.tree();
            let n = t.leaf_count();
            let d = renumber(t, 0);
            &&& n <= l.next_id_spec()
            &&& decode_spec(encode_spec(t)) == Ok::<(Node, nat), Seq<char>>((d, n))
            &&& encode_spec(d) == encode_spec(t)
            &&& d.leaves_spec().len() == t.leaves_spec().len() == n
            &&& forall|i: int|
                0 <= i < n ==> #[trigger] d.leaves_spec()[i] == (LeafId(i as u32), t.leaves_spec()[i].1)
            &&& d.first_leaf_spec() == LeafId(0)
            &&& d.ids_below(n as u32)
            &&& !d.contains_spec(LeafId(n as u32))
        }),
{
    let t = l.tree();
    lemma_leaves_within_bound(t, l.next_id_spec());
    lemma_decode_encode(t);
    lemma_leaves_len(t);
    lemma_renumber_leaves(t, 0);
    let d = renumber(t, 0);
    assert forall|i: int| 0 <= i < t.leaf_count() implies #[trigger] d.leaves_spec()[i] == (
    LeafId(i as u32), t.leaves_spec()[i].1) by {
        assert(d.leaves_spec()[i] == (LeafId((0 + i) as u32), t.leaves_spec()[i].1));
    }
    if d.contains_spec(LeafId(t.leaf_count() as u32)) {
        lemma_ids_below_contains(d, t.leaf_count() as u32, LeafId(t.leaf_count() as u32));
    }
}

/// The ids of the leaves holding one kind of panel, in the tree's order.
pub open spec fn ids_of_kind(s: Seq<(LeafId, PanelType)>, kind: PanelType) -> Seq<LeafId>
    decreases s.len(),
{
    if s.len() == 0 {
        Seq::empty()
    } else {
        let rest = ids_of_kind(s.drop_last(), kind);
        if s.last().1 == kind {
            rest.push(s.last().0)
        } else {
            rest
        }
    }
}

/// Remove leaves one at a time, stopping when one leaf is left; focus on a
/// removed leaf moves to the leaf that took its room.
pub open spec fn elide_ids(node: Node, focus: LeafId, ids: Seq<LeafId>) -> (Node, LeafId)
    decreases ids.len(),
{
    if ids.len() == 0 || node.is_leaf_spec() {
        (node, focus)
    } else {
        let removed = remove_leaf_spec(node, ids[0]);
        let f = if focus == ids[0] {
            match removed.1 {
                Some(h) => h,
                None => focus,
            }
        } else {
            focus
        };
        elide_ids(removed.0, f, ids.drop_first())
    }
}

/// Shed every leaf of each kind in turn.
pub open spec fn elide_kinds(node: Node, focus: LeafId, kinds: Seq<PanelType>) -> (Node, LeafId)
    decreases kinds.len(),
{
    if kinds.len() == 0 {
        (node, focus)
    } else {
        let r = elide_ids(node, focus, ids_of_kind(node.leaves_spec(), kinds[0]));
        elide_kinds(r.0, r.1, kinds.drop_first())
    }
}

fn ids_of_kind_exec(s: &Vec<(LeafId, PanelType)>, kind: PanelType) -> (r: Vec<LeafId>)
    ensures
        r@ == ids_of_kind(s@, kind),
{
    let mut r: Vec<LeafId> = Vec::new();
    let mut i: usize = 0;
    assert(s@.take(0) =~= Seq::<(LeafId, PanelType)>::empty());
    while i < s.len()
        invariant
            0 <= i <= s.len(),
            r@ == ids_of_kind(s@.take(i as int), kind),
        decreases s.len() - i,
    {
        assert(s@.take(i + 1).drop_last() =~= s@.take(i as int));
        assert(s@.take(i + 1).last() == s@[i as int]);
        if s[i].1 == kind {
            r.push(s[i].0);
        }
        i = i + 1;
    }
    assert(s@.take(s@.len() as int) =~= s@);
    r
}

/// The first placement with an address, if any.
pub open spec fn id_at_address(s: Seq<Placement>, address: u8) -> Option<LeafId>
    decreases s.len(),
{
    if s.len() == 0 {
        None
    } else if s[0].address == address {
        Some(s[0].id)
    } else {
        id_at_address(s.drop_first(), address)
    }
}

impl Layout {
    /// Drop panels the terminal is too narrow to justify, in the elision
    /// order, keeping at least one. A view like maximize, not a mutation:
    /// what is persisted is always the reader's tree.
    pub fn elided(&self, columns: u16) -> (r: Layout)
        ensures
            r == self.elided_spec(columns),
            columns >= NARROW_COLUMNS ==> r.tree() == self.tree() && r.focus_spec()
                == self.focus_spec(),
            columns < NARROW_COLUMNS ==> (r.tree(), r.focus_spec()) == elide_kinds(
                self.tree(),
                self.focus_spec(),
                elision_order_spec(),
            ),
            r.next_id_spec() == self.next_id_spec(),
    {
        proof {
            use_type_invariant(self);
        }
        if columns >= NARROW_COLUMNS {
            let r = self.duplicate();
            proof {
                lemma_rebuild(r);
                lemma_rebuild(*self);
            }
            return r;
        }
        let order = elision_order();
        let mut root = self.root.copy();
        let mut focus = self.focus;
        let bound = self.next_id;
        let mut i: usize = 0;
        assert(order@.skip(0) =~= order@);
        while i < order.len()
            invariant
                0 <= i <= order.len(),
                order@ == elision_order_spec(),
                bound == self.next_id_spec(),
                elide_kinds(self.tree(), self.focus_spec(), order@) == elide_kinds(
                    root,
                    focus,
                    order@.skip(i as int),
                ),
                root.ratios_ok(),
                root.distinct(),
                root.contains_spec(focus),
                root.ids_below(bound),
            decreases order.len() - i,
        {
            let kind = order[i];
            let mut leaves: Vec<(LeafId, PanelType)> = Vec::new();
            collect(&root, &mut leaves);
            assert(leaves@ =~= root.leaves_spec());
            let victims = ids_of_kind_exec(&leaves, kind);
            let ghost start_root = root;
            let ghost start_focus = focus;
            assert(victims@.skip(0) =~= victims@);
            let mut j: usize = 0;
            while j < victims.len()
                invariant
                    0 <= j <= victims.len(),
                    elide_ids(start_root, start_focus, victims@) == elide_ids(
                        root,
                        focus,
                        victims@.skip(j as int),
                    ),
                    root.ratios_ok(),
                    root.distinct(),
                    root.contains_spec(focus),
                    root.ids_below(bound),
                decreases victims.len() - j,
            {
                let id = victims[j];
                assert(victims@.skip(j as int)[0] == id);
                assert(victims@.skip(j as int).drop_first() =~= victims@.skip(j + 1));
                if !root.is_leaf() {
                    if contains(&root, id) {
                        proof {
                            lemma_remove_leaf(root, id, bound);
                        }
                        let (next_root, heir) = remove_leaf(root, id);
                        if focus == id {
                            focus = match heir {
                                Some(h) => h,
                                None => focus,
                            };
                        }
                        root = next_root;
                    } else {
                        proof {
                            lemma_remove_absent(root, id);
                        }
                    }
                }
                j = j + 1;
            }
            assert(order@.skip(i as int)[0] == kind);
            assert(order@.skip(i as int).drop_first() =~= order@.skip(i + 1));
            i = i + 1;
        }
        let r = Layout { root, focus, next_id: bound };
        proof {
            lemma_rebuild(r);
        }
        r
    }

    /// The arrangement drawn at a width: the whole tree where there is room,
    /// and the tree with the elision order's panels taken out below it.
    pub open spec fn elided_spec(self, columns: u16) -> Layout {
        if columns >= NARROW_COLUMNS {
            self
        } else {
            Layout::build(
                elide_kinds(self.tree(), self.focus_spec(), elision_order_spec()).0,
                elide_kinds(self.tree(), self.focus_spec(), elision_order_spec()).1,
                self.next_id_spec(),
            )
        }
    }

    /// Focus by jump address as this solve assigns them; an address no panel
    /// holds changes nothing.
    pub fn with_focus_on_address(&self, area: Rect, address: u8) -> (r: Layout)
        requires
            area.wf(),
        ensures
            r == self.focused_on_address(area, address),
            r.tree() == self.tree(),
            r.next_id_spec() == self.next_id_spec(),
            r.focus_spec() == (match id_at_address(self.solve_spec(area, None), address) {
                Some(id) => if self.tree().contains_spec(id) {
                    id
                } else {
                    self.focus_spec()
                },
                None => self.focus_spec(),
            }),
    {
        let placements = self.solve(area, None);
        let mut i: usize = 0;
        assert(placements@.skip(0) =~= placements@);
        while i < placements.len()
            invariant
                0 <= i <= placements.len(),
                placements@ == self.solve_spec(area, None),
                id_at_address(placements@, address) == id_at_address(
                    placements@.skip(i as int),
                    address,
                ),
            decreases placements.len() - i,
        {
            assert(placements@.skip(i as int)[0] == placements@[i as int]);
            if placements[i].address == address {
                return self.with_focus(placements[i].id);
            }
            assert(placements@.skip(i as int).drop_first() =~= placements@.skip(i + 1));
            i = i + 1;
        }
        let r = self.duplicate();
        proof {
            lemma_rebuild(r);
            lemma_rebuild(*self);
        }
        r
    }
}

/// The three curated arrangements, one per reason someone opens this tool.
#[derive(Debug, Clone, Copy, PartialEq, Eq, Structural)]
pub enum Preset {
    /// First look at an unfamiliar asset: what it is, whether it is healthy,
    /// what is in it.
    Survey,
    /// Geometry work. The mesh table takes half the screen.
    Meshes,
    /// Delivery QA. Validation dominates and nothing decorative is on screen.
    Validation,
}

pub open spec fn leaf_spec(id: u32, panel: PanelType) -> Node {
    Node::Leaf { id: LeafId(id), panel }
}

pub open spec fn split_spec(dir: Direction, ratio: u16, first: Node, second: Node) -> Node {
    Node::Split { dir, ratio, first: Box::new(first), second: Box::new(second) }
}

impl Preset {
    pub open spec fn encoded_spec(self) -> Seq<char> {
        match self {
            Preset::Survey => "H0.295(V0.336(silhouette,V0.505(geometry,health)),H0.516(V0.514(meshes,materials),validation))"@,
            Preset::Meshes => "H0.700(V0.650(meshes,H0.500(silhouette,distributions)),uv)"@,
            Preset::Validation => "H0.350(V0.500(health,textures),validation)"@,
        }
    }

    /// The tree each preset reads as, leaves numbered in the order written.
    pub open spec fn tree_spec(self) -> Node {
        match self {
            Preset::Survey => split_spec(
                Direction::Horizontal,
                295,
                split_spec(
                    Direction::Vertical,
                    336,
                    leaf_spec(0, PanelType::Silhouette),
                    split_spec(
                        Direction::Vertical,
                        505,
                        leaf_spec(1, PanelType::Geometry),
                        leaf_spec(2, PanelType::Health),
                    ),
                ),
                split_spec(
                    Direction::Horizontal,
                    516,
                    split_spec(
                        Direction::Vertical,
                        514,
                        leaf_spec(3, PanelType::Meshes),
                        leaf_spec(4, PanelType::Materials),
                    ),
                    leaf_spec(5, PanelType::Validation),
                ),
            ),
            Preset::Meshes => split_spec(
                Direction::Horizontal,
                700,
                split_spec(
                    Direction::Vertical,
                    650,
                    leaf_spec(0, PanelType::Meshes),
                    split_spec(
                        Direction::Horizontal,
                        500,
                        leaf_spec(1, PanelType::Silhouette),
                        leaf_spec(2, PanelType::Distributions),
                    ),
                ),
                leaf_spec(3, PanelType::Uv),
            ),
            Preset::Validation => split_spec(
                Direction::Horizontal,
                350,
                split_spec(
                    Direction::Vertical,
                    500,
                    leaf_spec(0, PanelType::Health),
                    leaf_spec(1, PanelType::Textures),
                ),
                leaf_spec(2, PanelType::Validation),
            ),
        }
    }
}

proof fn lemma_validation_text()
    ensures
        encode_spec(Preset::Validation.tree_spec()) == Preset::Validation.encoded_spec(),
{
    reveal_strlit("H0.350(V0.500(health,textures),validation)");
    reveal_strlit("health");
    reveal_strlit("textures");
    reveal_strlit("validation");
    reveal_with_fuel(encode_spec, 3);
    assert(crate::text::digit_spec(0) == '0');
    assert(crate::text::digit_spec(3) == '3');
    assert(crate::text::digit_spec(5) == '5');
    assert(encode_spec(Preset::Validation.tree_spec()) =~= Preset::Validation.encoded_spec());
}

proof fn lemma_survey_text()
    ensures
        encode_spec(Preset::Survey.tree_spec()) == Preset::Survey.encoded_spec(),
{
    reveal_strlit(
        "H0.295(V0.336(silhouette,V0.505(geometry,health)),H0.516(V0.514(meshes,materials),validation))",
    );
    reveal_strlit("silhouette");
    reveal_strlit("geometry");
    reveal_strlit("health");
    reveal_strlit("meshes");
    reveal_strlit("materials");
    reveal_strlit("validation");
    reveal_with_fuel(encode_spec, 4);
    assert(crate::text::digit_spec(0) == '0');
    assert(crate::text::digit_spec(1) == '1');
    assert(crate::text::digit_spec(2) == '2');
    assert(crate::text::digit_spec(3) == '3');
    assert(crate::text::digit_spec(4) == '4');
    assert(crate::text::digit_spec(5) == '5');
    assert(crate::text::digit_spec(6) == '6');
    assert(crate::text::digit_spec(9) == '9');
    assert(encode_spec(Preset::Survey.tree_spec()) =~= Preset::Survey.encoded_spec());
}

proof fn lemma_meshes_text()
    ensures
        encode_spec(Preset::Meshes.tree_spec()) == Preset::Meshes.encoded_spec(),
{
    reveal_strlit("H0.700(V0.650(meshes,H0.500(silhouette,distributions)),uv)");
    reveal_strlit("meshes");
    reveal_strlit("silhouette");
    reveal_strlit("distributions");
    reveal_strlit("uv");
    reveal_with_fuel(encode_spec, 4);
    assert(crate::text::digit_spec(0) == '0');
    assert(crate::text::digit_spec(5) == '5');
    assert(crate::text::digit_spec(6) == '6');
    assert(crate::text::digit_spec(7) == '7');
    assert(encode_spec(Preset::Meshes.tree_spec()) =~= Preset::Meshes.encoded_spec());
}

/// Each preset's text is the text of its tree, which is already numbered
/// the way reading it numbers it.
pub proof fn lemma_preset_text(p: Preset)
    ensures
        encode_spec(p.tree_spec()) == p.encoded_spec(),
        p.tree_spec().ratios_ok(),
        renumber(p.tree_spec(), 0) == p.tree_spec(),
{
    reveal_with_fuel(renumber, 4);
    reveal_with_fuel(Node::ratios_ok, 4);
    reveal_with_fuel(Node::leaf_count, 4);
    match p {
        Preset::Survey => lemma_survey_text(),
        Preset::Meshes => lemma_meshes_text(),
        Preset::Validation => lemma_validation_text(),
    }
}

impl Preset {
    /// Every preset, in the order the cycle visits them.
    pub fn all() -> (r: Vec<Preset>)
        ensures
            r@ == seq![Preset::Survey, Preset::Meshes, Preset::Validation],
    {
        let r = vec![Preset::Survey, Preset::Meshes, Preset::Validation];
        assert(r@ =~= seq![Preset::Survey, Preset::Meshes, Preset::Validation]);
        r
    }

    pub open spec fn name_spec(self) -> Seq<char> {
        match self {
            Preset::Survey => "survey"@,
            Preset::Meshes => "meshes"@,
            Preset::Validation => "validation"@,
        }
    }

    pub fn name(self) -> (r: &'static str)
        ensures
            r@ == self.name_spec(),
    {
        match self {
            Preset::Survey => "survey",
            Preset::Meshes => "meshes",
            Preset::Validation => "validation",
        }
    }

    /// The preset's arrangement in the serialised form. Every ratio is read
    /// off the design's mockups at their drawn size: 13 of 44 rows to the top
    /// band of the survey, 47, 47 and 46 of 140 columns across it.
    pub fn encoded(self) -> (r: &'static str)
        ensures
            r@ == self.encoded_spec(),
    {
        match self {
            Preset::Survey => "H0.295(V0.336(silhouette,V0.505(geometry,health)),H0.516(V0.514(meshes,materials),validation))",
            Preset::Meshes => "H0.700(V0.650(meshes,H0.500(silhouette,distributions)),uv)",
            Preset::Validation => "H0.350(V0.500(health,textures),validation)",
        }
    }

    /// The preset as a layout, read from its own encoding, which always
    /// parses.
    pub fn layout(self) -> (r: Layout)
        ensures
            r == self.layout_spec(),
            r.tree() == self.tree_spec(),
            r.focus_spec() == self.tree_spec().first_leaf_spec(),
            r.next_id_spec() == self.tree_spec().leaf_count(),
    {
        proof {
            lemma_preset_text(self);
            lemma_decode_encode(self.tree_spec());
            reveal_strlit(
                "H0.295(V0.336(silhouette,V0.505(geometry,health)),H0.516(V0.514(meshes,materials),validation))",
            );
            reveal_strlit("H0.700(V0.650(meshes,H0.500(silhouette,distributions)),uv)");
            reveal_strlit("H0.350(V0.500(health,textures),validation)");
        }
        match Layout::decode(self.encoded()) {
            Ok(l) => {
                proof {
                    lemma_rebuild(l);
                }
                l
            },
            Err(_) => {
                proof {
                    assert(false);
                }
                Layout::single(PanelType::Geometry)
            },
        }
    }

    /// The preset's arrangement, focused on its first leaf in tree order.
    pub open spec fn layout_spec(self) -> Layout {
        Layout::build(
            self.tree_spec(),
            self.tree_spec().first_leaf_spec(),
            self.tree_spec().leaf_count() as u32,
        )
    }

    pub open spec fn next_spec(self) -> Preset {
        match self {
            Preset::Survey => Preset::Meshes,
            Preset::Meshes => Preset::Validation,
            Preset::Validation => Preset::Survey,
        }
    }

    /// The next preset in the cycle.
    pub fn next(self) -> (r: Preset)
        ensures
            r == self.next_spec(),
    {
        match self {
            Preset::Survey => Preset::Meshes,
            Preset::Meshes => Preset::Validation,
            Preset::Validation => Preset::Survey,
        }
    }
}

/// Stepping through the presets as many times as there are presets comes
/// back to where it started.
pub proof fn law_presets_cycle(p: Preset)
    ensures
        p.next_spec().next_spec().next_spec() == p,
        p.next_spec() != p,
{
}

} // verus!
