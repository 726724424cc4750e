//! How the validation panel groups and filters issues, and where a jump from
//! an issue lands.

use vstd::prelude::*;
use crate::keymap::{KeyCode, KeyEvent};
use crate::layout::PanelType;
use crate::order::{sorted, sorted_spec, KeyView, SortKey};
use crate::panels::materials::MaterialRow;
use crate::panels::meshes::MeshRow;
use crate::text::{decimal, owned, push_decimal, push_str};
use super::health::Severity;
use crate::glyphs::Glyphs;
use crate::lines::{line_view, Segment, Tone};

verus! {

/// What the rows are collected under.
#[derive(Debug, Clone, Copy, PartialEq, Eq, Structural)]
pub enum Group {
    Kind,
    Subject,
}

impl Default for Group {
    fn default() -> (r: Group)
        ensures
            r == Group::Kind,
    {
        Group::Kind
    }
}

impl Group {
    pub open spec fn next_spec(self) -> Group {
        match self {
            Group::Kind => Group::Subject,
            Group::Subject => Group::Kind,
        }
    }

    pub fn next(self) -> (r: Group)
        ensures
            r == self.next_spec(),
    {
        match self {
            Group::Kind => Group::Subject,
            Group::Subject => Group::Kind,
        }
    }

    pub open spec fn label_spec(self) -> Seq<char> {
        match self {
            Group::Kind => "by kind"@,
            Group::Subject => "by subject"@,
        }
    }

    pub fn label(self) -> (r: &'static str)
        ensures
            r@ == self.label_spec(),
    {
        match self {
            Group::Kind => "by kind",
            Group::Subject => "by subject",
        }
    }
}

/// Which severities are shown.
#[derive(Debug, Clone, Copy, PartialEq, Eq, Structural)]
pub enum Filter {
    All,
    ErrorsOnly,
    WarningsOnly,
}

impl Default for Filter {
    fn default() -> (r: Filter)
        ensures
            r == Filter::All,
    {
        Filter::All
    }
}

impl Filter {
    pub open spec fn next_spec(self) -> Filter {
        match self {
            Filter::All => Filter::ErrorsOnly,
            Filter::ErrorsOnly => Filter::WarningsOnly,
            Filter::WarningsOnly => Filter::All,
        }
    }

    pub open spec fn admits_spec(self, severity: Severity) -> bool {
        match self {
            Filter::All => true,
            Filter::ErrorsOnly => severity == Severity::Error,
            Filter::WarningsOnly => severity == Severity::Warning,
        }
    }

    pub fn next(self) -> (r: Filter)
        ensures
            r == self.next_spec(),
    {
        match self {
            Filter::All => Filter::ErrorsOnly,
            Filter::ErrorsOnly => Filter::WarningsOnly,
            Filter::WarningsOnly => Filter::All,
        }
    }

    pub fn admits(self, severity: Severity) -> (b: bool)
        ensures
            b == self.admits_spec(severity),
    {
        match self {
            Filter::All => true,
            Filter::ErrorsOnly => severity == Severity::Error,
            Filter::WarningsOnly => severity == Severity::Warning,
        }
    }
}

/// The word a severity is shown with.
pub fn severity_word(severity: Severity) -> (r: &'static str)
    ensures
        severity == Severity::Error ==> r@ == "ERROR"@,
        severity == Severity::Warning ==> r@ == "WARN"@,
{
    match severity {
        Severity::Error => "ERROR",
        Severity::Warning => "WARN",
    }
}

/// What an issue is about.
#[derive(Debug, Clone, Copy, PartialEq, Eq, Structural)]
pub enum IssueScope {
    Model,
    Mesh(usize),
    Face(usize, usize),
    Edge { mesh_index: usize, first: u32, second: u32 },
    Material(usize),
}

/// Which panel type holds the thing a scope names. A model-wide issue is
/// about the asset rather than a row, so there is nowhere to jump to.
pub fn home_of(scope: &IssueScope) -> (r: Option<PanelType>)
    ensures
        r == match *scope {
            IssueScope::Mesh(_) | IssueScope::Face(..) | IssueScope::Edge { .. } => Some(
                PanelType::Meshes,
            ),
            IssueScope::Material(_) => Some(PanelType::Materials),
            IssueScope::Model => None::<PanelType>,
        },
{
    match scope {
        IssueScope::Mesh(_) | IssueScope::Face(..) | IssueScope::Edge { .. } => Some(
            PanelType::Meshes,
        ),
        IssueScope::Material(_) => Some(PanelType::Materials),
        IssueScope::Model => None,
    }
}

/// The row a scope selects in its home panel: a face or an edge lands on its
/// mesh's row.
pub fn row_of(scope: &IssueScope) -> (r: Option<usize>)
    ensures
        r == match *scope {
            IssueScope::Mesh(i) | IssueScope::Face(i, _) | IssueScope::Material(i) => Some(i),
            IssueScope::Edge { mesh_index, .. } => Some(mesh_index),
            IssueScope::Model => None::<usize>,
        },
{
    match scope {
        IssueScope::Mesh(i) | IssueScope::Face(i, _) | IssueScope::Material(i) => Some(*i),
        IssueScope::Edge { mesh_index, .. } => Some(*mesh_index),
        IssueScope::Model => None,
    }
}

pub open spec fn step_spec(selected: Option<usize>, delta: i32, count: usize) -> Option<usize> {
    if count == 0 {
        None
    } else {
        let current: int = match selected {
            Some(s) => s as int,
            None => 0,
        };
        let moved = current + delta;
        Some(
            if moved < 0 {
                0
            } else if moved > count - 1 {
                (count - 1) as usize
            } else {
                moved as usize
            },
        )
    }
}

/// Move a list selection by `delta` rows, stopping at either end; an empty
/// list selects nothing.
pub fn step(selected: Option<usize>, delta: i32, count: usize) -> (r: Option<usize>)
    requires
        count <= i32::MAX,
        selected matches Some(s) ==> s <= i32::MAX,
    ensures
        r == step_spec(selected, delta, count),
{
    if count == 0 {
        return None;
    }
    let current: i64 = match selected {
        Some(s) => s as i64,
        None => 0,
    };
    let moved: i64 = current + delta as i64;
    let last: i64 = count as i64 - 1;
    let clamped: i64 = if moved < 0 {
        0
    } else if moved > last {
        last
    } else {
        moved
    };
    Some(clamped as usize)
}

/// A jump lands on a panel exactly when it names a row.
pub proof fn law_jumps_name_a_row(scope: IssueScope)
    ensures
        (scope != IssueScope::Model) <==> (scope matches IssueScope::Mesh(_) || scope matches IssueScope::Face(..)
            || scope matches IssueScope::Edge { .. } || scope matches IssueScope::Material(_)),
{
}

/// The grouping toggles and the filter cycles back to where it started.
pub proof fn law_group_and_filter_cycle(g: Group, f: Filter)
    ensures
        g.next_spec().next_spec() == g,
        f.next_spec().next_spec().next_spec() == f,
{
}

// ---------------------------------------------------------------------------
// What an issue is about, and the rows the panel shows.
// ---------------------------------------------------------------------------

/// One issue in the report, as the panel reads it.
#[derive(Debug, Clone, PartialEq, Eq)]
pub struct IssueRow {
    /// The issue's kind, in the words the report names it with.
    pub kind: String,
    pub severity: Severity,
    pub scope: IssueScope,
    pub message: String,
}

/// The first mesh, at or after `from`, that the report numbers `index`.
pub open spec fn find_mesh(meshes: Seq<MeshRow>, index: usize, from: int) -> Option<MeshRow>
    decreases meshes.len() - from,
{
    if from < 0 || from >= meshes.len() {
        None
    } else if meshes[from].index == index {
        Some(meshes[from])
    } else {
        find_mesh(meshes, index, from + 1)
    }
}

/// The first material, at or after `from`, that the report numbers `index`.
pub open spec fn find_material(materials: Seq<MaterialRow>, index: usize, from: int) -> Option<
    MaterialRow,
>
    decreases materials.len() - from,
{
    if from < 0 || from >= materials.len() {
        None
    } else if materials[from].index == index {
        Some(materials[from])
    } else {
        find_material(materials, index, from + 1)
    }
}

pub open spec fn quoted(s: Seq<char>) -> Seq<char> {
    " '"@ + s + "'"@
}

/// A mesh named the way a reader would say it: by number, and by name when
/// it has one.
pub open spec fn mesh_subject(meshes: Seq<MeshRow>, index: usize) -> Seq<char> {
    let base = "mesh "@ + decimal(index as nat);
    match find_mesh(meshes, index, 0) {
        Some(m) => if m.name@.len() == 0 {
            base
        } else {
            base + quoted(m.name@)
        },
        None => base,
    }
}

/// What an issue is about, named the way a reader would say it.
pub open spec fn subject_spec(
    scope: IssueScope,
    meshes: Seq<MeshRow>,
    materials: Seq<MaterialRow>,
) -> Seq<char> {
    match scope {
        IssueScope::Mesh(i) | IssueScope::Face(i, _) => mesh_subject(meshes, i),
        IssueScope::Edge { mesh_index, .. } => mesh_subject(meshes, mesh_index),
        IssueScope::Material(i) => match find_material(materials, i, 0) {
            Some(m) => "material "@ + decimal(i as nat) + quoted(m.name@),
            None => "material "@ + decimal(i as nat),
        },
        IssueScope::Model => "the model"@,
    }
}

fn mesh_label(meshes: &Vec<MeshRow>, index: usize) -> (r: String)
    ensures
        r@ == mesh_subject(meshes@, index),
{
    let mut label = owned("mesh ");
    push_decimal(&mut label, index as u64);
    let mut k: usize = 0;
    while k < meshes.len()
        invariant
            k <= meshes@.len(),
            find_mesh(meshes@, index, 0) == find_mesh(meshes@, index, k as int),
            label@ == "mesh "@ + decimal(index as nat),
        decreases meshes@.len() - k,
    {
        if meshes[k].index == index {
            if !meshes[k].name.as_str().is_empty() {
                push_str(&mut label, " '");
                push_str(&mut label, meshes[k].name.as_str());
                push_str(&mut label, "'");
            }
            assert(label@ =~= mesh_subject(meshes@, index));
            return label;
        }
        k = k + 1;
    }
    label
}

/// What an issue is about, named the way a reader would say it.
pub fn subject(scope: &IssueScope, meshes: &Vec<MeshRow>, materials: &Vec<MaterialRow>) -> (r:
    String)
    ensures
        r@ == subject_spec(*scope, meshes@, materials@),
{
    match *scope {
        IssueScope::Mesh(i) | IssueScope::Face(i, _) => mesh_label(meshes, i),
        IssueScope::Edge { mesh_index, .. } => mesh_label(meshes, mesh_index),
        IssueScope::Material(index) => {
            let mut label = owned("material ");
            push_decimal(&mut label, index as u64);
            let mut k: usize = 0;
            while k < materials.len()
                invariant
                    k <= materials@.len(),
                    find_material(materials@, index, 0) == find_material(
                        materials@,
                        index,
                        k as int,
                    ),
                    label@ == "material "@ + decimal(index as nat),
                    *scope == IssueScope::Material(index),
                decreases materials@.len() - k,
            {
                if materials[k].index == index {
                    assert(find_material(materials@, index, k as int) == Some(materials@[k as int]));
                    push_str(&mut label, " '");
                    push_str(&mut label, materials[k].name.as_str());
                    push_str(&mut label, "'");
                    assert(*scope == IssueScope::Material(index));
                    assert(label@ =~= "material "@ + decimal(index as nat) + quoted(materials@[k as int].name@));
                    assert(label@ =~= subject_spec(*scope, meshes@, materials@));
                    return label;
                }
                k = k + 1;
            }
            label
        },
        IssueScope::Model => owned("the model"),
    }
}

/// The word a group is collected under: the issue's kind, or what it is
/// about.
pub open spec fn label_spec(
    issue: IssueRow,
    group: Group,
    meshes: Seq<MeshRow>,
    materials: Seq<MaterialRow>,
) -> Seq<char> {
    match group {
        Group::Kind => issue.kind@,
        Group::Subject => subject_spec(issue.scope, meshes, materials),
    }
}

/// The positions of the issues the filter admits, in report order, among
/// the first `upto`.
pub open spec fn admitted(issues: Seq<IssueRow>, filter: Filter, upto: int) -> Seq<usize>
    decreases upto,
{
    if upto <= 0 {
        Seq::empty()
    } else if filter.admits_spec(issues[upto - 1].severity) {
        admitted(issues, filter, upto - 1).push((upto - 1) as usize)
    } else {
        admitted(issues, filter, upto - 1)
    }
}

/// A group as contracts read it: its label, the worst severity in it, and
/// its members as positions in the report.
pub type GroupView = (Seq<char>, Severity, Seq<usize>);

/// The first group, at or after `from`, with this label.
pub open spec fn find_label(groups: Seq<GroupView>, label: Seq<char>, from: int) -> Option<int>
    decreases groups.len() - from,
{
    if from < 0 || from >= groups.len() {
        None
    } else if groups[from].0 == label {
        Some(from)
    } else {
        find_label(groups, label, from + 1)
    }
}

/// The first `upto` admitted issues collected by label: groups in the order
/// their first issue appears, each taking the worst severity among its
/// members and its members in report order.
pub open spec fn grouped(
    labels: Seq<Seq<char>>,
    severities: Seq<Severity>,
    positions: Seq<usize>,
    upto: int,
) -> Seq<GroupView>
    decreases upto,
{
    if upto <= 0 {
        Seq::empty()
    } else {
        let prev = grouped(labels, severities, positions, upto - 1);
        let t = upto - 1;
        match find_label(prev, labels[t], 0) {
            Some(k) => prev.update(
                k,
                (
                    prev[k].0,
                    if severities[t] == Severity::Error {
                        Severity::Error
                    } else {
                        prev[k].1
                    },
                    prev[k].2.push(positions[t]),
                ),
            ),
            None => prev.push((labels[t], severities[t], seq![positions[t]])),
        }
    }
}

/// One drawn row: a group's header, or an issue under it by its position in
/// the report.
#[derive(Debug, Clone, PartialEq, Eq)]
pub enum Row {
    Header { label: String, severity: Severity, count: usize, folded: bool },
    Issue(usize),
}

pub ghost enum RowView {
    Header { label: Seq<char>, severity: Severity, count: nat, folded: bool },
    Issue(usize),
}

impl View for Row {
    type V = RowView;

    open spec fn view(&self) -> RowView {
        match self {
            Row::Header { label, severity, count, folded } => RowView::Header {
                label: label@,
                severity: *severity,
                count: *count as nat,
                folded: *folded,
            },
            Row::Issue(p) => RowView::Issue(*p),
        }
    }
}

/// A group's rows: its header, then its issues unless it is folded.
pub open spec fn block(g: GroupView, collapsed: Seq<Seq<char>>) -> Seq<RowView> {
    let folded = collapsed.contains(g.0);
    seq![RowView::Header { label: g.0, severity: g.1, count: g.2.len(), folded }] + if folded {
        Seq::empty()
    } else {
        Seq::new(g.2.len(), |m: int| RowView::Issue(g.2[m]))
    }
}

/// The rows of the first `upto` groups in display order.
pub open spec fn blocks(
    groups: Seq<GroupView>,
    order: Seq<usize>,
    collapsed: Seq<Seq<char>>,
    upto: int,
) -> Seq<RowView>
    decreases upto,
{
    if upto <= 0 {
        Seq::empty()
    } else {
        blocks(groups, order, collapsed, upto - 1) + block(groups[order[upto - 1] as int], collapsed)
    }
}

/// The panel's rows: the admitted issues grouped, the groups with the most
/// issues first (ties in the order they first appear), each a header and,
/// unless folded, its issues.
pub open spec fn rows_spec(
    issues: Seq<IssueRow>,
    group: Group,
    filter: Filter,
    collapsed: Seq<Seq<char>>,
    meshes: Seq<MeshRow>,
    materials: Seq<MaterialRow>,
) -> Seq<RowView> {
    let positions = admitted(issues, filter, issues.len() as int);
    let labels = Seq::new(
        positions.len(),
        |t: int| label_spec(issues[positions[t] as int], group, meshes, materials),
    );
    let severities = Seq::new(positions.len(), |t: int| issues[positions[t] as int].severity);
    let groups = grouped(labels, severities, positions, positions.len() as int);
    let order = sorted_spec(KeyView::Largest(Seq::new(groups.len(), |g: int| groups[g].2.len() as u64)));
    blocks(groups, order, collapsed, groups.len() as int)
}

/// The panel's own state: the grouping, the severity filter, the groups the
/// reader folded away, and the selected row.
#[derive(Debug, Clone, PartialEq, Eq)]
pub struct Validation {
    pub group: Group,
    pub filter: Filter,
    /// Folded groups, by label, so a fold survives the filter changing
    /// under it.
    pub collapsed: Vec<String>,
    pub selected: Option<usize>,
}

pub open spec fn texts(v: Seq<String>) -> Seq<Seq<char>> {
    Seq::new(v.len(), |k: int| v[k]@)
}

fn find_group(labels: &Vec<String>, label: &String) -> (r: Option<usize>)
    ensures
        match r {
            Some(k) => k < labels@.len() && labels@[k as int]@ == label@ && forall|j: int|
                0 <= j < k ==> labels@[j]@ != label@,
            None => forall|j: int| 0 <= j < labels@.len() ==> labels@[j]@ != label@,
        },
{
    let mut k: usize = 0;
    while k < labels.len()
        invariant
            k <= labels@.len(),
            forall|j: int| 0 <= j < k ==> labels@[j]@ != label@,
        decreases labels@.len() - k,
    {
        if labels[k] == *label {
            return Some(k);
        }
        k = k + 1;
    }
    None
}

proof fn lemma_find_label(groups: Seq<GroupView>, label: Seq<char>, from: int, k: int)
    requires
        0 <= from <= k <= groups.len(),
        forall|j: int| from <= j < k ==> groups[j].0 != label,
    ensures
        k < groups.len() && groups[k].0 == label ==> find_label(groups, label, from) == Some(k),
        k == groups.len() ==> find_label(groups, label, from) is None,
    decreases k - from,
{
    if from < k {
        lemma_find_label(groups, label, from + 1, k);
    }
}

pub open spec fn severity_word_spec(severity: Severity) -> Seq<char> {
    match severity {
        Severity::Error => "ERROR"@,
        Severity::Warning => "WARN"@,
    }
}

/// How one row of the list reads. A group's heading: its severity's mark
/// and word, its label, and how many issues it holds, and whether it is
/// folded; an issue: what it is about, then its message.
pub open spec fn row_line_spec(
    row: RowView,
    issues: Seq<IssueRow>,
    meshes: Seq<MeshRow>,
    materials: Seq<MaterialRow>,
    cross: Seq<char>,
    warn: Seq<char>,
) -> Seq<(Seq<char>, Tone)> {
    match row {
        RowView::Header { label, severity, count, folded } => seq![
            (
                (if severity == Severity::Error {
                    cross
                } else {
                    warn
                }) + seq![' '] + severity_word_spec(severity),
                if severity == Severity::Error {
                    Tone::Failure
                } else {
                    Tone::Warning
                },
            ),
            ("  "@, Tone::Ink),
            (label, Tone::Emphasis),
            (
                "  "@ + decimal(count) + seq![' '] + (if count == 1 {
                    "issue"@
                } else {
                    "issues"@
                }) + (if folded {
                    ", folded"@
                } else {
                    Seq::empty()
                }),
                Tone::Dim,
            ),
        ],
        RowView::Issue(p) => seq![
            ("  "@, Tone::Ink),
            (subject_spec(issues[p as int].scope, meshes, materials), Tone::Dim),
            ("  "@, Tone::Ink),
            (issues[p as int].message@, Tone::Ink),
        ],
    }
}

/// One row of the list, as the panel draws it.
pub fn row_line(
    row: &Row,
    issues: &Vec<IssueRow>,
    meshes: &Vec<MeshRow>,
    materials: &Vec<MaterialRow>,
    glyphs: &Glyphs,
) -> (r: Vec<Segment>)
    requires
        row matches Row::Issue(p) ==> p < issues@.len(),
    ensures
        line_view(r@) == row_line_spec(row@, issues@, meshes@, materials@, glyphs.cross@, glyphs.warn@),
{
    match row {
        Row::Header { label, severity, count, folded } => {
            let (mark, tone) = match severity {
                Severity::Error => (glyphs.cross, Tone::Failure),
                Severity::Warning => (glyphs.warn, Tone::Warning),
            };
            let mut head = owned(mark);
            crate::text::push_char(&mut head, ' ');
            push_str(&mut head, severity_word(*severity));
            let mut tail = owned("  ");
            push_decimal(&mut tail, *count as u64);
            crate::text::push_char(&mut tail, ' ');
            if *count == 1 {
                push_str(&mut tail, "issue");
            } else {
                push_str(&mut tail, "issues");
            }
            if *folded {
                push_str(&mut tail, ", folded");
            }
            proof {
                reveal_strlit("  ");
            }
            assert(head@ =~= (if *severity == Severity::Error {
                glyphs.cross@
            } else {
                glyphs.warn@
            }) + seq![' '] + severity_word_spec(*severity));
            assert(tail@ =~= "  "@ + decimal(*count as nat) + seq![' '] + (if *count == 1 {
                "issue"@
            } else {
                "issues"@
            }) + (if *folded {
                ", folded"@
            } else {
                Seq::<char>::empty()
            }));
            let r = vec![
                Segment { text: head, tone },
                Segment { text: owned("  "), tone: Tone::Ink },
                Segment { text: label.clone(), tone: Tone::Emphasis },
                Segment { text: tail, tone: Tone::Dim },
            ];
            assert(line_view(r@) =~~= row_line_spec(
                row@,
                issues@,
                meshes@,
                materials@,
                glyphs.cross@,
                glyphs.warn@,
            ));
            r
        },
        Row::Issue(p) => {
            let issue = &issues[*p];
            let r = vec![
                Segment { text: owned("  "), tone: Tone::Ink },
                Segment { text: subject(&issue.scope, meshes, materials), tone: Tone::Dim },
                Segment { text: owned("  "), tone: Tone::Ink },
                Segment { text: issue.message.clone(), tone: Tone::Ink },
            ];
            assert(line_view(r@) =~~= row_line_spec(
                row@,
                issues@,
                meshes@,
                materials@,
                glyphs.cross@,
                glyphs.warn@,
            ));
            r
        },
    }
}

/// What an empty list says: that the report is clean, or that the severity
/// filter hides all `total` of its issues.
pub fn empty_message(total: usize) -> (r: &'static str)
    ensures
        r@ == (if total == 0 {
            "no issues found"@
        } else {
            "no issue matches this severity"@
        }),
{
    if total == 0 {
        "no issues found"
    } else {
        "no issue matches this severity"
    }
}

/// The panel's status: both counts, how many kinds occurred, and the
/// grouping.
pub open spec fn status_spec(errors: nat, warnings: nat, kinds: nat, group: Group) -> Seq<char> {
    decimal(errors) + " errors, "@ + decimal(warnings) + " warnings across "@ + decimal(kinds)
        + " kinds \u{b7} "@ + group.label_spec()
}

impl Validation {
    /// How many errors and warnings the report holds, across how many
    /// kinds, and how the rows are grouped.
    pub fn status(&self, errors: u64, warnings: u64, kinds: u64) -> (r: String)
        ensures
            r@ == status_spec(errors as nat, warnings as nat, kinds as nat, self.group),
    {
        let mut out = String::new();
        push_decimal(&mut out, errors);
        push_str(&mut out, " errors, ");
        push_decimal(&mut out, warnings);
        push_str(&mut out, " warnings across ");
        push_decimal(&mut out, kinds);
        push_str(&mut out, " kinds \u{b7} ");
        push_str(&mut out, self.group.label());
        assert(out@ =~= status_spec(errors as nat, warnings as nat, kinds as nat, self.group));
        out
    }

    pub fn new() -> (r: Validation)
        ensures
            r.group == Group::Kind,
            r.filter == Filter::All,
            r.collapsed@.len() == 0,
            r.selected is None,
    {
        Validation { group: Group::Kind, filter: Filter::All, collapsed: Vec::new(), selected: None }
    }

    /// The rows the panel shows.
    pub fn rows(&self, issues: &Vec<IssueRow>, meshes: &Vec<MeshRow>, materials: &Vec<MaterialRow>) -> (r:
        Vec<Row>)
        ensures
            r@.len() == rows_spec(
                issues@,
                self.group,
                self.filter,
                texts(self.collapsed@),
                meshes@,
                materials@,
            ).len(),
            forall|t: int|
                0 <= t < r@.len() ==> #[trigger] r@[t]@ == rows_spec(
                    issues@,
                    self.group,
                    self.filter,
                    texts(self.collapsed@),
                    meshes@,
                    materials@,
                )[t],
            forall|t: int| 0 <= t < r@.len() ==> (#[trigger] r@[t] matches Row::Issue(p) ==> p < issues@.len()),
    {
        // The admitted issues and their labels.
        let mut positions: Vec<usize> = Vec::new();
        let mut i: usize = 0;
        while i < issues.len()
            invariant
                i <= issues@.len(),
                positions@ == admitted(issues@, self.filter, i as int),
                forall|t: int| 0 <= t < positions@.len() ==> positions@[t] < i,
            decreases issues@.len() - i,
        {
            if self.filter.admits(issues[i].severity) {
                positions.push(i);
            }
            i = i + 1;
        }
        let ghost labels = Seq::new(
            positions@.len(),
            |t: int| label_spec(issues@[positions@[t] as int], self.group, meshes@, materials@),
        );
        let ghost severities = Seq::new(
            positions@.len(),
            |t: int| issues@[positions@[t] as int].severity,
        );
        // Collect by label, in order of first appearance.
        let mut names: Vec<String> = Vec::new();
        let mut worst: Vec<Severity> = Vec::new();
        let mut members: Vec<Vec<usize>> = Vec::new();
        let mut t: usize = 0;
        while t < positions.len()
            invariant
                forall|q: int| 0 <= q < positions@.len() ==> positions@[q] < issues@.len(),
                labels == Seq::new(
                    positions@.len(),
                    |t: int| label_spec(issues@[positions@[t] as int], self.group, meshes@, materials@),
                ),
                severities == Seq::new(
                    positions@.len(),
                    |t: int| issues@[positions@[t] as int].severity,
                ),
                t <= positions@.len(),
                names@.len() == worst@.len(),
                names@.len() == members@.len(),
                Seq::new(names@.len(), |g: int| (names@[g]@, worst@[g], members@[g]@)) == grouped(
                    labels,
                    severities,
                    positions@,
                    t as int,
                ),
                forall|g: int| 0 <= g < members@.len() ==> #[trigger] members@[g]@.len() <= t,
                forall|g: int, j: int|
                    0 <= g < members@.len() && 0 <= j < members@[g]@.len() ==> #[trigger] members@[g]@[j]
                        < issues@.len(),
            decreases positions@.len() - t,
        {
            let issue = &issues[positions[t]];
            let label = match self.group {
                Group::Kind => issue.kind.clone(),
                Group::Subject => subject(&issue.scope, meshes, materials),
            };
            let ghost prev = grouped(labels, severities, positions@, t as int);
            let ghost old_names = names@;
            let ghost old_worst = worst@;
            let ghost old_members = members@;
            assert(labels[t as int] == label@);
            assert(severities[t as int] == issue.severity);
            assert(prev.len() == old_names.len());
            assert(forall|g: int| 0 <= g < prev.len() ==> #[trigger] prev[g] == (old_names[g]@, old_worst[g], old_members[g]@));
            match find_group(&names, &label) {
                Some(k) => {
                    proof {
                        lemma_find_label(prev, label@, 0, k as int);
                    }
                    if issue.severity == Severity::Error {
                        worst[k] = Severity::Error;
                    }
                    members[k].push(positions[t]);
                    proof {
                        let next = grouped(labels, severities, positions@, t + 1);
                        assert(next == prev.update(
                            k as int,
                            (
                                prev[k as int].0,
                                if severities[t as int] == Severity::Error {
                                    Severity::Error
                                } else {
                                    prev[k as int].1
                                },
                                prev[k as int].2.push(positions@[t as int]),
                            ),
                        ));
                        assert(names@ == old_names);
                        assert forall|g: int, j: int|
                            0 <= g < members@.len() && 0 <= j < members@[g]@.len() implies #[trigger] members@[g]@[j]
                                < issues@.len() by {
                            if g != k {
                                assert(members@[g] == old_members[g]);
                            } else if j < old_members[g]@.len() {
                                assert(members@[g]@[j] == old_members[g]@[j]);
                            }
                        }
                        assert forall|g: int| 0 <= g < names@.len() implies #[trigger] next[g] == (
                            names@[g]@,
                            worst@[g],
                            members@[g]@,
                        ) by {
                            if g != k {
                                assert(members@[g] == old_members[g]);
                                assert(worst@[g] == old_worst[g]);
                            }
                        }
                    }
                },
                None => {
                    proof {
                        lemma_find_label(prev, label@, 0, prev.len() as int);
                    }
                    let first = vec![positions[t]];
                    assert(first@ =~= seq![positions@[t as int]]);
                    names.push(label);
                    worst.push(issue.severity);
                    members.push(first);
                    proof {
                        let next = grouped(labels, severities, positions@, t + 1);
                        assert(next == prev.push((labels[t as int], severities[t as int], seq![positions@[t as int]])));
                        assert forall|g: int, j: int|
                            0 <= g < members@.len() && 0 <= j < members@[g]@.len() implies #[trigger] members@[g]@[j]
                                < issues@.len() by {
                            if g < old_members.len() {
                                assert(members@[g] == old_members[g]);
                            }
                        }
                        assert forall|g: int| 0 <= g < names@.len() implies #[trigger] next[g] == (
                            names@[g]@,
                            worst@[g],
                            members@[g]@,
                        ) by {
                            if g < old_names.len() {
                                assert(names@[g] == old_names[g]);
                                assert(members@[g] == old_members[g]);
                                assert(worst@[g] == old_worst[g]);
                            }
                        }
                    }
                },
            }
            t = t + 1;
            assert(Seq::new(names@.len(), |g: int| (names@[g]@, worst@[g], members@[g]@))
                =~= grouped(labels, severities, positions@, t as int));
        }
        let ghost groups = grouped(labels, severities, positions@, positions@.len() as int);
        // The groups with the most issues first.
        let mut counts: Vec<u64> = Vec::new();
        let mut g: usize = 0;
        while g < members.len()
            invariant
                g <= members@.len(),
                counts@.len() == g,
                forall|q: int| 0 <= q < g ==> #[trigger] counts@[q] == members@[q]@.len() as u64,
                forall|q: int| 0 <= q < members@.len() ==> #[trigger] members@[q]@.len() <= positions@.len(),
            decreases members@.len() - g,
        {
            counts.push(members[g].len() as u64);
            g = g + 1;
        }
        assert(counts@ =~= Seq::new(groups.len(), |g: int| groups[g].2.len() as u64));
        let key = SortKey::Largest(counts);
        let order = sorted(&key);
        // Headers, and the issues of every group that is not folded.
        let ghost collapsed = texts(self.collapsed@);
        let mut rows: Vec<Row> = Vec::new();
        let mut o: usize = 0;
        while o < order.len()
            invariant
                groups == Seq::new(names@.len(), |g: int| (names@[g]@, worst@[g], members@[g]@)),
                collapsed == texts(self.collapsed@),
                crate::order::arranges(order@, key@),
                order@ == sorted_spec(key@),
                key@.count() == names@.len(),
                names@.len() == worst@.len(),
                names@.len() == members@.len(),
                forall|g: int, j: int|
                    0 <= g < members@.len() && 0 <= j < members@[g]@.len() ==> #[trigger] members@[g]@[j]
                        < issues@.len(),
                forall|q: int| 0 <= q < rows@.len() ==> (#[trigger] rows@[q] matches Row::Issue(p) ==> p < issues@.len()),
                o <= order@.len(),
                rows@.len() == blocks(groups, order@, collapsed, o as int).len(),
                forall|q: int|
                    0 <= q < rows@.len() ==> #[trigger] rows@[q]@ == blocks(
                        groups,
                        order@,
                        collapsed,
                        o as int,
                    )[q],
            decreases order@.len() - o,
        {
            let k = order[o];
            let label = &names[k];
            let mut folded = false;
            let mut c: usize = 0;
            while c < self.collapsed.len()
                invariant
                    c <= self.collapsed@.len(),
                    collapsed == texts(self.collapsed@),
                    folded <==> exists|j: int| 0 <= j < c && #[trigger] collapsed[j] == label@,
                decreases self.collapsed@.len() - c,
            {
                assert(collapsed[c as int] == self.collapsed@[c as int]@);
                if self.collapsed[c] == *label {
                    folded = true;
                }
                c = c + 1;
            }
            assert(folded == collapsed.contains(label@));
            let ghost before = rows@;
            rows.push(
                Row::Header { label: label.clone(), severity: worst[k], count: members[k].len(), folded },
            );
            assert(rows@[before.len() as int]@ == block(groups[k as int], collapsed)[0]);
            if !folded {
                let list = &members[k];
                let mut m: usize = 0;
                while m < list.len()
                    invariant
                        m <= list@.len(),
                        rows@.len() == before.len() + 1 + m,
                        forall|q: int| 0 <= q < before.len() ==> #[trigger] rows@[q] == before[q],
                        rows@[before.len() as int]@ == block(groups[k as int], collapsed)[0],
                        list@ == members@[k as int]@,
                        forall|q: int| 0 <= q < rows@.len() ==> (#[trigger] rows@[q] matches Row::Issue(p) ==> p < issues@.len()),
                        forall|j: int| 0 <= j < list@.len() ==> #[trigger] list@[j] < issues@.len(),
                        forall|q: int|
                            before.len() + 1 <= q < before.len() + 1 + m ==> #[trigger] rows@[q]@
                                == RowView::Issue(members@[k as int]@[q - before.len() - 1]),
                    decreases list@.len() - m,
                {
                    rows.push(Row::Issue(list[m]));
                    m = m + 1;
                }
            }
            proof {
                let b = block(groups[k as int], collapsed);
                assert(blocks(groups, order@, collapsed, o + 1) == blocks(
                    groups,
                    order@,
                    collapsed,
                    o as int,
                ) + b);
                assert forall|q: int| 0 <= q < rows@.len() implies #[trigger] rows@[q]@ == blocks(
                    groups,
                    order@,
                    collapsed,
                    o + 1,
                )[q] by {
                    let prefix = blocks(groups, order@, collapsed, o as int);
                    let whole = blocks(groups, order@, collapsed, o + 1);
                    assert(whole == prefix + b);
                    assert(prefix.len() == before.len());
                    if q < before.len() {
                        assert(rows@[q] == before[q]);
                        assert(before[q]@ == prefix[q]);
                        assert(whole[q] == prefix[q]);
                    } else if q == before.len() {
                        assert(whole[q] == b[0]);
                    } else {
                        assert(whole[q] == b[q - before.len()]);
                        assert(b[q - before.len()] == RowView::Issue(members@[k as int]@[q - before.len() - 1]));
                        assert(rows@[q]@ == RowView::Issue(members@[k as int]@[q - before.len() - 1]));
                    }
                }
            }
            o = o + 1;
        }
        rows
    }
}

/// The first index, at or after `from`, holding this text.
pub open spec fn first_index(v: Seq<Seq<char>>, x: Seq<char>, from: int) -> Option<int>
    decreases v.len() - from,
{
    if from < 0 || from >= v.len() {
        None
    } else if v[from] == x {
        Some(from)
    } else {
        first_index(v, x, from + 1)
    }
}

/// The folded groups after return on a header: unfolded if it was folded,
/// folded if it was not.
pub open spec fn toggled(collapsed: Seq<Seq<char>>, label: Seq<char>) -> Seq<Seq<char>> {
    match first_index(collapsed, label, 0) {
        Some(i) => collapsed.remove(i),
        None => collapsed.push(label),
    }
}

impl Validation {
    /// What a key does to the panel. Return on an issue asks for a jump to
    /// what it is about; on a header it folds or unfolds the group.
    pub fn handle(
        &mut self,
        key: KeyEvent,
        issues: &Vec<IssueRow>,
        meshes: &Vec<MeshRow>,
        materials: &Vec<MaterialRow>,
    ) -> (r: Option<IssueScope>)
        requires
            old(self).selected matches Some(s) ==> s <= i32::MAX,
            rows_spec(
                issues@,
                old(self).group,
                old(self).filter,
                texts(old(self).collapsed@),
                meshes@,
                materials@,
            ).len() <= i32::MAX,
        ensures
            ({
                let rows = rows_spec(
                    issues@,
                    old(self).group,
                    old(self).filter,
                    texts(old(self).collapsed@),
                    meshes@,
                    materials@,
                );
                let count = rows.len();
                let same_but = final(self).group == old(self).group && final(self).filter == old(self).filter && final(self).collapsed == old(self).collapsed;
                if key.code == KeyCode::Char('g') && !key.control {
                    r is None && same_but && final(self).selected == (if count == 0 {
                        None
                    } else {
                        Some(0usize)
                    })
                } else if key.code == KeyCode::Char('G') {
                    r is None && same_but && final(self).selected == (if count == 0 {
                        None
                    } else {
                        Some((count - 1) as usize)
                    })
                } else if key.code == KeyCode::Char('o') || key.code == KeyCode::Char('O') {
                    r is None && final(self).group == old(self).group.next_spec() && final(self).filter
                        == old(self).filter && final(self).collapsed == old(self).collapsed && final(self).selected == old(self).selected
                } else if key.code == KeyCode::Char('/') {
                    r is None && final(self).filter == old(self).filter.next_spec() && final(self).group
                        == old(self).group && final(self).collapsed == old(self).collapsed && final(self).selected == old(self).selected
                } else if key.code == KeyCode::Down || key.code == KeyCode::Char('j') {
                    r is None && same_but && final(self).selected == step_spec(
                        old(self).selected,
                        1i32,
                        count as usize,
                    )
                } else if key.code == KeyCode::Up || key.code == KeyCode::Char('k') {
                    r is None && same_but && final(self).selected == step_spec(
                        old(self).selected,
                        -1i32,
                        count as usize,
                    )
                } else if key.code == KeyCode::Enter && old(self).selected is Some
                    && old(self).selected.unwrap() < count {
                    match rows[old(self).selected.unwrap() as int] {
                        RowView::Issue(p) => p < issues@.len() && r == Some(issues@[p as int].scope)
                            && *final(self) == *old(self),
                        RowView::Header { label, .. } => r is None && final(self).group == old(self).group && final(self).filter == old(self).filter && final(self).selected
                            == old(self).selected && texts(final(self).collapsed@) == toggled(
                            texts(old(self).collapsed@),
                            label,
                        ),
                    }
                } else {
                    r is None && *final(self) == *old(self)
                }
            }),
    {
        let rows = self.rows(issues, meshes, materials);
        let count = rows.len();
        if key.code == KeyCode::Char('g') && !key.control {
            self.selected = if count == 0 {
                None
            } else {
                Some(0)
            };
            return None;
        }
        match key.code {
            KeyCode::Char('G') => {
                self.selected = if count == 0 {
                    None
                } else {
                    Some(count - 1)
                };
                None
            },
            KeyCode::Char('o') | KeyCode::Char('O') => {
                self.group = self.group.next();
                None
            },
            KeyCode::Char('/') => {
                self.filter = self.filter.next();
                None
            },
            KeyCode::Down | KeyCode::Char('j') => {
                self.selected = step(self.selected, 1, count);
                None
            },
            KeyCode::Up | KeyCode::Char('k') => {
                self.selected = step(self.selected, -1, count);
                None
            },
            KeyCode::Enter => {
                let i = match self.selected {
                    Some(i) => i,
                    None => {
                        return None;
                    },
                };
                if i >= count {
                    return None;
                }
                match &rows[i] {
                    Row::Issue(p) => {
                        assert(rows@[i as int]@ == RowView::Issue(*p));
                        assert(rows@[i as int] matches Row::Issue(_));
                        Some(issues[*p].scope)
                    },

                    Row::Header { label, .. } => {
                        assert(rows@[i as int]@ matches RowView::Header { .. });
                        let ghost before = texts(self.collapsed@);
                        let mut c: usize = 0;
                        let mut found: Option<usize> = None;
                        while c < self.collapsed.len() && found.is_none()
                            invariant
                                c <= self.collapsed@.len(),
                                before == texts(self.collapsed@),
                                found is None ==> first_index(before, label@, 0) == first_index(
                                    before,
                                    label@,
                                    c as int,
                                ),
                                found matches Some(f) ==> f < self.collapsed@.len()
                                    && first_index(before, label@, 0) == Some(f as int),
                            decreases self.collapsed@.len() - c + (if found is None { 1int } else { 0int }),
                        {
                            assert(before[c as int] == self.collapsed@[c as int]@);
                            if self.collapsed[c] == *label {
                                found = Some(c);
                            } else {
                                c = c + 1;
                            }
                        }
                        match found {
                            Some(f) => {
                                self.collapsed.remove(f);
                                assert(texts(self.collapsed@) =~= before.remove(f as int));
                            },
                            None => {
                                self.collapsed.push(label.clone());
                                assert(texts(self.collapsed@) =~= before.push(label@));
                            },
                        }
                        None
                    },
                }
            },
            _ => None,
        }
    }
}

} // verus!
