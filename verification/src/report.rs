//! The counting half of an analysis report: the table rows of every mesh and
//! material, the totals, and an error for every referenced texture that is
//! not there. What a model file holds, and whether a texture file exists on
//! disk, the caller reads; the colours and bounds are floating point and
//! stay with it too.

use vstd::prelude::*;
use crate::help::{begins, starts};
use crate::panels::health::Severity;
use crate::panels::materials::MaterialRow;
use crate::panels::meshes::MeshRow;
use crate::panels::textures::TextureRow;
use crate::panels::validation::{IssueRow, IssueScope};
use crate::text::{chars_of, owned, push_str};

verus! {

/// One mesh as loaded: its name, how many position, index, normal and
/// texture-coordinate values it carries, and the material it names.
#[derive(Debug)]
pub struct MeshData {
    pub name: String,
    /// Position values, three a vertex.
    pub positions: usize,
    pub indices: usize,
    /// Normal values, three a vertex.
    pub normals: usize,
    /// Texture coordinate values, two a vertex.
    pub texcoords: usize,
    pub material_id: Option<usize>,
}

/// A texture a material references, and whether a file of that name stands
/// next to the model.
#[derive(Debug)]
pub struct TextureRef {
    pub path: String,
    pub found: bool,
}

/// One material as loaded. `slots` holds its six texture references in the
/// order diffuse, ambient, specular, normal, shininess, dissolve.
#[derive(Debug)]
pub struct MaterialData {
    pub name: String,
    /// Its base colour's luminance, as an orderable key.
    pub luminance: u64,
    pub slots: Vec<Option<TextureRef>>,
}

/// The counts of a report, its rows, and its issues.
#[derive(Debug)]
pub struct Summary {
    pub mesh_count: usize,
    pub material_count: usize,
    pub total_vertices: usize,
    pub total_indices: usize,
    pub total_triangles: usize,
    pub meshes: Vec<MeshRow>,
    pub materials: Vec<MaterialRow>,
    pub issues: Vec<IssueRow>,
}

pub open spec fn texts_of_option(o: Option<String>) -> Option<Seq<char>> {
    match o {
        Some(s) => Some(s@),
        None => None,
    }
}

/// A mesh's table row: its counts from its value counts, and its material
/// by name where the index names one that exists.
pub open spec fn mesh_row_ok(meshes: Seq<MeshData>, materials: Seq<MaterialData>, i: int, r: MeshRow) -> bool {
    let m = meshes[i];
    &&& r.index == i
    &&& r.name@ == m.name@
    &&& r.vertex_count == m.positions / 3
    &&& r.triangle_count == m.indices / 3
    &&& r.normal_count == m.normals / 3
    &&& r.texcoord_count == m.texcoords / 2
    &&& r.material_id == m.material_id
    &&& texts_of_option(r.material_name) == match m.material_id {
        Some(k) => if k < materials.len() {
            Some(materials[k as int].name@)
        } else {
            None
        },
        None => None,
    }
}

pub open spec fn slot_name(k: int) -> Seq<char> {
    if k == 0 {
        "Diffuse"@
    } else if k == 1 {
        "Ambient"@
    } else if k == 2 {
        "Specular"@
    } else if k == 3 {
        "Normal"@
    } else if k == 4 {
        "Shininess"@
    } else {
        "Dissolve"@
    }
}

/// A reference by index into the file's own images rather than a path.
pub open spec fn indexed(path: Seq<char>) -> bool {
    begins(path, "texture_index:"@)
}

pub open spec fn texture_view(t: TextureRow) -> (Seq<char>, Seq<char>, bool, Option<(u32, u32)>) {
    (t.slot@, t.path@, t.exists, t.dimensions)
}

pub open spec fn texture_views(s: Seq<TextureRow>) -> Seq<(Seq<char>, Seq<char>, bool, Option<(u32, u32)>)> {
    Seq::new(s.len(), |k: int| texture_view(s[k]))
}

/// The entries of a material's first `upto` slots: each slot that names a
/// texture, which exists when it is an index into the file or its file is
/// there.
pub open spec fn slot_entries(slots: Seq<Option<TextureRef>>, upto: int) -> Seq<
    (Seq<char>, Seq<char>, bool, Option<(u32, u32)>),
>
    decreases upto,
{
    if upto <= 0 {
        Seq::empty()
    } else {
        let rest = slot_entries(slots, upto - 1);
        match slots[upto - 1] {
            Some(t) => rest.push(
                (slot_name(upto - 1), t.path@, indexed(t.path@) || t.found, None),
            ),
            None => rest,
        }
    }
}

pub open spec fn issue_view(i: IssueRow) -> (Seq<char>, Severity, IssueScope, Seq<char>) {
    (i.kind@, i.severity, i.scope, i.message@)
}

pub open spec fn issue_views(s: Seq<IssueRow>) -> Seq<(Seq<char>, Severity, IssueScope, Seq<char>)> {
    Seq::new(s.len(), |k: int| issue_view(s[k]))
}

/// The error for a texture path whose file is not there.
pub open spec fn missing_issue(kind: Seq<char>, index: usize, path: Seq<char>) -> (
    Seq<char>,
    Severity,
    IssueScope,
    Seq<char>,
) {
    (kind, Severity::Error, IssueScope::Material(index), "Texture file not found: '"@ + path + "'"@)
}

/// The errors for a material's first `upto` slots.
pub open spec fn slot_missing(
    slots: Seq<Option<TextureRef>>,
    index: usize,
    kind: Seq<char>,
    upto: int,
) -> Seq<(Seq<char>, Severity, IssueScope, Seq<char>)>
    decreases upto,
{
    if upto <= 0 {
        Seq::empty()
    } else {
        let rest = slot_missing(slots, index, kind, upto - 1);
        match slots[upto - 1] {
            Some(t) => if !indexed(t.path@) && !t.found {
                rest.push(missing_issue(kind, index, t.path@))
            } else {
                rest
            },
            None => rest,
        }
    }
}

/// The errors for the first `upto` materials, in order.
pub open spec fn all_missing(materials: Seq<MaterialData>, kind: Seq<char>, upto: int) -> Seq<
    (Seq<char>, Severity, IssueScope, Seq<char>),
>
    decreases upto,
{
    if upto <= 0 {
        Seq::empty()
    } else {
        all_missing(materials, kind, upto - 1) + slot_missing(
            materials[upto - 1].slots@,
            (upto - 1) as usize,
            kind,
            6,
        )
    }
}

pub open spec fn vertex_sum(meshes: Seq<MeshData>, upto: int) -> int
    decreases upto,
{
    if upto <= 0 {
        0
    } else {
        vertex_sum(meshes, upto - 1) + meshes[upto - 1].positions / 3
    }
}

pub open spec fn index_sum(meshes: Seq<MeshData>, upto: int) -> int
    decreases upto,
{
    if upto <= 0 {
        0
    } else {
        index_sum(meshes, upto - 1) + meshes[upto - 1].indices
    }
}

pub open spec fn triangle_sum(meshes: Seq<MeshData>, upto: int) -> int
    decreases upto,
{
    if upto <= 0 {
        0
    } else {
        triangle_sum(meshes, upto - 1) + meshes[upto - 1].indices / 3
    }
}

proof fn lemma_sums_grow(meshes: Seq<MeshData>, a: int, b: int)
    requires
        0 <= a <= b,
    ensures
        vertex_sum(meshes, a) <= vertex_sum(meshes, b),
        index_sum(meshes, a) <= index_sum(meshes, b),
        triangle_sum(meshes, a) <= triangle_sum(meshes, b),
        triangle_sum(meshes, a) <= index_sum(meshes, a),
        0 <= vertex_sum(meshes, a),
        0 <= triangle_sum(meshes, a),
    decreases b,
{
    if a < b {
        lemma_sums_grow(meshes, a, b - 1);
    } else if a > 0 {
        lemma_sums_grow(meshes, a - 1, a - 1);
    }
}

fn slot_label(k: usize) -> (r: &'static str)
    ensures
        r@ == slot_name(k as int),
{
    if k == 0 {
        "Diffuse"
    } else if k == 1 {
        "Ambient"
    } else if k == 2 {
        "Specular"
    } else if k == 3 {
        "Normal"
    } else if k == 4 {
        "Shininess"
    } else {
        "Dissolve"
    }
}

/// A mesh's table row.
fn mesh_row(meshes: &Vec<MeshData>, materials: &Vec<MaterialData>, i: usize) -> (r: MeshRow)
    requires
        i < meshes@.len(),
    ensures
        mesh_row_ok(meshes@, materials@, i as int, r),
{
    let m = &meshes[i];
    let material_name = match m.material_id {
        Some(k) => if k < materials.len() {
            Some(materials[k].name.clone())
        } else {
            None
        },
        None => None,
    };
    MeshRow {
        index: i,
        name: m.name.clone(),
        vertex_count: m.positions / 3,
        triangle_count: m.indices / 3,
        normal_count: m.normals / 3,
        texcoord_count: m.texcoords / 2,
        material_name,
        material_id: m.material_id,
    }
}

/// A material's table row, with an error added for every texture whose
/// file is not there.
fn material_row(m: &MaterialData, index: usize, kind: &str, issues: &mut Vec<IssueRow>) -> (r:
    MaterialRow)
    requires
        m.slots@.len() == 6,
    ensures
        r.index == index,
        r.name@ == m.name@,
        r.luminance == m.luminance,
        texture_views(r.textures@) == slot_entries(m.slots@, 6),
        issue_views(final(issues)@) == issue_views(old(issues)@) + slot_missing(m.slots@, index, kind@, 6),
{
    let ghost start = issue_views(issues@);
    let mut textures: Vec<TextureRow> = Vec::new();
    let mut k: usize = 0;
    while k < 6
        invariant
            k <= 6,
            m.slots@.len() == 6,
            texture_views(textures@) == slot_entries(m.slots@, k as int),
            issue_views(issues@) == start + slot_missing(m.slots@, index, kind@, k as int),
        decreases 6 - k,
    {
        match &m.slots[k] {
            Some(t) => {
                let chars = chars_of(t.path.as_str());
                let by_index = starts(&chars, "texture_index:");
                let exists = by_index || t.found;
                let ghost before = texture_views(textures@);
                textures.push(
                    TextureRow {
                        slot: owned(slot_label(k)),
                        path: t.path.clone(),
                        exists,
                        dimensions: None,
                    },
                );
                assert(texture_views(textures@) =~= before.push(
                    (slot_name(k as int), t.path@, indexed(t.path@) || t.found, None),
                ));
                if !exists {
                    let mut message = owned("Texture file not found: '");
                    push_str(&mut message, t.path.as_str());
                    push_str(&mut message, "'");
                    let ghost was = issue_views(issues@);
                    issues.push(
                        IssueRow {
                            kind: owned(kind),
                            severity: Severity::Error,
                            scope: IssueScope::Material(index),
                            message,
                        },
                    );
                    assert(issue_views(issues@) =~= was.push(missing_issue(kind@, index, t.path@)));
                }
            },
            None => {},
        }
        k = k + 1;
    }
    MaterialRow { index, name: m.name.clone(), luminance: m.luminance, textures }
}

/// The counting half of the report: a row for every mesh and material in
/// file order, the totals over the meshes, and the given issues followed by
/// an error of `kind` for every referenced texture whose file is not there,
/// in material and then slot order. A texture named by index into the file
/// is always there.
pub fn summarize(
    meshes: &Vec<MeshData>,
    materials: &Vec<MaterialData>,
    issues: Vec<IssueRow>,
    kind: &str,
) -> (r: Summary)
    requires
        forall|i: int| 0 <= i < materials@.len() ==> (#[trigger] materials@[i]).slots@.len() == 6,
        vertex_sum(meshes@, meshes@.len() as int) <= usize::MAX,
        index_sum(meshes@, meshes@.len() as int) <= usize::MAX,
    ensures
        r.mesh_count == meshes@.len(),
        r.material_count == materials@.len(),
        r.total_vertices == vertex_sum(meshes@, meshes@.len() as int),
        r.total_indices == index_sum(meshes@, meshes@.len() as int),
        r.total_triangles == triangle_sum(meshes@, meshes@.len() as int),
        r.meshes@.len() == meshes@.len(),
        forall|i: int| 0 <= i < meshes@.len() ==> mesh_row_ok(meshes@, materials@, i, #[trigger] r.meshes@[i]),
        r.materials@.len() == materials@.len(),
        forall|i: int|
            0 <= i < materials@.len() ==> {
                &&& (#[trigger] r.materials@[i]).index == i
                &&& r.materials@[i].name@ == materials@[i].name@
                &&& r.materials@[i].luminance == materials@[i].luminance
                &&& texture_views(r.materials@[i].textures@) == slot_entries(materials@[i].slots@, 6)
            },
        issue_views(r.issues@) == issue_views(issues@) + all_missing(
            materials@,
            kind@,
            materials@.len() as int,
        ),
{
    let n = meshes.len();
    let mut total_vertices: usize = 0;
    let mut total_indices: usize = 0;
    let mut total_triangles: usize = 0;
    let mut rows: Vec<MeshRow> = Vec::new();
    let mut i: usize = 0;
    while i < n
        invariant
            n == meshes@.len(),
            i <= n,
            vertex_sum(meshes@, n as int) <= usize::MAX,
            index_sum(meshes@, n as int) <= usize::MAX,
            total_vertices == vertex_sum(meshes@, i as int),
            total_indices == index_sum(meshes@, i as int),
            total_triangles == triangle_sum(meshes@, i as int),
            rows@.len() == i,
            forall|k: int| 0 <= k < i ==> mesh_row_ok(meshes@, materials@, k, #[trigger] rows@[k]),
        decreases n - i,
    {
        proof {
            lemma_sums_grow(meshes@, i + 1, n as int);
        }
        total_vertices = total_vertices + meshes[i].positions / 3;
        total_indices = total_indices + meshes[i].indices;
        total_triangles = total_triangles + meshes[i].indices / 3;
        rows.push(mesh_row(meshes, materials, i));
        i = i + 1;
    }
    let mut out_issues = issues;
    let ghost start = issue_views(out_issues@);
    let mut mats: Vec<MaterialRow> = Vec::new();
    let mut j: usize = 0;
    while j < materials.len()
        invariant
            j <= materials@.len(),
            forall|q: int| 0 <= q < materials@.len() ==> (#[trigger] materials@[q]).slots@.len() == 6,
            mats@.len() == j,
            forall|q: int|
                0 <= q < j ==> {
                    &&& (#[trigger] mats@[q]).index == q
                    &&& mats@[q].name@ == materials@[q].name@
                    &&& mats@[q].luminance == materials@[q].luminance
                    &&& texture_views(mats@[q].textures@) == slot_entries(materials@[q].slots@, 6)
                },
            issue_views(out_issues@) == start + all_missing(materials@, kind@, j as int),
        decreases materials@.len() - j,
    {
        assert(materials@[j as int].slots@.len() == 6);
        let row = material_row(&materials[j], j, kind, &mut out_issues);
        mats.push(row);
        j = j + 1;
    }
    Summary {
        mesh_count: n,
        material_count: materials.len(),
        total_vertices,
        total_indices,
        total_triangles,
        meshes: rows,
        materials: mats,
        issues: out_issues,
    }
}

} // verus!
