use solarxy_cli::panels::health::Severity;
use solarxy_cli::panels::validation::{IssueRow, IssueScope};
use solarxy_cli::report::{summarize, MaterialData, MeshData, TextureRef};

fn mesh(name: &str, vertices: usize, triangles: usize, material_id: Option<usize>) -> MeshData {
    MeshData {
        name: name.to_string(),
        positions: vertices * 3,
        indices: triangles * 3,
        normals: vertices * 3,
        texcoords: 0,
        material_id,
    }
}

fn slot(path: &str, found: bool) -> Option<TextureRef> {
    Some(TextureRef { path: path.to_string(), found })
}

#[test]
fn the_summary_counts_names_and_flags_missing_files() {
    let meshes = vec![mesh("body", 10, 4, Some(0)), mesh("", 6, 2, Some(5)), mesh("eye", 3, 1, None)];
    let materials = vec![MaterialData {
        name: "skin".to_string(),
        luminance: 7,
        slots: vec![
            slot("skin.png", true),
            None,
            slot("spec.png", false),
            slot("texture_index:2", false),
            None,
            None,
        ],
    }];
    let base = vec![IssueRow {
        kind: "Degenerate face".to_string(),
        severity: Severity::Warning,
        scope: IssueScope::Mesh(0),
        message: "one".to_string(),
    }];
    let s = summarize(&meshes, &materials, base, "Missing texture");
    assert_eq!((s.mesh_count, s.material_count), (3, 1));
    assert_eq!((s.total_vertices, s.total_indices, s.total_triangles), (19, 21, 7));
    assert_eq!(s.meshes[0].material_name.as_deref(), Some("skin"));
    assert_eq!(s.meshes[1].material_name, None);
    assert_eq!(s.meshes[1].material_id, Some(5));
    assert_eq!(s.meshes[2].normal_count, 3);
    let slots: Vec<(&str, bool)> = s.materials[0]
        .textures
        .iter()
        .map(|t| (t.slot.as_str(), t.exists))
        .collect();
    assert_eq!(slots, vec![("Diffuse", true), ("Specular", false), ("Normal", true)]);
    assert_eq!(s.issues.len(), 2);
    assert_eq!(s.issues[1].message, "Texture file not found: 'spec.png'");
    assert_eq!(s.issues[1].scope, IssueScope::Material(0));
    assert_eq!(s.issues[1].severity, Severity::Error);
}
