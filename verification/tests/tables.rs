use solarxy_cli::keymap::{KeyCode, KeyEvent};
use solarxy_cli::order::{reversed, shown, sorted, SortKey};
use solarxy_cli::panels::distributions::{By, Distributions};
use solarxy_cli::panels::materials::{self, users, MaterialRow, Materials};
use solarxy_cli::panels::meshes::MeshRow;
use solarxy_cli::panels::textures::{self, entries, TextureRow, Textures};
use solarxy_cli::panels::Sort;

fn mesh(index: usize, name: &str, triangles: usize, vertices: usize, material: Option<usize>) -> MeshRow {
    MeshRow {
        index,
        name: name.to_string(),
        vertex_count: vertices,
        triangle_count: triangles,
        normal_count: 0,
        texcoord_count: 0,
        material_name: None,
        material_id: material,
    }
}

fn texture(slot: &str, path: &str, exists: bool, dimensions: Option<(u32, u32)>) -> TextureRow {
    TextureRow {
        slot: slot.to_string(),
        path: path.to_string(),
        exists,
        dimensions,
    }
}

fn materials_of() -> Vec<MaterialRow> {
    vec![
        MaterialRow {
            index: 0,
            name: "skin".to_string(),
            luminance: 700,
            textures: vec![
                texture("diffuse", "tex/skin_bc.png", true, Some((2048, 2048))),
                texture("normal", "tex/skin_n.png", false, None),
            ],
        },
        MaterialRow {
            index: 1,
            name: "iris".to_string(),
            luminance: 200,
            textures: vec![texture("diffuse", "tex/iris.png", true, Some((512, 256)))],
        },
        MaterialRow {
            index: 2,
            name: "Glass".to_string(),
            luminance: 900,
            textures: Vec::new(),
        },
    ]
}

fn meshes_of() -> Vec<MeshRow> {
    vec![
        mesh(0, "body", 8_204, 5_102, Some(0)),
        mesh(1, "", 412, 248, Some(1)),
        mesh(2, "belly", 412, 300, Some(0)),
        mesh(3, "lens", 64, 40, Some(2)),
    ]
}

#[test]
fn a_sort_is_stable_and_a_reversal_reverses_it() {
    let order = sorted(&SortKey::Smallest(vec![3, 1, 3, 0]));
    assert_eq!(order, vec![3, 1, 0, 2]);
    assert_eq!(reversed(&order), vec![2, 0, 1, 3]);
    assert_eq!(sorted(&SortKey::Largest(vec![3, 1, 3, 0])), vec![0, 2, 1, 3]);
    let words = vec!["pear", "Apple", "apple", "app"]
        .into_iter()
        .map(|w| w.chars().collect::<Vec<char>>())
        .collect();
    assert_eq!(sorted(&SortKey::Text(words)), vec![1, 3, 2, 0]);
    assert_eq!(shown(&SortKey::Smallest(vec![]), true), Vec::<usize>::new());
}

#[test]
fn shares_put_the_heaviest_mesh_first_and_keep_ties_in_report_order() {
    let panel = Distributions { by: By::Triangles };
    let rows = panel.shares(&meshes_of());
    assert_eq!(
        rows,
        vec![
            ("body".to_string(), 8_204),
            ("mesh 1".to_string(), 412),
            ("belly".to_string(), 412),
            ("lens".to_string(), 64),
        ]
    );
    let panel = Distributions { by: By::Vertices };
    let names: Vec<String> = panel.shares(&meshes_of()).into_iter().map(|(n, _)| n).collect();
    assert_eq!(names, ["body", "belly", "mesh 1", "lens"]);
}

#[test]
fn the_metric_key_switches_what_the_bars_count() {
    let mut panel = Distributions::default();
    panel.handle(KeyEvent {
        code: KeyCode::Char('B'),
        control: false,
    });
    assert_eq!(panel.by, By::Vertices);
    panel.handle(KeyEvent {
        code: KeyCode::Char('x'),
        control: false,
    });
    assert_eq!(panel.by, By::Vertices);
}

#[test]
fn users_name_the_meshes_that_reference_a_material() {
    assert_eq!(users(&meshes_of(), 0), ["body", "belly"]);
    assert_eq!(users(&meshes_of(), 1), ["mesh 1"]);
    assert!(users(&meshes_of(), 7).is_empty());
}

#[test]
fn the_material_table_sorts_by_each_column() {
    let mut table = Materials::new();
    assert_eq!(table.rows(&materials_of(), &meshes_of()), vec![2, 1, 0]);
    table.sort = Sort {
        column: 1,
        descending: true,
    };
    assert_eq!(table.rows(&materials_of(), &meshes_of()), vec![2, 0, 1]);
    table.sort = Sort {
        column: 2,
        descending: false,
    };
    assert_eq!(table.rows(&materials_of(), &meshes_of()), vec![2, 1, 0]);
    table.sort = Sort {
        column: 3,
        descending: true,
    };
    assert_eq!(table.rows(&materials_of(), &meshes_of()), vec![0, 2, 1]);
    assert_eq!(materials::columns()[3], "used by");
}

#[test]
fn the_material_status_counts_slots_and_missing_files() {
    assert_eq!(
        materials::status(3, &materials_of()),
        "3 materials \u{b7} 3 texture slots \u{b7} 1 missing"
    );
}

#[test]
fn every_slot_of_every_material_is_listed_once() {
    let all = entries(&materials_of());
    let paths: Vec<&str> = all.iter().map(|t| t.path.as_str()).collect();
    assert_eq!(paths, ["tex/skin_bc.png", "tex/skin_n.png", "tex/iris.png"]);
    assert_eq!(textures::status(&materials_of()), "3 slots \u{b7} 1 missing");
}

#[test]
fn the_texture_table_sorts_by_each_column() {
    let mut table = Textures::new();
    assert_eq!(table.rows(&materials_of()), vec![0, 2, 1]);
    table.sort.column = 1;
    assert_eq!(table.rows(&materials_of()), vec![2, 0, 1]);
    table.sort.column = 2;
    assert_eq!(table.rows(&materials_of()), vec![1, 2, 0]);
    table.sort.column = 3;
    assert_eq!(table.rows(&materials_of()), vec![1, 0, 2]);
    table.sort.descending = true;
    assert_eq!(table.rows(&materials_of()), vec![2, 0, 1]);
}

#[test]
fn the_texture_table_keys_move_the_selection() {
    let mut table = Textures::new();
    let down = KeyEvent {
        code: KeyCode::Char('j'),
        control: false,
    };
    table.handle(down, 3);
    assert_eq!(table.selected, Some(1));
    table.handle(down, 3);
    table.handle(down, 3);
    assert_eq!(table.selected, Some(2));
    table.handle(
        KeyEvent {
            code: KeyCode::Char('G'),
            control: false,
        },
        0,
    );
    assert_eq!(table.selected, None);
}

#[test]
fn the_users_cell_joins_the_names_or_says_none() {
    assert_eq!(materials::users_cell(&meshes_of(), 0), "body, belly");
    assert_eq!(materials::users_cell(&meshes_of(), 1), "mesh 1");
    assert_eq!(materials::users_cell(&meshes_of(), 7), "-");
}
