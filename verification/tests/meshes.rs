use solarxy_cli::keymap::{KeyCode, KeyEvent};
use solarxy_cli::panels::meshes::{columns, display_name, triangle_series, MeshRow, Meshes};
use solarxy_cli::panels::Sort;

fn mesh(index: usize, name: &str, triangles: usize, material: Option<&str>) -> MeshRow {
    MeshRow {
        index,
        name: name.to_string(),
        vertex_count: triangles / 2,
        triangle_count: triangles,
        normal_count: if index % 2 == 0 { triangles } else { 0 },
        texcoord_count: 0,
        material_name: material.map(str::to_string),
        material_id: None,
    }
}

fn frog() -> Vec<MeshRow> {
    vec![
        mesh(0, "body", 8_204, Some("skin")),
        mesh(1, "Eyes", 412, None),
        mesh(2, "", 3_864, Some("iris")),
        mesh(3, "belly", 412, Some("skin")),
    ]
}

fn press(code: KeyCode) -> KeyEvent {
    KeyEvent {
        code,
        control: false,
    }
}

#[test]
fn a_mesh_with_no_name_still_gets_a_label() {
    let mut m = MeshRow {
        index: 2,
        name: String::new(),
        vertex_count: 0,
        triangle_count: 0,
        normal_count: 0,
        texcoord_count: 0,
        material_name: None,
        material_id: None,
    };
    assert_eq!(display_name(&m), "mesh 2");
    m.name = "body".to_owned();
    assert_eq!(display_name(&m), "body");
}

#[test]
fn the_triangle_series_is_sorted_largest_first() {
    let meshes: Vec<MeshRow> = [400usize, 8_204, 3_864]
        .into_iter()
        .enumerate()
        .map(|(index, triangles)| mesh(index, &format!("m{index}"), triangles, None))
        .collect();
    assert_eq!(triangle_series(&meshes), vec![8_204, 3_864, 400]);
}

#[test]
fn rows_sort_by_name_in_code_point_order() {
    let table = Meshes::new();
    // "Eyes" sorts before the lower-case names, and the unnamed mesh reads
    // as "mesh 2".
    assert_eq!(table.rows(&frog()), vec![1, 3, 0, 2]);
}

#[test]
fn ties_keep_the_report_order_and_descending_reverses_the_whole_table() {
    let mut table = Meshes::new();
    table.sort = Sort {
        column: 1,
        descending: false,
    };
    assert_eq!(table.rows(&frog()), vec![1, 3, 2, 0]);
    table.sort.descending = true;
    assert_eq!(table.rows(&frog()), vec![0, 2, 3, 1]);
}

#[test]
fn the_material_column_puts_meshes_without_one_first() {
    let mut table = Meshes::new();
    table.sort = Sort {
        column: 5,
        descending: false,
    };
    assert_eq!(table.rows(&frog()), vec![1, 2, 0, 3]);
}

#[test]
fn the_filter_ignores_case_and_matches_anywhere_in_the_label() {
    let mut table = Meshes::new();
    table.set_filter(Some("E".to_string()));
    assert_eq!(table.rows(&frog()), vec![1, 3, 2]);
    assert_eq!(table.filter_counts(&frog()), (3, 4));
    table.set_filter(Some("BOD".to_string()));
    assert_eq!(table.rows(&frog()), vec![0]);
    table.set_filter(Some(String::new()));
    assert!(table.filter.is_none(), "an empty query should clear the filter");
    assert_eq!(table.rows(&frog()).len(), 4);
    table.set_filter(Some("zebra".to_string()));
    assert!(table.rows(&frog()).is_empty());
}

#[test]
fn the_table_keys_move_the_selection_and_the_sort() {
    let mut table = Meshes::new();
    let meshes = frog();
    table.handle(press(KeyCode::Char('G')), &meshes);
    assert_eq!(table.selected, Some(3));
    table.handle(press(KeyCode::Down), &meshes);
    assert_eq!(table.selected, Some(3));
    table.handle(press(KeyCode::Char('k')), &meshes);
    assert_eq!(table.selected, Some(2));
    table.handle(press(KeyCode::Char('g')), &meshes);
    assert_eq!(table.selected, Some(0));
    table.handle(press(KeyCode::Char('S')), &meshes);
    assert_eq!(
        table.sort,
        Sort {
            column: 0,
            descending: true
        }
    );
    table.handle(press(KeyCode::Char('s')), &meshes);
    assert_eq!(
        table.sort,
        Sort {
            column: 1,
            descending: false
        }
    );
    assert_eq!(columns()[table.sort.column], "tris");
}

#[test]
fn a_selection_past_a_shrunken_table_settles_on_the_first_row() {
    let mut table = Meshes::new();
    assert!(table.select_row(3));
    table.settle(2);
    assert_eq!(table.selected, Some(0));
    table.select_row(1);
    table.settle(2);
    assert_eq!(table.selected, Some(1));
    table.settle(0);
    assert_eq!(table.selected, Some(1));
}

#[test]
fn the_cells_mark_presence_and_name_the_material_or_none() {
    let glyphs = solarxy_cli::glyphs::Glyphs::for_tier(solarxy_cli::caps::GlyphTier::Ascii);
    let with = mesh(0, "body", 4, Some("skin"));
    let without = mesh(1, "", 4, None);
    assert_eq!(solarxy_cli::panels::meshes::material_text(&with), "skin");
    assert_eq!(solarxy_cli::panels::meshes::material_text(&without), "-");
    assert_eq!(glyphs.mark(with.normal_count > 0).text, "v");
    assert_eq!(glyphs.mark(without.normal_count > 0).text, "X");
    assert_eq!(glyphs.mark(true).tone, solarxy_cli::lines::Tone::Sound);
    assert_eq!(glyphs.mark(false).tone, solarxy_cli::lines::Tone::Fault);
}

#[test]
fn an_empty_table_says_why() {
    assert_eq!(solarxy_cli::panels::meshes::empty_message(0), "no meshes in this model");
    assert_eq!(solarxy_cli::panels::meshes::empty_message(3), "no mesh matches the filter");
    assert_eq!(solarxy_cli::panels::validation::empty_message(0), "no issues found");
    assert_eq!(
        solarxy_cli::panels::validation::empty_message(2),
        "no issue matches this severity"
    );
}
