use solarxy_cli::geometry::Axis;
use solarxy_cli::keymap::{KeyCode, KeyEvent};
use solarxy_cli::layout::PanelType;
use solarxy_cli::panels::distributions::{median, By, Distributions};
use solarxy_cli::panels::geometry::{human_size, meter_cells};
use solarxy_cli::panels::health::{Filter as HealthFilter, Health, Severity};
use solarxy_cli::panels::silhouette::Silhouette;
use solarxy_cli::panels::textures::{file_name, resolution};
use solarxy_cli::panels::uv::Uv;
use solarxy_cli::panels::validation::{
    home_of, row_of, severity_word, step, Filter, Group, IssueScope,
};
use solarxy_cli::panels::Sort;

#[test]
fn sorting_cycles_through_every_column_in_both_directions() {
    let mut sort = Sort::default();
    let mut seen = Vec::new();
    for _ in 0..6 {
        seen.push((sort.column, sort.descending));
        sort = sort.cycle(3);
    }
    assert_eq!(
        seen,
        vec![(0, false), (0, true), (1, false), (1, true), (2, false), (2, true)]
    );
    assert_eq!(sort, Sort::default(), "the cycle did not close");
}

#[test]
fn a_new_column_sorts_descending_first() {
    let sort = Sort::default().cycle(4);
    assert!(sort.descending);
    assert_eq!(sort.column, 0);
}

#[test]
fn the_metric_toggles_and_returns() {
    assert_eq!(By::Triangles.next(), By::Vertices);
    assert_eq!(By::Vertices.next(), By::Triangles);
    assert_eq!(Distributions::default().by, By::Triangles);
    assert_eq!(By::Vertices.label(), "vertices per mesh");
}

#[test]
fn the_median_is_not_dragged_by_one_runaway_mesh() {
    let series = vec![1_000_000u64, 10, 8, 6, 4];
    assert_eq!(median(&series), 8);
    let mean = series.iter().sum::<u64>() / series.len() as u64;
    assert!(mean > 100_000, "the fixture has a runaway");
}

#[test]
fn an_even_series_takes_the_middle_pair() {
    assert_eq!(median(&vec![10, 8, 6, 4]), 7);
    assert_eq!(median(&vec![u64::MAX, u64::MAX - 1]), u64::MAX - 1);
}

#[test]
fn an_empty_series_has_no_median_rather_than_panicking() {
    assert_eq!(median(&vec![]), 0);
}

#[test]
fn a_size_reads_in_the_unit_a_person_would_use() {
    assert_eq!(human_size(512), "512 B");
    assert_eq!(human_size(2_516_582), "2.4 MB");
    assert_eq!(human_size(1536), "1.5 kB");
    assert_eq!(human_size(3_221_225_472), "3.0 GB");
}

#[test]
fn a_size_on_a_unit_boundary_and_a_tie_round_the_way_printing_does() {
    assert_eq!(human_size(1023), "1023 B");
    assert_eq!(human_size(1024), "1.0 kB");
    assert_eq!(human_size(1280), "1.2 kB");
    assert_eq!(human_size(1331), "1.3 kB");
    assert_eq!(human_size(0), "0 B");
}

#[test]
fn the_meter_fits_every_panel_width() {
    for width in [24u16, 40, 47, 140] {
        let cells = meter_cells(width);
        assert!(cells >= 4, "{width} gave a {cells}-cell meter");
        assert!(cells <= 40);
    }
    assert_eq!(meter_cells(0), 4);
    assert_eq!(meter_cells(47), 25);
    assert_eq!(meter_cells(u16::MAX), 40);
}

#[test]
fn the_severity_filter_cycles_and_returns() {
    let mut filter = HealthFilter::All;
    for _ in 0..3 {
        filter = filter.next();
    }
    assert_eq!(filter, HealthFilter::All);
    assert_eq!(Health::default().filter, HealthFilter::All);
}

#[test]
fn each_filter_admits_what_it_says_it_does() {
    assert!(HealthFilter::All.admits(Severity::Error));
    assert!(HealthFilter::All.admits(Severity::Warning));
    assert!(HealthFilter::ErrorsOnly.admits(Severity::Error));
    assert!(!HealthFilter::ErrorsOnly.admits(Severity::Warning));
    assert!(HealthFilter::WarningsOnly.admits(Severity::Warning));
    assert!(!HealthFilter::WarningsOnly.admits(Severity::Error));
    assert_eq!(HealthFilter::WarningsOnly.label(), "warnings");
}

#[test]
fn cycling_the_axis_names_all_three_views() {
    let mut panel = Silhouette::default();
    let mut names = Vec::new();
    for _ in 0..3 {
        names.push(panel.axis.name());
        panel.axis = panel.axis.next();
    }
    assert_eq!(names, vec!["front", "side", "top"]);
}

#[test]
fn the_projection_keeps_its_proportions_unless_asked_not_to() {
    let panel = Silhouette::default();
    assert!(!panel.stretch);
}

#[test]
fn the_silhouettes_own_keys_turn_and_stretch_it() {
    let mut panel = Silhouette::default();
    assert!(panel.handle(KeyEvent { code: KeyCode::Char('X'), control: false }));
    assert_eq!(panel.axis, Axis::Side);
    assert!(panel.handle(KeyEvent { code: KeyCode::Char('f'), control: false }));
    assert!(panel.stretch);
    assert!(!panel.handle(KeyEvent { code: KeyCode::Char('q'), control: false }));
    assert_eq!(Silhouette::menu(), vec!["axis", "fit"]);
}

#[test]
fn a_square_texture_reads_shorter_than_a_rectangular_one() {
    assert_eq!(resolution(Some((2048, 2048))), "2048\u{b2}");
    assert_eq!(resolution(Some((2048, 1024))), "2048x1024");
}

#[test]
fn an_unmeasurable_texture_shows_no_resolution() {
    assert_eq!(resolution(None), "-");
}

#[test]
fn only_the_file_name_takes_the_column() {
    assert_eq!(file_name("textures/skin_bc.png"), "skin_bc.png");
    assert_eq!(file_name("skin_bc.png"), "skin_bc.png");
    assert_eq!(file_name("a\\b\\c.png"), "c.png");
    assert_eq!(file_name("dir/"), "");
}

#[test]
fn the_whole_square_is_the_default_view() {
    assert!(!Uv::default().zoomed);
}

#[test]
fn a_mesh_scoped_issue_goes_to_the_mesh_table() {
    assert_eq!(home_of(&IssueScope::Mesh(2)), Some(PanelType::Meshes));
    assert_eq!(row_of(&IssueScope::Mesh(2)), Some(2));
}

#[test]
fn a_face_or_edge_issue_lands_on_its_mesh() {
    assert_eq!(home_of(&IssueScope::Face(3, 91)), Some(PanelType::Meshes));
    assert_eq!(row_of(&IssueScope::Face(3, 91)), Some(3));
    let edge = IssueScope::Edge { mesh_index: 4, first: 7, second: 8 };
    assert_eq!(home_of(&edge), Some(PanelType::Meshes));
    assert_eq!(row_of(&edge), Some(4));
}

#[test]
fn a_material_issue_goes_to_the_material_table() {
    assert_eq!(home_of(&IssueScope::Material(1)), Some(PanelType::Materials));
    assert_eq!(row_of(&IssueScope::Material(1)), Some(1));
}

#[test]
fn a_model_wide_issue_has_nowhere_to_jump_to() {
    assert_eq!(home_of(&IssueScope::Model), None);
    assert_eq!(row_of(&IssueScope::Model), None);
}

#[test]
fn the_grouping_and_the_filter_each_cycle_and_return() {
    assert_eq!(Group::Kind.next(), Group::Subject);
    assert_eq!(Group::Subject.next(), Group::Kind);
    let mut filter = Filter::All;
    for _ in 0..3 {
        filter = filter.next();
    }
    assert_eq!(filter, Filter::All);
}

#[test]
fn a_filter_admits_only_what_it_names() {
    assert!(Filter::All.admits(Severity::Error));
    assert!(Filter::ErrorsOnly.admits(Severity::Error));
    assert!(!Filter::ErrorsOnly.admits(Severity::Warning));
    assert!(!Filter::WarningsOnly.admits(Severity::Error));
}

#[test]
fn the_severity_word_is_the_one_the_design_shows() {
    assert_eq!(severity_word(Severity::Error), "ERROR");
    assert_eq!(severity_word(Severity::Warning), "WARN");
}

#[test]
fn selection_stops_at_both_ends_rather_than_wrapping() {
    assert_eq!(step(Some(0), -1, 5), Some(0));
    assert_eq!(step(Some(4), 1, 5), Some(4));
    assert_eq!(step(Some(2), 1, 5), Some(3));
    assert_eq!(step(None, 1, 5), Some(1));
}

#[test]
fn an_empty_table_selects_nothing() {
    assert_eq!(step(Some(3), 1, 0), None);
}

#[test]
fn group_labels_read_as_the_border_shows_them() {
    assert_eq!(Group::Kind.label(), "by kind");
    assert_eq!(Group::Subject.label(), "by subject");
}
