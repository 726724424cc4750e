use solarxy_cli::keymap::{KeyCode, KeyEvent};
use solarxy_cli::panels::health::Severity;
use solarxy_cli::panels::materials::MaterialRow;
use solarxy_cli::panels::meshes::MeshRow;
use solarxy_cli::panels::validation::{subject, Filter, Group, IssueRow, IssueScope, Row, Validation};

fn mesh(index: usize, name: &str) -> MeshRow {
    MeshRow {
        index,
        name: name.to_string(),
        vertex_count: 0,
        triangle_count: 0,
        normal_count: 0,
        texcoord_count: 0,
        material_name: None,
        material_id: None,
    }
}

fn issue(kind: &str, severity: Severity, scope: IssueScope) -> IssueRow {
    IssueRow {
        kind: kind.to_string(),
        severity,
        scope,
        message: format!("{kind} here"),
    }
}

fn report() -> (Vec<IssueRow>, Vec<MeshRow>, Vec<MaterialRow>) {
    let issues = vec![
        issue("Degenerate face", Severity::Warning, IssueScope::Face(0, 3)),
        issue(
            "Non-manifold edge",
            Severity::Error,
            IssueScope::Edge {
                mesh_index: 1,
                first: 4,
                second: 5,
            },
        ),
        issue("Degenerate face", Severity::Error, IssueScope::Face(1, 2)),
        issue("Missing texture", Severity::Error, IssueScope::Material(0)),
        issue("Degenerate face", Severity::Warning, IssueScope::Mesh(0)),
    ];
    let meshes = vec![mesh(0, "body"), mesh(1, "")];
    let materials = vec![MaterialRow {
        index: 0,
        name: "skin".to_string(),
        luminance: 0,
        textures: Vec::new(),
    }];
    (issues, meshes, materials)
}

fn header(label: &str, severity: Severity, count: usize, folded: bool) -> Row {
    Row::Header {
        label: label.to_string(),
        severity,
        count,
        folded,
    }
}

fn press(code: KeyCode) -> KeyEvent {
    KeyEvent {
        code,
        control: false,
    }
}

#[test]
fn folding_a_group_hides_its_issues_and_keeps_its_header() {
    let mut panel = Validation::new();
    assert!(panel.collapsed.is_empty());

    panel.collapsed.push("Non-manifold edge".to_owned());
    assert_eq!(panel.collapsed.len(), 1);

    panel.filter = Filter::ErrorsOnly;
    assert_eq!(panel.collapsed, vec!["Non-manifold edge".to_owned()]);

    let (issues, meshes, materials) = report();
    let rows = panel.rows(&issues, &meshes, &materials);
    assert!(rows.contains(&header("Non-manifold edge", Severity::Error, 1, true)));
    assert!(!rows.contains(&Row::Issue(1)), "a folded group still shows its issue");
}

#[test]
fn issues_group_by_kind_biggest_group_first_and_take_the_worst_severity() {
    let (issues, meshes, materials) = report();
    let panel = Validation::new();
    assert_eq!(
        panel.rows(&issues, &meshes, &materials),
        vec![
            header("Degenerate face", Severity::Error, 3, false),
            Row::Issue(0),
            Row::Issue(2),
            Row::Issue(4),
            header("Non-manifold edge", Severity::Error, 1, false),
            Row::Issue(1),
            header("Missing texture", Severity::Error, 1, false),
            Row::Issue(3),
        ]
    );
}

#[test]
fn the_severity_filter_narrows_before_grouping() {
    let (issues, meshes, materials) = report();
    let mut panel = Validation::new();
    panel.filter = Filter::WarningsOnly;
    assert_eq!(
        panel.rows(&issues, &meshes, &materials),
        vec![
            header("Degenerate face", Severity::Warning, 2, false),
            Row::Issue(0),
            Row::Issue(4),
        ]
    );
}

#[test]
fn by_subject_collects_everything_said_about_one_object() {
    let (issues, meshes, materials) = report();
    let mut panel = Validation::new();
    panel.group = Group::Subject;
    panel.collapsed.push("mesh 1".to_string());
    assert_eq!(
        panel.rows(&issues, &meshes, &materials),
        vec![
            header("mesh 0 'body'", Severity::Warning, 2, false),
            Row::Issue(0),
            Row::Issue(4),
            header("mesh 1", Severity::Error, 2, true),
            header("material 0 'skin'", Severity::Error, 1, false),
            Row::Issue(3),
        ]
    );
}

#[test]
fn a_subject_is_named_the_way_a_reader_says_it() {
    let (_, meshes, materials) = report();
    assert_eq!(subject(&IssueScope::Mesh(0), &meshes, &materials), "mesh 0 'body'");
    assert_eq!(subject(&IssueScope::Face(1, 7), &meshes, &materials), "mesh 1");
    assert_eq!(subject(&IssueScope::Mesh(9), &meshes, &materials), "mesh 9");
    assert_eq!(
        subject(&IssueScope::Material(0), &meshes, &materials),
        "material 0 'skin'"
    );
    assert_eq!(subject(&IssueScope::Material(5), &meshes, &materials), "material 5");
    assert_eq!(subject(&IssueScope::Model, &meshes, &materials), "the model");
}

#[test]
fn return_folds_a_header_and_jumps_from_an_issue() {
    let (issues, meshes, materials) = report();
    let mut panel = Validation::new();
    panel.handle(press(KeyCode::Char('g')), &issues, &meshes, &materials);
    assert_eq!(panel.selected, Some(0));
    assert_eq!(panel.handle(press(KeyCode::Enter), &issues, &meshes, &materials), None);
    assert_eq!(panel.collapsed, vec!["Degenerate face".to_string()]);
    assert_eq!(panel.rows(&issues, &meshes, &materials).len(), 5);

    panel.handle(press(KeyCode::Down), &issues, &meshes, &materials);
    panel.handle(press(KeyCode::Down), &issues, &meshes, &materials);
    assert_eq!(panel.selected, Some(2));
    assert_eq!(
        panel.handle(press(KeyCode::Enter), &issues, &meshes, &materials),
        Some(IssueScope::Edge {
            mesh_index: 1,
            first: 4,
            second: 5,
        })
    );

    panel.handle(press(KeyCode::Char('g')), &issues, &meshes, &materials);
    panel.handle(press(KeyCode::Enter), &issues, &meshes, &materials);
    assert!(panel.collapsed.is_empty(), "a second return unfolds the group");
}

#[test]
fn the_panel_keys_cycle_the_grouping_and_the_filter() {
    let (issues, meshes, materials) = report();
    let mut panel = Validation::new();
    panel.handle(press(KeyCode::Char('O')), &issues, &meshes, &materials);
    assert_eq!(panel.group, Group::Subject);
    panel.handle(press(KeyCode::Char('/')), &issues, &meshes, &materials);
    assert_eq!(panel.filter, Filter::ErrorsOnly);
    panel.handle(press(KeyCode::Char('G')), &issues, &meshes, &materials);
    assert_eq!(panel.selected, Some(panel.rows(&issues, &meshes, &materials).len() - 1));
    panel.handle(
        KeyEvent {
            code: KeyCode::Char('g'),
            control: true,
        },
        &issues,
        &meshes,
        &materials,
    );
    assert_ne!(panel.selected, Some(0), "control-g is not the first-row key");
}

#[test]
fn the_validation_status_counts_and_names_the_grouping() {
    let mut panel = Validation::new();
    assert_eq!(
        panel.status(2, 5, 3),
        "2 errors, 5 warnings across 3 kinds \u{b7} by kind"
    );
    panel.group = Group::Subject;
    assert_eq!(
        panel.status(0, 0, 0),
        "0 errors, 0 warnings across 0 kinds \u{b7} by subject"
    );
}

#[test]
fn a_row_reads_as_its_heading_or_its_issue() {
    use_row_line();
}

fn use_row_line() {
    let (issues, meshes, materials) = report();
    let glyphs = solarxy_cli::glyphs::Glyphs::for_tier(solarxy_cli::caps::GlyphTier::Ascii);
    let text = |row: &Row| -> String {
        solarxy_cli::panels::validation::row_line(row, &issues, &meshes, &materials, &glyphs)
            .iter()
            .map(|s| s.text.as_str())
            .collect()
    };
    assert_eq!(
        text(&header("Degenerate face", Severity::Error, 1, false)),
        "X ERROR  Degenerate face  1 issue"
    );
    assert_eq!(
        text(&header("Degenerate face", Severity::Warning, 2, true)),
        "! WARN  Degenerate face  2 issues, folded"
    );
    let about = subject(&issues[3].scope, &meshes, &materials);
    assert_eq!(text(&Row::Issue(3)), format!("  {about}  Missing texture here"));
    let heading = solarxy_cli::panels::validation::row_line(
        &header("Missing texture", Severity::Error, 1, false),
        &issues,
        &meshes,
        &materials,
        &glyphs,
    );
    assert_eq!(heading[0].tone, solarxy_cli::lines::Tone::Failure);
    assert_eq!(heading[2].tone, solarxy_cli::lines::Tone::Emphasis);
}
