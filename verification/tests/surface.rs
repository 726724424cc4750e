use solarxy_cli::keymap::{short, KeyCode, KeyEvent};
use solarxy_cli::layout::{Layout, PanelType, Preset};
use solarxy_cli::overlay::{Catalogue, Confirm, Export, Overlay};
use solarxy_cli::panels::validation::IssueScope;
use solarxy_cli::rect::Rect;
use solarxy_cli::shell::Input;
use solarxy_cli::surface::{catalogue_names, default_export_path, pane, App, Effect};

const AREA: Rect = Rect {
    x: 0,
    y: 0,
    width: 140,
    height: 45,
};

fn key(code: KeyCode) -> Input {
    Input::Key(KeyEvent {
        code,
        control: false,
    })
}

fn app_over(layout: Layout) -> App {
    App::new("frog.obj".to_string(), layout)
}

fn press(app: &mut App, code: KeyCode) -> Effect {
    app.handle(key(code), AREA)
}

#[test]
fn arrange_a_fills_the_new_leaf_from_the_catalogue() {
    let mut app = app_over(Layout::single(PanelType::Meshes));
    app.arranging = true;

    assert_eq!(press(&mut app, KeyCode::Char('v')), Effect::Sync);
    let leaf = app
        .layout
        .leaves()
        .into_iter()
        .find(|(_, kind)| *kind == PanelType::Catalogue)
        .map(|(id, _)| id)
        .expect("the split left a catalogue leaf");
    press(&mut app, KeyCode::Char('l'));
    assert_eq!(app.layout.focus(), leaf, "focus did not reach the catalogue leaf");

    press(&mut app, KeyCode::Char('a'));
    assert!(
        matches!(app.overlay, Some(Overlay::Catalogue(_))),
        "{:?}",
        app.overlay
    );
    press(&mut app, KeyCode::Char('j'));
    let effect = press(&mut app, KeyCode::Enter);

    assert!(app.overlay.is_none(), "the pick did not close the overlay");
    assert!(app.arranging, "picking a panel ended arrange mode");
    assert_eq!(
        app.layout.panel_of(leaf),
        Some(PanelType::choosable()[1]),
        "the pick did not reach the leaf"
    );
    assert_eq!(
        effect,
        Effect::Replace(leaf),
        "the leaf's panel object is not replaced after the pick"
    );
}

#[test]
fn every_choosable_panel_reaches_the_pick() {
    let names = catalogue_names();
    for kind in PanelType::choosable() {
        assert!(
            names.contains(&kind.name()),
            "{} is not offered by the pick",
            kind.name()
        );
    }
    assert_eq!(names.len(), PanelType::choosable().len());
}

#[test]
fn escape_closes_the_catalogue_without_assigning() {
    let mut app = app_over(Layout::single(PanelType::Meshes));
    app.arranging = true;

    press(&mut app, KeyCode::Char('v'));
    press(&mut app, KeyCode::Char('l'));
    let leaf = app.layout.focus();

    press(&mut app, KeyCode::Char('a'));
    press(&mut app, KeyCode::Esc);
    assert!(app.overlay.is_none());
    assert_eq!(
        app.layout.panel_of(leaf),
        Some(PanelType::Catalogue),
        "escape assigned a panel"
    );
}

#[test]
fn escape_unwinds_one_layer_at_a_time_and_never_quits() {
    let mut app = app_over(Preset::Survey.layout());

    press(&mut app, KeyCode::Enter);
    assert!(app.maximized.is_some());
    app.arranging = true;
    app.filtering = Some("gr".to_owned());
    app.overlay = Some(Overlay::Help);

    press(&mut app, KeyCode::Esc);
    assert!(app.overlay.is_none(), "the overlay did not close first");
    assert!(app.filtering.is_some(), "the filter closed too early");

    assert_eq!(press(&mut app, KeyCode::Esc), Effect::Filter(None));
    assert!(app.filtering.is_none(), "the filter did not clear");
    assert!(app.arranging, "arrange mode ended too early");

    press(&mut app, KeyCode::Esc);
    assert!(!app.arranging, "arrange mode did not end");
    assert!(app.maximized.is_some(), "maximize restored too early");

    press(&mut app, KeyCode::Esc);
    assert!(app.maximized.is_none(), "maximize did not restore");

    assert_eq!(press(&mut app, KeyCode::Esc), Effect::Nothing);
    assert!(!app.exit, "escape quit the application");
}

#[test]
fn escape_with_nothing_left_names_the_key_that_quits() {
    let mut app = app_over(Preset::Survey.layout());

    press(&mut app, KeyCode::Esc);
    assert!(
        app.notice.as_deref().is_some_and(|n| n.contains("press q")),
        "{:?}",
        app.notice
    );

    press(&mut app, KeyCode::Enter);
    assert!(app.maximized.is_some());
    press(&mut app, KeyCode::Esc);
    assert!(app.maximized.is_none(), "maximize did not restore");
    assert!(app.notice.is_none(), "{:?}", app.notice);

    press(&mut app, KeyCode::Esc);
    assert!(
        app.notice.as_deref().is_some_and(|n| n.contains("press q")),
        "{:?}",
        app.notice
    );
}

#[test]
fn an_open_overlay_swallows_the_global_keys() {
    let mut app = app_over(Preset::Survey.layout());

    app.overlay = Some(Overlay::Export(Export {
        json: false,
        path: String::new(),
    }));
    assert_eq!(press(&mut app, KeyCode::Char('q')), Effect::Nothing);
    assert!(!app.exit, "a typed q quit the application");
    let Some(Overlay::Export(export)) = &app.overlay else {
        panic!("the overlay closed");
    };
    assert_eq!(export.path, "q");

    let mut app = app_over(Preset::Survey.layout());
    app.filtering = Some(String::new());
    press(&mut app, KeyCode::Char('q'));
    assert!(!app.exit);
    assert_eq!(app.filtering.as_deref(), Some("q"));
}

#[test]
fn help_opens_and_closes() {
    let mut app = app_over(Preset::Survey.layout());

    press(&mut app, KeyCode::Char('?'));
    assert_eq!(app.overlay, Some(Overlay::Help));
    press(&mut app, KeyCode::Char('x'));
    assert!(app.overlay.is_none());
}

#[test]
fn arrange_mode_is_entered_by_its_prefix_and_left_by_escape() {
    let mut app = app_over(Preset::Survey.layout());

    app.handle(
        Input::Key(KeyEvent {
            code: KeyCode::Char('w'),
            control: true,
        }),
        AREA,
    );
    assert!(app.arranging);

    app.arranging = false;
    press(&mut app, KeyCode::Char('w'));
    assert!(!app.arranging);
}

#[test]
fn a_jump_moves_focus_to_the_panel_holding_the_subject() {
    let mut app = app_over(Preset::Survey.layout());

    let (target, row) = app.jump(&IssueScope::Mesh(1)).expect("a mesh table to land in");
    assert_eq!(row, 1);
    app.land(target);
    assert_eq!(
        app.layout.panel_of(app.layout.focus()),
        Some(PanelType::Meshes),
        "a mesh issue did not reach the mesh table"
    );
    assert!(app.notice.is_none(), "{:?}", app.notice);

    let (target, row) = app
        .jump(&IssueScope::Material(0))
        .expect("a material table to land in");
    assert_eq!(row, 0);
    app.land(target);
    assert_eq!(
        app.layout.panel_of(app.layout.focus()),
        Some(PanelType::Materials)
    );
}

#[test]
fn a_jump_with_nowhere_to_go_says_so() {
    let mut app = app_over(Preset::Survey.layout());
    assert!(app.jump(&IssueScope::Model).is_none());
    assert!(
        app.notice
            .as_deref()
            .is_some_and(|n| n.contains("whole model")),
        "{:?}",
        app.notice
    );

    let mut app = app_over(Preset::Validation.layout());
    let before = app.layout.focus();
    assert!(app.jump(&IssueScope::Mesh(0)).is_none());
    assert_eq!(app.layout.focus(), before, "focus moved with no target");
    assert_eq!(app.notice.as_deref(), Some("no meshes panel to jump to"));
}

#[test]
fn a_jump_out_of_a_maximized_panel_gives_the_pane_back() {
    let mut app = app_over(Preset::Survey.layout());
    press(&mut app, KeyCode::Enter);
    assert!(app.maximized.is_some());
    let (target, _) = app.jump(&IssueScope::Edge {
        mesh_index: 3,
        first: 1,
        second: 2,
    })
    .expect("a mesh table to land in");
    app.land(target);
    assert!(app.maximized.is_none());
    assert_eq!(app.layout.focus(), target);
}

#[test]
fn the_export_path_follows_the_model_name_and_the_format() {
    assert_eq!(default_export_path("frog.obj", false), "frog_report.txt");
    assert_eq!(default_export_path("frog.obj", true), "frog.json");
    assert_eq!(default_export_path("scene.tar.gz", true), "scene.tar.json");
    assert_eq!(default_export_path("mesh", false), "mesh_report.txt");
    assert_eq!(default_export_path(".hidden", true), ".json");
}

#[test]
fn the_export_dialog_toggles_its_format_and_edits_its_path() {
    let mut app = app_over(Preset::Survey.layout());
    press(&mut app, KeyCode::Char('e'));
    assert_eq!(
        app.overlay,
        Some(Overlay::Export(Export {
            json: false,
            path: "frog_report.txt".to_string(),
        }))
    );
    press(&mut app, KeyCode::Tab);
    assert_eq!(
        app.overlay,
        Some(Overlay::Export(Export {
            json: true,
            path: "frog.json".to_string(),
        }))
    );
    press(&mut app, KeyCode::Backspace);
    press(&mut app, KeyCode::Char('5'));
    assert_eq!(
        app.overlay,
        Some(Overlay::Export(Export {
            json: true,
            path: "frog.jso5".to_string(),
        }))
    );
    let effect = press(&mut app, KeyCode::Enter);
    assert_eq!(
        effect,
        Effect::Export {
            json: true,
            path: "frog.jso5".to_string(),
        }
    );
    assert!(app.overlay.is_none());
    app.tell("saved to frog.jso5".to_string());
    assert_eq!(app.notice.as_deref(), Some("saved to frog.jso5"));
    press(&mut app, KeyCode::Char('x'));
    assert!(app.notice.is_none(), "a notice outlived the next key");
}

#[test]
fn a_filter_is_typed_committed_and_cleared() {
    let mut app = app_over(Preset::Survey.layout());
    press(&mut app, KeyCode::Char('/'));
    assert_eq!(app.filtering.as_deref(), Some(""));
    assert_eq!(
        press(&mut app, KeyCode::Char('b')),
        Effect::Filter(Some("b".to_string()))
    );
    assert_eq!(
        press(&mut app, KeyCode::Char('o')),
        Effect::Filter(Some("bo".to_string()))
    );
    assert_eq!(
        press(&mut app, KeyCode::Backspace),
        Effect::Filter(Some("b".to_string()))
    );
    assert_eq!(
        press(&mut app, KeyCode::Enter),
        Effect::Filter(Some("b".to_string()))
    );
    assert!(app.filtering.is_none());
}

#[test]
fn quitting_hands_back_the_readers_own_arrangement() {
    let mut app = app_over(Preset::Survey.layout());
    press(&mut app, KeyCode::Enter);
    assert!(app.maximized.is_some());
    let effect = press(&mut app, KeyCode::Char('q'));
    assert_eq!(effect, Effect::Quit(Preset::Survey.encoded().to_string()));
    assert!(app.exit);
}

#[test]
fn saving_hands_over_the_arrangement_without_leaving() {
    let mut app = app_over(Preset::Meshes.layout());
    let effect = app.handle(
        Input::Key(KeyEvent {
            code: KeyCode::Char('s'),
            control: true,
        }),
        AREA,
    );
    assert_eq!(effect, Effect::SaveLayout(Preset::Meshes.encoded().to_string()));
    assert!(!app.exit);
}

#[test]
fn the_preset_key_cycles_the_arrangement() {
    let mut app = app_over(Preset::Survey.layout());
    press(&mut app, KeyCode::Enter);
    assert_eq!(press(&mut app, KeyCode::Char('p')), Effect::Sync);
    assert_eq!(app.preset, Preset::Meshes);
    assert_eq!(app.layout.encode(), Preset::Meshes.encoded());
    assert!(app.maximized.is_none());
}

#[test]
fn the_pick_wraps_at_both_ends() {
    let mut app = app_over(Preset::Survey.layout());
    app.overlay = Some(Overlay::Catalogue(Catalogue { selected: 0 }));
    press(&mut app, KeyCode::Up);
    assert_eq!(app.overlay, Some(Overlay::Catalogue(Catalogue { selected: 9 })));
    press(&mut app, KeyCode::Down);
    assert_eq!(app.overlay, Some(Overlay::Catalogue(Catalogue { selected: 0 })));
    press(&mut app, KeyCode::Char('x'));
    assert_eq!(app.overlay, Some(Overlay::Catalogue(Catalogue { selected: 0 })));
}

#[test]
fn confirming_a_close_closes_the_focused_panel() {
    let mut app = app_over(Preset::Validation.layout());
    let leaves = app.layout.leaves().len();
    app.overlay = Some(Overlay::Confirm(Confirm {
        panel: "health".to_string(),
        address: 1,
    }));
    app.filtering = Some("x".to_string());
    press(&mut app, KeyCode::Char('y'));
    assert!(matches!(app.overlay, Some(Overlay::Confirm(_))), "only return confirms");
    assert_eq!(press(&mut app, KeyCode::Enter), Effect::Sync);
    assert!(app.overlay.is_none());
    assert!(app.filtering.is_none());
    assert_eq!(app.layout.leaves().len(), leaves - 1);
}

#[test]
fn a_refused_close_says_why_and_changes_nothing() {
    let mut app = app_over(Layout::single(PanelType::Meshes));
    app.arranging = true;
    assert_eq!(press(&mut app, KeyCode::Char('x')), Effect::Nothing);
    assert_eq!(app.notice.as_deref(), Some("cannot close the last panel"));
    assert_eq!(app.layout.leaves().len(), 1);
}

#[test]
fn keys_the_surface_does_not_claim_reach_the_panel() {
    let mut app = app_over(Preset::Survey.layout());
    let down = KeyEvent {
        code: KeyCode::Down,
        control: false,
    };
    assert_eq!(app.handle(Input::Key(down), AREA), Effect::Panel(down));
    assert_eq!(app.handle(Input::Tick, AREA), Effect::Nothing);
}

#[test]
fn the_pane_leaves_the_footer_row() {
    assert_eq!(
        pane(AREA),
        Rect {
            x: 0,
            y: 0,
            width: 140,
            height: 44,
        }
    );
    assert_eq!(pane(Rect::default()).height, 0);
}

#[test]
fn the_footer_keeps_the_first_word() {
    assert_eq!(short("maximize, or open the row"), "maximize");
    assert_eq!(short("  , jump"), "jump");
    assert_eq!(short(" ,"), " ,");
    assert_eq!(short(""), "");
}
