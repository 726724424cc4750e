use solarxy_cli::arrange::{apply, focus_toward, Command, Outcome, Toward};
use solarxy_cli::layout::{fits, Direction, Layout, PanelType, Preset, Refusal};
use solarxy_cli::rect::Rect;

const PANE: Rect = Rect {
    x: 0,
    y: 0,
    width: 140,
    height: 44,
};

fn focused_name(layout: &Layout) -> &'static str {
    layout
        .panel_of(layout.focus())
        .expect("focus points at a leaf")
        .name()
}

#[test]
fn focus_moves_to_the_neighbour_in_that_direction() {
    let mut layout = Preset::Survey.layout();
    assert_eq!(focused_name(&layout), "silhouette");
    layout = focus_toward(&layout, PANE, Toward::Right);
    assert_eq!(focused_name(&layout), "geometry");
    layout = focus_toward(&layout, PANE, Toward::Right);
    assert_eq!(focused_name(&layout), "health");
}

#[test]
fn focus_at_an_edge_stays_put_rather_than_wrapping() {
    let layout = Preset::Survey.layout();
    let unmoved = focus_toward(&layout, PANE, Toward::Left);
    assert_eq!(unmoved.focus(), layout.focus(), "left from the leftmost");
    let unmoved = focus_toward(&layout, PANE, Toward::Up);
    assert_eq!(unmoved.focus(), layout.focus(), "up from the top row");
}

#[test]
fn focus_down_crosses_into_the_row_below() {
    let layout = Preset::Survey.layout();
    let down = focus_toward(&layout, PANE, Toward::Down);
    assert_eq!(focused_name(&down), "meshes");
    let further = focus_toward(&down, PANE, Toward::Down);
    assert_eq!(focused_name(&further), "validation");
}

#[test]
fn focus_ignores_how_the_tree_nests() {
    let layout = Preset::Meshes.layout();
    assert_eq!(focused_name(&layout), "meshes");
    let right = focus_toward(&layout, PANE, Toward::Right);
    assert_eq!(focused_name(&right), "silhouette");
    let down = focus_toward(&right, PANE, Toward::Down);
    assert_eq!(focused_name(&down), "distributions");
}

#[test]
fn splitting_and_closing_change_the_arrangement() {
    let layout = Preset::Survey.layout();
    let Outcome::Changed(split) = apply(&layout, PANE, Command::Split(Direction::Horizontal))
    else {
        panic!("a survey panel has room to split");
    };
    assert_eq!(split.leaves().len(), 7);
    let Outcome::Changed(closed) = apply(&split, PANE, Command::Close) else {
        panic!("seven panels can lose one");
    };
    assert_eq!(closed.leaves().len(), 6);
}

#[test]
fn a_refused_command_reports_why_and_changes_nothing() {
    let tight = Rect::new(0, 0, 40, 10);
    let layout = Layout::single(PanelType::Meshes);
    let before = layout.encode();
    let outcome = apply(&layout, tight, Command::Split(Direction::Vertical));
    assert_eq!(outcome, Outcome::Refused(Refusal::TooSmall));
    assert_eq!(layout.encode(), before);
    let outcome = apply(&layout, PANE, Command::Close);
    assert_eq!(outcome, Outcome::Refused(Refusal::LastPanel));
    assert_eq!(layout.encode(), before);
}

#[test]
fn growing_and_shrinking_move_the_divider_opposite_ways() {
    let layout = Preset::Survey.layout();
    let width_of = |l: &Layout| l.solve(PANE, None)[0].rect.width;
    let start = width_of(&layout);
    let Outcome::Changed(grown) = apply(&layout, PANE, Command::Grow) else {
        panic!("room to grow");
    };
    let Outcome::Changed(shrunk) = apply(&layout, PANE, Command::Shrink) else {
        panic!("room to shrink");
    };
    assert!(width_of(&grown) > start, "grow did not widen the panel");
    assert!(width_of(&shrunk) < start, "shrink did not narrow it");
}

#[test]
fn balance_is_accepted_and_keeps_every_panel_usable() {
    let Outcome::Changed(balanced) = apply(&Preset::Survey.layout(), PANE, Command::Balance)
    else {
        panic!("balance should be accepted at the target size");
    };
    for placement in balanced.solve(PANE, None) {
        assert!(fits(placement.rect));
    }
}

#[test]
fn no_sequence_of_commands_reaches_an_unusable_arrangement() {
    let script = [
        Command::Split(Direction::Vertical),
        Command::Grow,
        Command::Focus(Toward::Right),
        Command::Split(Direction::Horizontal),
        Command::Shrink,
        Command::Balance,
        Command::Focus(Toward::Down),
        Command::Close,
        Command::Focus(Toward::Left),
        Command::Split(Direction::Vertical),
        Command::Close,
    ];
    let mut layout = Preset::Survey.layout();
    for (step, command) in script.into_iter().enumerate() {
        if let Outcome::Changed(next) = apply(&layout, PANE, command) {
            layout = next;
        }
        let placements = layout.solve(PANE, None);
        assert_eq!(
            placements.iter().filter(|p| p.focused).count(),
            1,
            "after step {step} ({command:?}) focus was not exactly one panel"
        );
        for placement in &placements {
            assert!(fits(placement.rect), "after step {step} ({command:?})");
        }
    }
}
