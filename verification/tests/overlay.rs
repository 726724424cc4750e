use solarxy_cli::caps::GlyphTier;
use solarxy_cli::keymap::{rows, Context};
use solarxy_cli::lines::{Segment, Tone};
use solarxy_cli::overlay::{
    catalogue_lines, confirm_lines, entry, export_lines, help_lines, window, Catalogue, Confirm,
    Export, Overlay,
};
use solarxy_cli::rect::Rect;

#[test]
fn an_overlay_stays_inside_a_small_pane() {
    let area = Rect::new(0, 0, 30, 8);
    for (w, h) in [(60u16, 20u16), (10, 4), (30, 8)] {
        let rect = window(area, w, h);
        assert!(rect.right() <= area.right(), "{w}x{h}");
        assert!(rect.bottom() <= area.bottom(), "{w}x{h}");
    }
}

#[test]
fn an_overlay_is_centred_in_its_pane() {
    let rect = window(Rect::new(10, 4, 100, 40), 30, 10);
    assert_eq!(rect, Rect::new(45, 19, 30, 10));
}

#[test]
fn each_overlay_has_its_own_title() {
    assert_eq!(Overlay::Help.title(), "Keyboard");
    assert_eq!(
        Overlay::Export(Export { json: true, path: "out.json".into() }).title(),
        "Export"
    );
    assert_eq!(
        Overlay::Confirm(Confirm { panel: "meshes".into(), address: 2 }).title(),
        "Close panel"
    );
    assert_eq!(Overlay::Catalogue(Catalogue { selected: 0 }).title(), "Add panel");
}

fn text_of(lines: &[Vec<Segment>]) -> String {
    lines
        .iter()
        .flat_map(|line| line.iter())
        .map(|segment| segment.text.clone())
        .collect()
}

#[test]
fn help_shows_every_row_of_the_table_and_no_others() {
    let text = text_of(&help_lines(GlyphTier::Unicode, &Vec::new()));
    for context in [Context::Global, Context::Focused, Context::Arrange] {
        assert!(text.contains(context.heading()), "{}", context.heading());
        for binding in rows(context) {
            assert!(
                text.contains(binding.describes),
                "help omits {:?}",
                binding.describes
            );
        }
    }
}

#[test]
fn help_carries_the_focused_panels_own_actions() {
    let text = text_of(&help_lines(GlyphTier::Unicode, &vec!["axis", "fit"]));
    assert!(text.contains("THIS PANEL"), "{text}");
    assert!(text.contains("axis"), "{text}");
    assert!(text.contains("fit"), "{text}");
}

#[test]
fn a_panel_with_no_actions_adds_no_section() {
    let text = text_of(&help_lines(GlyphTier::Unicode, &Vec::new()));
    assert!(!text.contains("THIS PANEL"), "{text}");
}

#[test]
fn the_export_overlay_shows_which_format_is_chosen() {
    let text = |json: bool| -> String {
        text_of(&export_lines(
            &Export {
                json,
                path: "/models/frog.json".to_owned(),
            },
            "\u{2588}",
        ))
    };
    assert!(text(true).contains("(\u{2022}) json"), "{}", text(true));
    assert!(text(false).contains("(\u{2022}) text"), "{}", text(false));
}

#[test]
fn the_catalogue_lists_everything_it_is_given_and_marks_the_pick() {
    let names = vec!["first", "second", "third", "fourth"];
    let lines = catalogue_lines(&Catalogue { selected: 2 }, &names);
    let text = text_of(&lines);
    for name in &names {
        assert!(text.contains(name), "missing {name}");
    }
    assert!(text.contains(&format!("(\u{2022}) {}", names[2])), "{text}");
    assert_eq!(lines[3][0].tone, Tone::Strong);
    assert_eq!(lines[1][0].tone, Tone::Ink);
}

#[test]
fn confirm_names_the_panel_and_what_is_lost() {
    let text = text_of(&confirm_lines(&Confirm {
        panel: "meshes".to_owned(),
        address: 3,
    }));
    assert!(text.contains("meshes"), "{text}");
    assert!(text.contains("not saved"), "{text}");
}

#[test]
fn a_help_entry_pads_its_key_to_a_column() {
    let line = entry("q", "quit");
    assert_eq!(line[0].text, "  q         ");
    assert_eq!(line[0].tone, Tone::Strong);
    assert_eq!(line[1].text, "quit");
    assert_eq!(entry("a-very-long-key", "x")[0].text, "  a-very-long-key");
}
