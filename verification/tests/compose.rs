use solarxy_cli::caps::GlyphTier;
use solarxy_cli::compose::footer_row;
use solarxy_cli::glyphs::Glyphs;
use solarxy_cli::layout::{Layout, Preset};
use solarxy_cli::rect::Rect;
use solarxy_cli::surface::{pane, App};

const AREA: Rect = Rect {
    x: 0,
    y: 0,
    width: 140,
    height: 45,
};

fn text(segments: &[solarxy_cli::lines::Segment]) -> String {
    segments.iter().map(|s| s.text.as_str()).collect()
}

/// Every panel is framed where the solve put it, and exactly one is drawn
/// with the focused border.
#[test]
fn exactly_one_panel_is_drawn_focused() {
    let app = App::new("frog.obj".to_string(), Preset::Survey.layout());
    let glyphs = Glyphs::for_tier(GlyphTier::Unicode);
    let frames = app.frames(AREA, &glyphs, &vec!["sort"], None, &Some("3 meshes".to_string()));
    let p = pane(AREA);
    let placed = app.layout.elided(p.width).solve(p, app.maximized);
    assert_eq!(frames.len(), placed.len());
    assert!(frames.len() > 1);
    for (f, pl) in frames.iter().zip(placed.iter()) {
        assert_eq!(f.rect, pl.rect);
        assert_eq!(f.id, pl.id);
        assert_eq!(f.focused, pl.focused);
        assert!(text(&f.title).ends_with(pl.panel.name()) || f.focused);
        assert_eq!(f.bottom.is_some(), f.focused);
    }
    assert_eq!(frames.iter().filter(|f| f.focused).count(), 1);
    let focused = frames.iter().find(|f| f.focused).unwrap();
    assert!(text(&focused.title).ends_with(" s sort "));
    assert_eq!(focused.bottom.as_ref().unwrap().text, " 3 meshes ");
}

#[test]
fn a_maximized_panel_is_the_one_frame() {
    let mut app = App::new("frog.obj".to_string(), Preset::Survey.layout());
    app.maximized = Some(app.layout.focus());
    let glyphs = Glyphs::for_tier(GlyphTier::Ascii);
    let frames = app.frames(AREA, &glyphs, &vec![], None, &None);
    assert_eq!(frames.len(), 1);
    assert!(frames[0].focused);
    assert_eq!(frames[0].rect, pane(AREA));
    assert!(text(&frames[0].title).starts_with("[1]"));
}

#[test]
fn the_footer_is_the_last_row() {
    assert_eq!(
        footer_row(AREA),
        Rect { x: 0, y: 44, width: 140, height: 1 }
    );
    let _ = Layout::single(solarxy_cli::layout::PanelType::Meshes);
}
