use solarxy_cli::caps::{Capabilities, ColorTier, GlyphTier};
use solarxy_cli::glyphs::{Glyphs, PlotStyle};
use solarxy_cli::render_state::Picture;

fn flat(width: u32, height: u32, value: u8) -> Picture {
    Picture {
        width,
        height,
        luma: vec![value; (width * height) as usize],
    }
}

#[test]
fn every_ascii_glyph_is_single_cell_ascii() {
    let glyphs = Glyphs::for_tier(GlyphTier::Ascii);
    let singles = [
        glyphs.sun,
        glyphs.check,
        glyphs.cross,
        glyphs.warn,
        glyphs.caret,
        glyphs.scroll_up,
        glyphs.scroll_down,
        glyphs.divider,
    ];
    for glyph in singles {
        assert!(glyph.is_ascii(), "{glyph:?} is not ASCII");
        assert_eq!(glyph.chars().count(), 1, "{glyph:?} is not one cell");
    }
    assert!(glyphs.density().iter().all(|d| d.is_ascii()));
    assert_eq!(glyphs.plot, PlotStyle::Ascii);
}

#[test]
fn the_severity_marks_are_distinct_at_both_tiers() {
    for tier in [GlyphTier::Unicode, GlyphTier::Ascii] {
        let glyphs = Glyphs::for_tier(tier);
        assert_ne!(glyphs.check, glyphs.cross);
        assert_ne!(glyphs.cross, glyphs.warn);
        assert_ne!(glyphs.check, glyphs.warn);
    }
}

#[test]
fn addresses_render_per_tier() {
    let unicode = Glyphs::for_tier(GlyphTier::Unicode);
    assert_eq!(unicode.address(1), "\u{b9}");
    assert_eq!(unicode.address(9), "\u{2079}");
    let ascii = Glyphs::for_tier(GlyphTier::Ascii);
    assert_eq!(ascii.address(1), "[1]");
    assert_eq!(
        unicode.address(10),
        "[10]",
        "past the superscripts the bracketed form is the only option"
    );
    assert_eq!(unicode.address(0), "[0]");
}

#[test]
fn the_capabilities_pick_the_repertoire() {
    let caps = Capabilities {
        color: ColorTier::TrueColor,
        glyphs: GlyphTier::Ascii,
    };
    assert_eq!(caps.glyphs(), Glyphs::for_tier(GlyphTier::Ascii));
    assert_eq!(Glyphs::for_tier(GlyphTier::Unicode).plot, PlotStyle::Braille);
}

#[test]
fn a_fraction_lands_on_the_nearest_rung_and_a_half_rounds_up() {
    let glyphs = Glyphs::for_tier(GlyphTier::Ascii);
    assert_eq!(glyphs.shade(0, 255), ' ');
    assert_eq!(glyphs.shade(255, 255), '#');
    assert_eq!(glyphs.shade(1, 8), '.', "an eighth is half a rung");
    assert_eq!(glyphs.shade(1, 9), ' ');
    assert_eq!(glyphs.shade(1, 2), ':');
    assert_eq!(glyphs.shade(900, 255), '#', "past one is the last rung");
}

#[test]
fn both_tiers_span_their_own_ramp() {
    for tier in [GlyphTier::Unicode, GlyphTier::Ascii] {
        let glyphs = Glyphs::for_tier(tier);
        let dark = flat(4, 2, 0).rows(4, 2, &glyphs);
        let light = flat(4, 2, 255).rows(4, 2, &glyphs);
        assert_eq!(dark, vec!["    ", "    "], "{tier:?}");
        let full = glyphs.density()[4].to_string().repeat(4);
        assert_eq!(light, vec![full.clone(), full], "{tier:?}");
    }
}

#[test]
fn a_low_contrast_picture_is_stretched_to_its_own_range() {
    let glyphs = Glyphs::for_tier(GlyphTier::Unicode);
    let picture = Picture {
        width: 4,
        height: 1,
        luma: vec![200, 200, 220, 200],
    };
    assert_eq!(picture.range(), (200, 220));
    let row = &picture.rows(4, 1, &glyphs)[0];
    let marks: Vec<char> = row.chars().collect();
    assert_ne!(marks[0], marks[2], "the subject did not separate: {row:?}");
    assert_eq!(marks[0], ' ', "the background did not fall to the floor");
    assert_eq!(marks[2], glyphs.density()[4], "the subject did not reach the top");
}

#[test]
fn a_flat_picture_is_not_stretched_into_one() {
    let glyphs = Glyphs::for_tier(GlyphTier::Unicode);
    let picture = Picture {
        width: 4,
        height: 1,
        luma: vec![128, 129, 130, 131],
    };
    let row = &picture.rows(4, 1, &glyphs)[0];
    let marks: std::collections::HashSet<char> = row.chars().collect();
    assert_eq!(marks.len(), 1, "four near-identical values drew {row:?}");
}

#[test]
fn a_gradient_survives_being_drawn_small() {
    let width = 64;
    let picture = Picture {
        width,
        height: 1,
        luma: (0..width).map(|x| (x * 255 / (width - 1)) as u8).collect(),
    };
    let glyphs = Glyphs::for_tier(GlyphTier::Unicode);
    let rows = picture.rows(8, 1, &glyphs);
    let row = &rows[0];
    assert!(row.starts_with(' '), "{row:?}");
    assert!(row.ends_with(glyphs.density()[4]), "{row:?}");
}

#[test]
fn an_empty_picture_or_panel_draws_nothing() {
    let glyphs = Glyphs::for_tier(GlyphTier::Ascii);
    assert!(flat(0, 0, 0).rows(4, 2, &glyphs).is_empty());
    assert!(flat(4, 2, 9).rows(0, 2, &glyphs).is_empty());
    assert_eq!(flat(0, 0, 0).range(), (0, 0));
}
