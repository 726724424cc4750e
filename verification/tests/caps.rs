use solarxy_cli::caps::{Capabilities, ColorTier, Environment, GlyphTier};

fn env(pairs: &[(&str, &str)]) -> Environment {
    let get = |key: &str| {
        pairs
            .iter()
            .find(|(k, _)| *k == key)
            .map(|(_, value)| (*value).to_owned())
    };
    Environment {
        solarxy_color: get("SOLARXY_COLOR"),
        solarxy_ascii: get("SOLARXY_ASCII"),
        no_color: get("NO_COLOR"),
        term: get("TERM"),
        colorterm: get("COLORTERM"),
        lc_all: get("LC_ALL"),
        lc_ctype: get("LC_CTYPE"),
        lang: get("LANG"),
    }
}

fn color_of(pairs: &[(&str, &str)]) -> ColorTier {
    Capabilities::from_env(&env(pairs)).color
}

fn glyphs_of(pairs: &[(&str, &str)]) -> GlyphTier {
    Capabilities::from_env(&env(pairs)).glyphs
}

#[test]
fn the_detection_ladder_is_ordered() {
    assert_eq!(color_of(&[]), ColorTier::Ansi16, "the fallback");
    assert_eq!(color_of(&[("TERM", "xterm-256color")]), ColorTier::Ansi256);
    assert_eq!(
        color_of(&[("COLORTERM", "truecolor"), ("TERM", "xterm-256color")]),
        ColorTier::TrueColor
    );
    assert_eq!(
        color_of(&[("TERM", "dumb"), ("COLORTERM", "truecolor")]),
        ColorTier::Mono
    );
    assert_eq!(
        color_of(&[("NO_COLOR", "1"), ("TERM", "xterm-256color")]),
        ColorTier::Mono
    );
    assert_eq!(
        color_of(&[("SOLARXY_COLOR", "truecolor"), ("NO_COLOR", "1")]),
        ColorTier::TrueColor
    );
}

#[test]
fn every_override_spelling_resolves() {
    for (value, expected) in [
        ("mono", ColorTier::Mono),
        ("0", ColorTier::Mono),
        ("16", ColorTier::Ansi16),
        ("256", ColorTier::Ansi256),
        ("truecolor", ColorTier::TrueColor),
        ("24bit", ColorTier::TrueColor),
        ("TrueColor", ColorTier::TrueColor),
        ("  256  ", ColorTier::Ansi256),
    ] {
        assert_eq!(color_of(&[("SOLARXY_COLOR", value)]), expected, "{value}");
    }
}

#[test]
fn an_unrecognised_override_falls_through() {
    assert_eq!(
        color_of(&[("SOLARXY_COLOR", "purple"), ("TERM", "xterm-256color")]),
        ColorTier::Ansi256
    );
}

#[test]
fn an_empty_no_color_is_not_a_request() {
    assert_eq!(color_of(&[("NO_COLOR", "")]), ColorTier::Ansi16);
    assert_eq!(color_of(&[("NO_COLOR", "0")]), ColorTier::Mono);
}

#[test]
fn the_locale_selects_the_glyph_tier() {
    assert_eq!(glyphs_of(&[("LANG", "en_US.UTF-8")]), GlyphTier::Unicode);
    assert_eq!(glyphs_of(&[("LANG", "C")]), GlyphTier::Ascii);
    assert_eq!(glyphs_of(&[("LC_ALL", "en_GB.utf8")]), GlyphTier::Unicode);
    assert_eq!(
        glyphs_of(&[("LC_ALL", "POSIX"), ("LANG", "en_US.UTF-8")]),
        GlyphTier::Ascii
    );
}

#[test]
fn no_locale_at_all_keeps_unicode() {
    assert_eq!(glyphs_of(&[]), GlyphTier::Unicode);
}

#[test]
fn the_ascii_override_wins_both_ways() {
    assert_eq!(
        glyphs_of(&[("SOLARXY_ASCII", "1"), ("LANG", "en_US.UTF-8")]),
        GlyphTier::Ascii
    );
    assert_eq!(
        glyphs_of(&[("SOLARXY_ASCII", "0"), ("LANG", "C")]),
        GlyphTier::Unicode
    );
}

#[test]
fn the_axes_are_independent_except_for_a_dumb_terminal() {
    let caps = Capabilities::from_env(&env(&[
        ("SOLARXY_COLOR", "truecolor"),
        ("SOLARXY_ASCII", "1"),
    ]));
    assert_eq!(caps.color, ColorTier::TrueColor);
    assert_eq!(caps.glyphs, GlyphTier::Ascii);
    let dumb = Capabilities::from_env(&env(&[("TERM", "dumb")]));
    assert_eq!(dumb.color, ColorTier::Mono);
    assert_eq!(dumb.glyphs, GlyphTier::Ascii);
}

#[test]
fn only_the_richer_tiers_paint_a_ground() {
    assert!(!ColorTier::Mono.paints_a_ground());
    assert!(!ColorTier::Ansi16.paints_a_ground());
    assert!(ColorTier::Ansi256.paints_a_ground());
    assert!(ColorTier::TrueColor.paints_a_ground());
}

#[test]
fn a_theme_is_read_exactly_where_a_ground_is_painted() {
    for tier in [ColorTier::Mono, ColorTier::Ansi16, ColorTier::Ansi256, ColorTier::TrueColor] {
        assert_eq!(tier.reads_a_theme(), tier.paints_a_ground(), "{tier:?}");
    }
    assert_eq!(Capabilities::default().color, ColorTier::Ansi16);
    assert_eq!(Capabilities::default().glyphs, GlyphTier::Unicode);
}

#[test]
fn a_spaced_dumb_terminal_and_an_empty_override_still_detect() {
    assert_eq!(color_of(&[("TERM", " dumb ")]), ColorTier::Mono);
    assert_eq!(color_of(&[("SOLARXY_COLOR", "  ")]), ColorTier::Ansi16);
    assert_eq!(glyphs_of(&[("SOLARXY_ASCII", "maybe"), ("LANG", "C")]), GlyphTier::Ascii);
    assert_eq!(glyphs_of(&[("LC_ALL", ""), ("LC_CTYPE", "C.UTF-8")]), GlyphTier::Unicode);
    assert_eq!(glyphs_of(&[("SOLARXY_ASCII", " YES ")]), GlyphTier::Ascii);
}

use solarxy_cli::caps::{quantize_rgb, Ink};

#[test]
fn monochrome_erases_every_colour_and_truecolor_erases_none() {
    let amber = Ink::Rgb(230, 180, 80);
    assert_eq!(ColorTier::Mono.degrade(amber), Ink::Reset);
    assert_eq!(ColorTier::Mono.degrade(Ink::Named(8)), Ink::Reset);
    assert_eq!(ColorTier::TrueColor.degrade(amber), amber);
    assert_eq!(ColorTier::Ansi16.degrade(amber), amber);
}

#[test]
fn quantising_never_lands_on_a_user_redefinable_slot() {
    for (r, g, b) in [
        (230, 180, 80),
        (85, 221, 153),
        (229, 72, 77),
        (0, 0, 0),
        (255, 255, 255),
        (17, 17, 14),
    ] {
        let quantised = ColorTier::Ansi256.degrade(Ink::Rgb(r, g, b));
        let Ink::Indexed(index) = quantised else {
            panic!("{r},{g},{b} did not quantise to an indexed colour");
        };
        assert!(index >= 16, "{r},{g},{b} landed on slot {index}");
    }
}

#[test]
fn quantising_keeps_the_semantic_hues_apart() {
    let hues = [Ink::Rgb(230, 180, 80), Ink::Rgb(85, 221, 153), Ink::Rgb(229, 72, 77)];
    let mut quantised: Vec<Ink> = hues.iter().map(|&hue| ColorTier::Ansi256.degrade(hue)).collect();
    quantised.dedup();
    assert_eq!(quantised.len(), hues.len(), "two hues collapsed into one");
}

#[test]
fn quantising_leaves_named_slots_alone() {
    assert_eq!(ColorTier::Ansi256.degrade(Ink::Named(8)), Ink::Named(8));
    assert_eq!(ColorTier::Ansi256.degrade(Ink::Reset), Ink::Reset);
}

#[test]
fn quantising_picks_the_cube_or_the_grey_ramp() {
    assert_eq!(quantize_rgb(0, 0, 0), 16);
    assert_eq!(quantize_rgb(255, 255, 255), 231);
    assert_eq!(quantize_rgb(128, 128, 128), 244);
    assert_eq!(quantize_rgb(255, 0, 0), 196);
}

#[test]
fn the_lower_tiers_paint_only_what_they_can() {
    for ink in [Ink::Reset, Ink::Named(3), Ink::Indexed(200), Ink::Rgb(10, 200, 30)] {
        assert_eq!(ColorTier::Mono.degrade(ink), Ink::Reset);
        assert!(!matches!(ColorTier::Ansi256.degrade(ink), Ink::Rgb(..)));
    }
    assert!(matches!(
        ColorTier::Ansi256.degrade(Ink::Rgb(10, 200, 30)),
        Ink::Indexed(_)
    ));
}
