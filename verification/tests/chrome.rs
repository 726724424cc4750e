use solarxy_cli::caps::GlyphTier;
use solarxy_cli::chrome::{strip, tally};
use solarxy_cli::glyphs::Glyphs;
use solarxy_cli::keymap::{rows, Context};
use solarxy_cli::lines::Tone;

#[test]
fn while_arranging_the_strip_names_the_mode_then_its_keys() {
    let line = strip(&vec![], GlyphTier::Unicode, true);
    assert_eq!(line[0].text, "ARRANGE  ");
    assert_eq!(line[1].text, "h j k l");
    assert_eq!(line[1].tone, Tone::Strong);
    assert_eq!(line[2].text, " move  ");
    assert_eq!(line[2].tone, Tone::Ink);
    assert_eq!(line.len(), 1 + 2 * rows(Context::Arrange).len());
    assert_eq!(line.last().map(|s| s.text.as_str()), Some(" leave  "));
}

#[test]
fn otherwise_the_strip_is_the_footer_with_a_word_a_key() {
    let line = strip(&vec!["axis"], GlyphTier::Unicode, false);
    assert_eq!(line[0].text, "1-9");
    assert_eq!(line[1].text, " focus  ");
    let n = line.len();
    assert_eq!(line[n - 2].text, "a");
    assert_eq!(line[n - 1].text, " axis  ");
    assert_eq!(
        n,
        2 * (rows(Context::Global).len() + rows(Context::Focused).len() + 1)
    );
}

#[test]
fn the_tally_puts_each_count_behind_its_mark() {
    let line = tally(3, 12, &Glyphs::for_tier(GlyphTier::Ascii));
    assert_eq!(line[0].text, "X 3  ");
    assert_eq!(line[0].tone, Tone::Fault);
    assert_eq!(line[1].text, "! 12 ");
    assert_eq!(line[1].tone, Tone::Caution);
}

fn placement(focused: bool) -> solarxy_cli::layout::Placement {
    solarxy_cli::layout::Placement {
        id: solarxy_cli::layout::LeafId(0),
        panel: solarxy_cli::layout::PanelType::Meshes,
        rect: solarxy_cli::rect::Rect { x: 0, y: 0, width: 40, height: 10 },
        address: 2,
        focused,
    }
}

fn joined(line: &[solarxy_cli::lines::Segment]) -> String {
    line.iter().map(|s| s.text.as_str()).collect()
}

#[test]
fn a_focused_border_names_the_panel_and_its_words() {
    let glyphs = Glyphs::for_tier(GlyphTier::Ascii);
    let title = solarxy_cli::chrome::border_title(&placement(true), &vec!["sort", "filter"], &None, &glyphs, false);
    assert_eq!(joined(&title), "[2]meshes s sort  f filter ");
    assert_eq!(title[0].tone, Tone::Accent);
    assert_eq!(title[1].tone, Tone::Strong);
    let typing = solarxy_cli::chrome::border_title(
        &placement(true),
        &vec!["sort"],
        &Some("bo".to_string()),
        &glyphs,
        true,
    );
    assert_eq!(joined(&typing), "[2]meshes / bo_ ");
    assert_eq!(typing[0].tone, Tone::Caution);
    let other = solarxy_cli::chrome::border_title(&placement(false), &vec!["sort"], &None, &glyphs, false);
    assert_eq!(joined(&other), "[2]meshes");
    assert_eq!(other[1].tone, Tone::Heading);
}

#[test]
fn the_bottom_border_prefers_the_notice_then_the_counts_then_the_status() {
    use_bottom();
}

fn use_bottom() {
    let notice = Some("cannot split: 24x6 min".to_string());
    let status = Some("3 meshes".to_string());
    let b = solarxy_cli::chrome::border_bottom(true, &notice, true, Some((2, 5)), &status).unwrap();
    assert_eq!(b.text, " cannot split: 24x6 min ");
    assert_eq!(b.tone, Tone::Fault);
    let b = solarxy_cli::chrome::border_bottom(true, &None, true, Some((2, 5)), &status).unwrap();
    assert_eq!(b.text, " 2 of 5 shown  esc clears ");
    let b = solarxy_cli::chrome::border_bottom(true, &None, false, Some((2, 5)), &status).unwrap();
    assert_eq!(b.text, " 3 meshes ");
    assert!(solarxy_cli::chrome::border_bottom(false, &notice, true, None, &status).is_none());
    assert!(solarxy_cli::chrome::border_bottom(true, &None, false, None, &None).is_none());
}
