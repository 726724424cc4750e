use ratatui::backend::TestBackend;
use ratatui::text::{Line, Text};
use ratatui::widgets::{Paragraph, Wrap};
use ratatui::Terminal;
use solarxy_cli::scroll::{rendered_rows, Extent, Scroll};

fn body() -> Vec<String> {
    vec![
        "alpha".to_owned(),
        "bravo".to_owned(),
        "charlie delta echo foxtrot golf hotel india".to_owned(),
        "juliett".to_owned(),
        "kilo".to_owned(),
    ]
}

const WIDTH: u16 = 20;

#[test]
fn a_wrapped_line_counts_every_row_it_occupies() {
    let text = body();
    assert_eq!(text.len(), 5, "the body is five logical lines");
    assert_eq!(rendered_rows(&text, WIDTH), 7);
}

#[test]
fn an_unwrapped_body_measures_its_own_line_count() {
    assert_eq!(rendered_rows(&body(), 200), 5);
}

#[test]
fn the_clamp_the_counter_and_the_scrollbar_read_one_number() {
    let extent = Extent::new(rendered_rows(&body(), WIDTH), 4);
    let mut scroll = Scroll::default();
    scroll.last(extent);
    assert_eq!(extent.max_offset(), 3, "seven rows in a four-row viewport");
    assert_eq!(scroll.offset(extent), 3);
    assert_eq!(scroll.position(extent), (4, 7));
    let wrong = Extent::new(5, 4);
    assert_ne!(wrong.max_offset(), extent.max_offset());
    assert_ne!(Scroll::default().position(wrong), scroll.position(extent));
    assert_eq!(scroll.scrollbar(extent), (7, 3, 4));
}

#[test]
fn content_shorter_than_the_viewport_never_scrolls() {
    let extent = Extent::new(3, 10);
    assert!(!extent.overflows());
    assert_eq!(extent.max_offset(), 0);
    let mut scroll = Scroll::default();
    scroll.down(50, extent);
    assert_eq!(scroll.offset(extent), 0);
    scroll.last(extent);
    assert_eq!(scroll.offset(extent), 0);
    assert_eq!(scroll.position(extent), (1, 3));
}

#[test]
fn a_shrunken_viewport_reclamps_a_position_it_invalidates() {
    let tall = Extent::new(40, 30);
    let mut scroll = Scroll::default();
    scroll.last(tall);
    assert_eq!(scroll.offset(tall), 10);
    let short = Extent::new(12, 10);
    assert_eq!(scroll.offset(short), 2, "the old offset outran the content");
}

#[test]
fn both_ends_are_walls() {
    let extent = Extent::new(100, 10);
    let mut scroll = Scroll::default();
    scroll.up(20);
    assert_eq!(scroll.offset(extent), 0, "the top is a floor");
    scroll.down(20, extent);
    assert_eq!(scroll.offset(extent), 20);
    scroll.down(500, extent);
    assert_eq!(scroll.offset(extent), 90, "the bottom is a ceiling");
    scroll.first();
    assert_eq!(scroll.offset(extent), 0);
}

#[test]
fn a_degenerate_extent_still_answers() {
    let empty = Extent::default();
    assert_eq!(empty.max_offset(), 0);
    assert!(!empty.overflows());
    assert_eq!(Scroll::default().position(empty), (0, 0));
    assert_eq!(rendered_rows(&vec!["anything".to_owned()], 0), 0);
}

/// Asserted against what is drawn rather than arithmetic: after jumping to
/// the end, the bottom row of the viewport carries the last row of the
/// content.
#[test]
fn jumping_to_the_end_reaches_the_last_rendered_row() {
    let text = body();
    let viewport_rows = 4;
    let extent = Extent::new(rendered_rows(&text, WIDTH), viewport_rows);
    let mut scroll = Scroll::default();
    scroll.last(extent);

    let drawn = Text::from(text.iter().map(|l| Line::from(l.clone())).collect::<Vec<_>>());
    let mut terminal = Terminal::new(TestBackend::new(WIDTH, viewport_rows)).expect("test terminal");
    terminal
        .draw(|frame| {
            let paragraph = Paragraph::new(drawn.clone())
                .wrap(Wrap { trim: false })
                .scroll((scroll.offset(extent), 0));
            frame.render_widget(paragraph, frame.area());
        })
        .expect("draw");

    let buffer = terminal.backend().buffer().clone();
    let bottom: String = (0..WIDTH)
        .map(|x| buffer[(x, viewport_rows - 1)].symbol())
        .collect();
    assert_eq!(
        bottom.trim(),
        "kilo",
        "jump-to-bottom stopped short of the true last row"
    );
}
