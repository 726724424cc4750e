use solarxy_cli::keymap::{KeyCode, KeyEvent};
use solarxy_cli::shell::{
    below_floor, classify, mouse_requested, Event, Input, KeyKind, MouseEvent, MouseKind, Stream,
    FLOOR_HEIGHT, FLOOR_WIDTH,
};

fn key(kind: KeyKind) -> Event {
    Event::Key(KeyEvent { code: KeyCode::Char('j'), control: false }, kind)
}

#[test]
fn only_key_presses_reach_the_surface() {
    assert!(matches!(classify(&key(KeyKind::Press), false), Some(Input::Key(_))));
    assert_eq!(classify(&key(KeyKind::Release), false), None);
    assert_eq!(classify(&key(KeyKind::Repeat), false), None);
}

#[test]
fn a_resize_is_an_event_rather_than_a_surprise() {
    assert_eq!(
        classify(&Event::Resize(120, 40), false),
        Some(Input::Resize(120, 40))
    );
}

#[test]
fn the_mouse_is_ignored_unless_it_was_asked_for() {
    let moved = MouseEvent { kind: MouseKind::Moved, column: 1, row: 1 };
    assert_eq!(classify(&Event::Mouse(moved), false), None);
    assert!(matches!(classify(&Event::Mouse(moved), true), Some(Input::Mouse(_))));
}

#[test]
fn the_mouse_override_reads_like_the_others() {
    let env = |value: Option<&str>| value.map(str::to_owned);
    assert!(mouse_requested(&env(Some("1"))));
    assert!(mouse_requested(&env(Some("yes"))));
    assert!(mouse_requested(&env(Some(" TRUE "))));
    assert!(!mouse_requested(&env(Some("0"))));
    assert!(!mouse_requested(&env(None)));
}

#[test]
fn events_the_surface_has_no_use_for_are_dropped() {
    assert_eq!(classify(&Event::Other, true), None);
}

const ANALYZE_INSTEAD: &str =
    "Printing the report instead; use --format text to ask for it directly.";

fn analyze_floor(width: u16, height: u16) -> Option<String> {
    below_floor(width, height, "analyze", ANALYZE_INSTEAD)
}

#[test]
fn the_floor_message_names_both_sizes() {
    assert_eq!(analyze_floor(FLOOR_WIDTH, FLOOR_HEIGHT), None);
    assert_eq!(analyze_floor(200, 60), None);
    let message = analyze_floor(80, 25).expect("below the floor");
    assert!(message.contains("80x25"), "{message}");
    assert!(message.contains("100x30"), "{message}");
    assert!(message.contains("--format text"), "{message}");
}

#[test]
fn the_floor_message_is_the_callers_own() {
    let message = below_floor(80, 25, "render", "Reporting a plain line instead.")
        .expect("below the floor");
    assert!(message.contains("the render surface needs"), "{message}");
    assert!(message.ends_with("Reporting a plain line instead."), "{message}");
    assert!(!message.contains("--format text"), "{message}");
    assert_eq!(
        message,
        "This terminal is 80x25 and the render surface needs 100x30. Reporting a plain line instead."
    );
}

#[test]
fn either_dimension_alone_is_enough_to_be_below_the_floor() {
    assert!(analyze_floor(FLOOR_WIDTH - 1, FLOOR_HEIGHT).is_some());
    assert!(analyze_floor(FLOOR_WIDTH, FLOOR_HEIGHT - 1).is_some());
}

#[test]
fn each_stream_is_named_for_a_person() {
    assert_eq!(Stream::Stdout.name(), "standard output");
    assert_eq!(Stream::Stderr.name(), "standard error");
}
