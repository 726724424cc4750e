use solarxy_cli::render_sink::PlainSink;
use solarxy_cli::render_state::Progress;

fn sampling(tile: u32, sample: u32) -> Progress {
    Progress::Sampling {
        tile,
        tiles: 4,
        columns: 2,
        rows: 2,
        sample,
        samples: 64,
        elapsed_ms: 1500,
    }
}

/// The event's elapsed time in seconds, as the caller writes it.
fn took(e: &Progress) -> String {
    match e {
        Progress::Sampling { elapsed_ms, .. } | Progress::Done { elapsed_ms } => {
            format!("{:.1}s", *elapsed_ms as f64 / 1000.0)
        }
        _ => String::new(),
    }
}

fn drain(interactive: bool, events: &[Progress]) -> String {
    let mut sink = PlainSink::new(interactive);
    let mut out = String::new();
    for e in events {
        if let Some(text) = sink.report(e, &took(e)) {
            out.push_str(&text);
        }
    }
    out
}

/// The property a continuous-integration log depends on: a render that
/// reports a thousand times does not write a thousand lines.
#[test]
fn a_log_gets_one_line_per_step_however_often_the_render_reports() {
    let mut events = vec![Progress::Loading];
    for sample in 0..64 {
        events.push(sampling(0, sample));
    }
    for sample in 0..64 {
        events.push(sampling(1, sample));
    }
    events.push(Progress::Done { elapsed_ms: 2000 });

    let written = drain(false, &events);
    let lines: Vec<&str> = written.lines().collect();
    assert_eq!(
        lines.len(),
        4,
        "expected loading, two tiles and a completion, got {lines:?}"
    );
    assert!(lines[1].contains("tile 1 of 4"));
    assert!(lines[2].contains("tile 2 of 4"));
    assert!(!written.contains('\r'), "a log carries no carriage returns");
}

/// And the property a person watching depends on: one line, rewritten.
#[test]
fn a_terminal_gets_one_line_rewritten_in_place() {
    let written = drain(
        true,
        &[
            Progress::Loading,
            sampling(0, 1),
            sampling(0, 2),
            Progress::Done { elapsed_ms: 2000 },
        ],
    );
    assert_eq!(
        written.matches('\r').count(),
        4,
        "every report should return to the start of the line"
    );
    assert_eq!(written.matches('\n').count(), 1);
    assert!(written.ends_with('\n'));
}

/// A short line after a long one leaves nothing of the long one behind.
#[test]
fn a_shorter_line_erases_the_one_it_replaces() {
    let written = drain(
        true,
        &[
            Progress::BuildingHierarchy { triangles: 123_456 },
            Progress::Loading,
        ],
    );
    let long = solarxy_cli::render_sink::line(&Progress::BuildingHierarchy { triangles: 123_456 }, true, "");
    let short = solarxy_cli::render_sink::line(&Progress::Loading, true, "");
    let padding = long.chars().count() - short.chars().count();
    assert!(
        written.ends_with(&format!("\r{short}{}", " ".repeat(padding))),
        "the shorter line did not blank the tail of the longer: {written:?}"
    );
}

/// The failure closes the line rather than leaving the last progress on it.
#[test]
fn a_failure_ends_the_line_and_names_the_step() {
    let written = drain(
        true,
        &[
            sampling(0, 1),
            Progress::Failed {
                stage: "drawing".to_string(),
            },
        ],
    );
    assert!(written.contains("failed while drawing"));
    assert!(written.ends_with('\n'));
}
