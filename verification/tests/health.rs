use solarxy_cli::caps::GlyphTier;
use solarxy_cli::glyphs::Glyphs;
use solarxy_cli::keymap::{KeyCode, KeyEvent};
use solarxy_cli::lines::Tone;
use solarxy_cli::panels::health::{kind_severity, Filter, Health, Severity};
use solarxy_cli::panels::validation::{IssueRow, IssueScope};

fn issue(kind: &str, severity: Severity) -> IssueRow {
    IssueRow {
        kind: kind.to_string(),
        severity,
        scope: IssueScope::Model,
        message: String::new(),
    }
}

fn issues() -> Vec<IssueRow> {
    vec![
        issue("degenerate triangle", Severity::Error),
        issue("missing uvs", Severity::Warning),
        issue("degenerate triangle", Severity::Warning),
    ]
}

fn ranked() -> Vec<(String, u64)> {
    vec![
        ("degenerate triangle".to_string(), 2),
        ("missing uvs".to_string(), 1),
        ("oversized texture".to_string(), 1),
    ]
}

#[test]
fn a_kind_takes_the_severity_it_first_occurred_at() {
    assert_eq!(kind_severity("degenerate triangle", &issues()), Severity::Error);
    assert_eq!(kind_severity("missing uvs", &issues()), Severity::Warning);
}

#[test]
fn a_kind_never_raised_reads_as_a_warning() {
    assert_eq!(kind_severity("oversized texture", &issues()), Severity::Warning);
}

#[test]
fn the_filter_picks_the_bars_in_rank_order() {
    let mut health = Health::default();
    assert_eq!(health.shown(&ranked(), &issues()), vec![0, 1, 2]);
    health.handle(KeyEvent { code: KeyCode::Char('/'), control: false });
    assert_eq!(health.filter, Filter::ErrorsOnly);
    assert_eq!(health.shown(&ranked(), &issues()), vec![0]);
    health.handle(KeyEvent { code: KeyCode::Char('/'), control: false });
    assert_eq!(health.shown(&ranked(), &issues()), vec![1, 2]);
    health.handle(KeyEvent { code: KeyCode::Char('x'), control: false });
    assert_eq!(health.filter, Filter::WarningsOnly);
}

#[test]
fn the_totals_line_names_both_counts() {
    let line = Health::totals(2, 5, &Glyphs::for_tier(GlyphTier::Ascii));
    let text: String = line.iter().map(|s| s.text.as_str()).collect();
    assert_eq!(text, "X 2 errors   ! 5 warnings");
    assert_eq!(line[0].tone, Tone::Failure);
    assert_eq!(line[2].tone, Tone::Warning);
}

#[test]
fn the_status_counts_kinds_and_names_the_filter() {
    let health = Health { filter: Filter::ErrorsOnly };
    assert_eq!(health.status(3), "3 kinds \u{b7} errors");
    assert_eq!(Health::menu(), vec!["filter"]);
}
