use solarxy_cli::layout::Preset;
use solarxy_cli::prefs::TuiPrefs;

fn prefs(theme: Option<&str>, last: Option<&str>, saved: Option<&str>) -> TuiPrefs {
    TuiPrefs {
        theme: theme.map(str::to_owned),
        last_layout: last.map(str::to_owned),
        saved_layout: saved.map(str::to_owned),
    }
}

#[test]
fn a_round_trip_through_the_file_format_is_exact() {
    let prefs = prefs(
        Some("solarxy-cool"),
        Some(Preset::Survey.encoded()),
        Some(Preset::Validation.encoded()),
    );
    let read = TuiPrefs::parse(&prefs.to_toml()).expect("parses");
    assert_eq!(read, prefs);
}

#[test]
fn an_empty_file_is_defaults_rather_than_an_error() {
    assert_eq!(TuiPrefs::parse("").expect("parses"), TuiPrefs::default());
    assert_eq!(TuiPrefs::parse("[tui]\n").expect("parses"), TuiPrefs::default());
}

#[test]
fn a_partial_file_keeps_what_it_has() {
    let prefs = TuiPrefs::parse("[tui]\ntheme = \"solarxy-paper\"\n").expect("parses");
    assert_eq!(prefs.theme.as_deref(), Some("solarxy-paper"));
    assert!(prefs.last_layout.is_none());
}

#[test]
fn the_opening_layout_is_what_was_last_saved() {
    let prefs = prefs(None, Some(Preset::Meshes.encoded()), None);
    let layout = prefs.opening_layout().expect("decodes");
    assert_eq!(layout.encode(), Preset::Meshes.encoded());
    assert!(TuiPrefs::default().opening_layout().is_none());
}

#[test]
fn a_malformed_layout_names_its_key() {
    let error = TuiPrefs::parse("[tui]\nlast_layout = \"V0.5(meshes,nonesuch)\"\n")
        .expect_err("should be refused");
    assert!(error.contains("last_layout"), "{error}");
    assert!(error.contains("nonesuch"), "{error}");
    assert_eq!(error, "tui.last_layout: nonesuch is not a panel this version knows");
}

#[test]
fn a_non_string_value_names_its_key() {
    let error = TuiPrefs::parse("[tui]\ntheme = 3\n").expect_err("should be refused");
    assert!(error.contains("tui.theme"), "{error}");
    assert_eq!(error, "tui.theme is not a string");
}

#[test]
fn the_written_file_explains_itself() {
    let prefs = prefs(Some("solarxy-amber"), Some(Preset::Survey.encoded()), None);
    let text = prefs.to_toml();
    assert!(text.contains("[tui]"), "{text}");
    assert!(text.contains("vertical split"), "{text}");
    assert!(!text.contains("saved_layout"), "an absent key was written");
    assert!(TuiPrefs::parse(&text).is_ok(), "the legend broke the parse");
}

#[test]
fn a_quote_in_a_value_is_escaped_and_survives() {
    let quoted = prefs(Some("say \"hi\""), None, None);
    let text = quoted.to_toml();
    assert!(text.ends_with("theme = \"say \\\"hi\\\"\"\n"), "{text}");
    assert_eq!(TuiPrefs::parse(&text).expect("parses"), quoted);
}

#[test]
fn a_tui_that_is_not_a_table_is_refused() {
    assert_eq!(
        TuiPrefs::parse("tui = 1\n").expect_err("not a table"),
        "tui is not a table"
    );
    assert!(TuiPrefs::parse("[tui\n").is_err(), "broken syntax parses");
}

#[test]
fn the_requested_theme_wins_and_the_notices_keep_their_order() {
    let prefs = TuiPrefs {
        theme: Some("paper".to_string()),
        last_layout: None,
        saved_layout: None,
    };
    assert_eq!(prefs.wanted_theme(&Some("dusk".to_string())), Some("dusk".to_string()));
    assert_eq!(prefs.wanted_theme(&None), Some("paper".to_string()));
    let bare = TuiPrefs {
        theme: None,
        last_layout: None,
        saved_layout: None,
    };
    assert_eq!(bare.wanted_theme(&None), None);
    assert_eq!(
        solarxy_cli::prefs::startup_notices(vec!["a".to_string()], vec!["b".to_string(), "c".to_string()]),
        vec!["a".to_string(), "b".to_string(), "c".to_string()]
    );
}
