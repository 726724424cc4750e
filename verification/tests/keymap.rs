use solarxy_cli::caps::GlyphTier;
use solarxy_cli::keymap::{
    footer, label, lookup, panel_key, panel_key_label, rows, table, Command, Context, KeyCode,
    KeyEvent,
};

fn press(code: KeyCode) -> KeyEvent {
    KeyEvent { code, control: false }
}

fn control(c: char) -> KeyEvent {
    KeyEvent { code: KeyCode::Char(c), control: true }
}

#[test]
fn both_surfaces_show_exactly_the_tables_rows() {
    let strip = footer(&vec![], GlyphTier::Unicode);
    let shown: Vec<&str> = strip.iter().map(|(label, _)| label.as_str()).collect();
    let expected: Vec<&str> = [Context::Global, Context::Focused]
        .into_iter()
        .flat_map(rows)
        .map(|binding| binding.label)
        .collect();
    assert_eq!(shown, expected);
    let helped: Vec<&str> = [Context::Global, Context::Focused, Context::Arrange, Context::Panel]
        .into_iter()
        .flat_map(rows)
        .map(|binding| binding.label)
        .collect();
    assert_eq!(helped.len(), table().len());
}

#[test]
fn a_panels_own_words_reach_the_footer_with_their_keys() {
    let strip = footer(&vec!["axis", "fit"], GlyphTier::Unicode);
    let tail: Vec<(String, String)> = strip[strip.len() - 2..].to_vec();
    assert_eq!(tail[0], ("a".to_owned(), "axis".to_owned()));
    assert_eq!(tail[1], ("f".to_owned(), "fit".to_owned()));
}

#[test]
fn the_two_colliding_menu_words_take_keys_of_their_own() {
    assert_eq!(panel_key("group"), 'o', "g is first-row");
    assert_eq!(panel_key("jump"), '\u{21b5}', "j is down");
    assert_eq!(panel_key("sort"), 's');
    assert_eq!(panel_key("axis"), 'a');
}

#[test]
fn every_global_binding_dispatches() {
    assert_eq!(
        lookup(Context::Global, press(KeyCode::Char('4'))),
        Some(Command::FocusAddress(4))
    );
    assert_eq!(
        lookup(Context::Global, press(KeyCode::Char('p'))),
        Some(Command::CyclePreset)
    );
    assert_eq!(lookup(Context::Global, control('w')), Some(Command::EnterArrange));
    assert_eq!(lookup(Context::Global, control('s')), Some(Command::SaveLayout));
    assert_eq!(
        lookup(Context::Global, press(KeyCode::Char('?'))),
        Some(Command::Help)
    );
    assert_eq!(
        lookup(Context::Global, press(KeyCode::Char('q'))),
        Some(Command::Quit)
    );
}

#[test]
fn every_focused_panel_binding_dispatches() {
    for (code, expected) in [
        (KeyCode::Up, Command::SelectUp),
        (KeyCode::Down, Command::SelectDown),
        (KeyCode::Char('k'), Command::SelectUp),
        (KeyCode::Char('j'), Command::SelectDown),
        (KeyCode::Enter, Command::Open),
        (KeyCode::Esc, Command::Restore),
        (KeyCode::Char('/'), Command::Filter),
        (KeyCode::Char('s'), Command::Sort),
        (KeyCode::Char('g'), Command::First),
        (KeyCode::Char('e'), Command::Export),
    ] {
        assert_eq!(lookup(Context::Focused, press(code)), Some(expected), "{code:?}");
    }
}

#[test]
fn every_arrange_binding_dispatches() {
    for (code, expected) in [
        (KeyCode::Char('h'), Command::ArrangeLeft),
        (KeyCode::Char('j'), Command::ArrangeDown),
        (KeyCode::Char('k'), Command::ArrangeUp),
        (KeyCode::Char('l'), Command::ArrangeRight),
        (KeyCode::Char('s'), Command::SplitHorizontal),
        (KeyCode::Char('v'), Command::SplitVertical),
        (KeyCode::Char('x'), Command::Close),
        (KeyCode::Char('a'), Command::Add),
        (KeyCode::Char('='), Command::Balance),
        (KeyCode::Esc, Command::LeaveArrange),
    ] {
        assert_eq!(lookup(Context::Arrange, press(code)), Some(expected), "{code:?}");
    }
}

#[test]
fn single_letters_accept_both_cases() {
    for letter in ['p', 'q', 's', 'e', 'j', 'k'] {
        let upper = letter.to_ascii_uppercase();
        let context = if letter == 'p' || letter == 'q' {
            Context::Global
        } else {
            Context::Focused
        };
        assert_eq!(
            lookup(context, press(KeyCode::Char(letter))),
            lookup(context, press(KeyCode::Char(upper))),
            "{letter} and {upper} differ"
        );
    }
}

#[test]
fn the_first_and_last_pair_is_the_one_case_sensitive_binding() {
    assert_eq!(
        lookup(Context::Focused, press(KeyCode::Char('g'))),
        Some(Command::First)
    );
    assert_eq!(
        lookup(Context::Focused, press(KeyCode::Char('G'))),
        Some(Command::Last)
    );
}

#[test]
fn a_control_chord_is_distinct_from_its_letter() {
    assert_eq!(lookup(Context::Global, press(KeyCode::Char('w'))), None);
    assert_eq!(lookup(Context::Focused, control('s')), None);
}

#[test]
fn a_key_the_table_does_not_claim_resolves_to_nothing() {
    assert_eq!(lookup(Context::Global, press(KeyCode::Char('z'))), None);
    assert_eq!(lookup(Context::Focused, press(KeyCode::F(5))), None);
}

#[test]
fn every_row_the_surfaces_show_actually_dispatches() {
    for context in [Context::Global, Context::Focused, Context::Arrange] {
        for binding in rows(context) {
            let probe = match binding.label {
                "1-9" => press(KeyCode::Char('1')),
                "^w" => control('w'),
                "^s" => control('s'),
                label => {
                    let first = label.chars().next().expect("a label");
                    match first {
                        '\u{2191}' => press(KeyCode::Up),
                        '\u{21b5}' => press(KeyCode::Enter),
                        '\u{2190}' => press(KeyCode::Left),
                        'e' if label == "esc" => press(KeyCode::Esc),
                        other => press(KeyCode::Char(other)),
                    }
                }
            };
            assert!(
                lookup(context, probe).is_some(),
                "{context:?} row {:?} shows a key that does nothing",
                binding.label
            );
        }
    }
}

#[test]
fn ascii_labels_transliterate_the_arrows_and_the_return_mark() {
    let strip = footer(&vec!["jump"], GlyphTier::Ascii);
    let labels: Vec<&str> = strip.iter().map(|(l, _)| l.as_str()).collect();
    assert!(labels.contains(&"^v jk"), "{labels:?}");
    assert!(labels.contains(&"ent"), "{labels:?}");
    assert_eq!(panel_key_label("jump", GlyphTier::Ascii), "ent");
    assert_eq!(panel_key_label("jump", GlyphTier::Unicode), "\u{21b5}");
    assert_eq!(panel_key_label("", GlyphTier::Unicode), "?");
    let arrows = rows(Context::Arrange)
        .into_iter()
        .find(|b| b.describes == "resize the active divider")
        .expect("the divider row");
    assert_eq!(label(&arrows, GlyphTier::Ascii), "< >");
    assert_eq!(Context::Panel.heading(), "THIS PANEL");
}

#[test]
fn every_label_in_the_table_has_an_ascii_form() {
    for binding in table() {
        let written = label(&binding, GlyphTier::Ascii);
        assert!(written.is_ascii(), "{} is not ascii at the ascii tier", written);
    }
    let up_down = table()
        .into_iter()
        .find(|b| b.describes == "move selection")
        .expect("the selection row");
    assert_eq!(label(&up_down, GlyphTier::Ascii), "^v jk");
}
