use solarxy_cli::help::{about, parse_help_text, AppInfo, HelpLine};

fn s(text: &str) -> String {
    text.to_string()
}

#[test]
fn each_line_of_markup_is_read_by_its_directive() {
    let text = "## Keys\n\n[q] quit the viewer\n[broken\n::Version 1.2 \r\n==\n==msaa  4x\n==lonely\n::nospace\nplain words\n";
    assert_eq!(
        parse_help_text(text),
        vec![
            HelpLine::Section(s("Keys")),
            HelpLine::Blank,
            HelpLine::Shortcut {
                key: s("q"),
                description: s("quit the viewer"),
            },
            HelpLine::Prose(s("[broken")),
            HelpLine::KeyValue {
                key: s("Version"),
                value: s("1.2"),
            },
            HelpLine::SettingsHeader,
            HelpLine::Setting {
                name: s("msaa"),
                default: s("4x"),
            },
            HelpLine::Prose(s("plain words")),
        ]
    );
}

#[test]
fn a_text_without_a_final_line_feed_keeps_its_last_line() {
    assert_eq!(
        parse_help_text("one\ntwo"),
        vec![HelpLine::Prose(s("one")), HelpLine::Prose(s("two"))]
    );
    assert!(parse_help_text("").is_empty());
    assert_eq!(parse_help_text("\n"), vec![HelpLine::Blank]);
    assert_eq!(parse_help_text("##x"), vec![HelpLine::Prose(s("##x"))]);
}

#[test]
fn the_about_page_names_the_program_and_its_modes() {
    let info = AppInfo {
        version: "0.9.0",
        description: "A model viewer",
        repository: "https://example.org/solarxy",
        license: "MIT",
    };
    let page = about(&info);
    assert_eq!(page.len(), 56);
    assert_eq!(page[1], HelpLine::Section(s("SOLARXY")));
    assert_eq!(
        page[3],
        HelpLine::KeyValue {
            key: s("Version"),
            value: s("0.9.0"),
        }
    );
    assert_eq!(page[4], HelpLine::Prose(s("A model viewer")));
    assert!(page.contains(&HelpLine::Shortcut {
        key: s("analyze"),
        description: s("CLI/TUI model analysis and validation report"),
    }));
    assert_eq!(page[55], HelpLine::Blank);
}
