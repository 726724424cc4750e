//! The documentation screens: the about page, and the small markup the
//! longer help texts are written in.
//!
//! A help text is one directive a line. `## ` starts a section, an empty
//! line is a gap, `[key] words` is a shortcut, `::key value` a labelled
//! value, a bare `==` the head of a settings table and `==name default` one
//! of its rows; anything else is prose. What a line looks like on screen is
//! the drawing side's; what kind of line it is, is decided here.

use vstd::prelude::*;
use crate::text::{chars_of, owned, string_of, trim, trim_spec};

verus! {

/// The program's identity, as the help screen prints it.
#[derive(Debug, Clone, Copy, PartialEq, Eq)]
pub struct AppInfo {
    pub version: &'static str,
    pub description: &'static str,
    pub repository: &'static str,
    pub license: &'static str,
}

/// One line of a documentation screen, by what it is.
#[derive(Debug, Clone, PartialEq, Eq)]
pub enum HelpLine {
    /// A section's heading.
    Section(String),
    /// A gap.
    Blank,
    /// A key and what it does.
    Shortcut { key: String, description: String },
    /// A label and its value.
    KeyValue { key: String, value: String },
    /// The head of a settings table.
    SettingsHeader,
    /// A setting and its default.
    Setting { name: String, default: String },
    /// A line of running text.
    Prose(String),
}

pub ghost enum HelpLineView {
    Section(Seq<char>),
    Blank,
    Shortcut { key: Seq<char>, description: Seq<char> },
    KeyValue { key: Seq<char>, value: Seq<char> },
    SettingsHeader,
    Setting { name: Seq<char>, default: Seq<char> },
    Prose(Seq<char>),
}

impl View for HelpLine {
    type V = HelpLineView;

    open spec fn view(&self) -> HelpLineView {
        match self {
            HelpLine::Section(s) => HelpLineView::Section(s@),
            HelpLine::Blank => HelpLineView::Blank,
            HelpLine::Shortcut { key, description } => HelpLineView::Shortcut {
                key: key@,
                description: description@,
            },
            HelpLine::KeyValue { key, value } => HelpLineView::KeyValue { key: key@, value: value@ },
            HelpLine::SettingsHeader => HelpLineView::SettingsHeader,
            HelpLine::Setting { name, default } => HelpLineView::Setting {
                name: name@,
                default: default@,
            },
            HelpLine::Prose(s) => HelpLineView::Prose(s@),
        }
    }
}

/// The first index at or after `from` holding `c`, or the length.
pub open spec fn find_char(s: Seq<char>, c: char, from: int) -> int
    decreases s.len() - from,
{
    if from >= s.len() {
        s.len() as int
    } else if from >= 0 && s[from] == c {
        from
    } else {
        find_char(s, c, from + 1)
    }
}

/// The search never goes backwards, and stops at the end.
pub proof fn lemma_find_bounds(s: Seq<char>, c: char, from: int)
    requires
        0 <= from <= s.len(),
    ensures
        from <= find_char(s, c, from) <= s.len(),
    decreases s.len() - from,
{
    if from < s.len() && s[from] != c {
        lemma_find_bounds(s, c, from + 1);
    }
}

/// A line without the one carriage return that may end it.
pub open spec fn without_cr(s: Seq<char>) -> Seq<char> {
    if s.len() > 0 && s.last() == '\r' {
        s.drop_last()
    } else {
        s
    }
}

/// The lines of a text from `from` on: split at each line feed, a final
/// line feed ending the last line rather than starting an empty one, and a
/// carriage return before a line feed dropped.
pub open spec fn lines_from(s: Seq<char>, from: int) -> Seq<Seq<char>>
    decreases s.len() - from,
    via lines_from_decreases
{
    if from < 0 || from >= s.len() {
        Seq::empty()
    } else {
        let end = find_char(s, '\n', from);
        if end < s.len() {
            seq![without_cr(s.subrange(from, end))] + lines_from(s, end + 1)
        } else {
            seq![without_cr(s.subrange(from, end))]
        }
    }
}

#[via_fn]
proof fn lines_from_decreases(s: Seq<char>, from: int) {
    if !(from < 0 || from >= s.len()) {
        lemma_find_bounds(s, '\n', from);
    }
}

/// Whether a line begins with a prefix.
pub open spec fn begins(line: Seq<char>, prefix: Seq<char>) -> bool {
    line.len() >= prefix.len() && line.take(prefix.len() as int) == prefix
}

/// What one line of help markup is, or nothing for a labelled value or a
/// settings row with no space to split it at.
pub open spec fn classify_spec(line: Seq<char>) -> Option<HelpLineView> {
    if begins(line, "## "@) {
        Some(HelpLineView::Section(line.skip(3)))
    } else if line.len() == 0 {
        Some(HelpLineView::Blank)
    } else if line[0] == '[' {
        let end = find_char(line, ']', 0);
        if end < line.len() {
            Some(
                HelpLineView::Shortcut {
                    key: line.subrange(1, end),
                    description: trim_spec(line.skip(end + 1)),
                },
            )
        } else {
            Some(HelpLineView::Prose(line))
        }
    } else if begins(line, "::"@) {
        let rest = line.skip(2);
        let sp = find_char(rest, ' ', 0);
        if sp < rest.len() {
            Some(HelpLineView::KeyValue { key: rest.take(sp), value: trim_spec(rest.skip(sp + 1)) })
        } else {
            None
        }
    } else if begins(line, "=="@) {
        let rest = line.skip(2);
        if rest.len() == 0 {
            Some(HelpLineView::SettingsHeader)
        } else {
            let sp = find_char(rest, ' ', 0);
            if sp < rest.len() {
                Some(HelpLineView::Setting { name: rest.take(sp), default: trim_spec(rest.skip(sp + 1)) })
            } else {
                None
            }
        }
    } else {
        Some(HelpLineView::Prose(line))
    }
}

/// The lines a run of help markup makes, in order.
pub open spec fn parsed(lines: Seq<Seq<char>>) -> Seq<HelpLineView>
    decreases lines.len(),
{
    if lines.len() == 0 {
        Seq::empty()
    } else {
        let rest = parsed(lines.drop_last());
        match classify_spec(lines.last()) {
            Some(l) => rest.push(l),
            None => rest,
        }
    }
}

fn find(s: &Vec<char>, c: char, from: usize) -> (r: usize)
    requires
        from <= s@.len(),
    ensures
        r == find_char(s@, c, from as int),
        from <= r <= s@.len(),
{
    let mut i = from;
    while i < s.len() && s[i] != c
        invariant
            from <= i <= s@.len(),
            find_char(s@, c, from as int) == find_char(s@, c, i as int),
        decreases s@.len() - i,
    {
        i = i + 1;
    }
    i
}

fn slice(s: &Vec<char>, from: usize, to: usize) -> (r: Vec<char>)
    requires
        from <= to <= s@.len(),
    ensures
        r@ == s@.subrange(from as int, to as int),
{
    let mut r: Vec<char> = Vec::new();
    let mut i = from;
    while i < to
        invariant
            from <= i <= to <= s@.len(),
            r@ == s@.subrange(from as int, i as int),
        decreases to - i,
    {
        r.push(s[i]);
        i = i + 1;
        assert(r@ =~= s@.subrange(from as int, i as int));
    }
    r
}

pub(crate) fn starts(s: &Vec<char>, prefix: &str) -> (r: bool)
    ensures
        r == begins(s@, prefix@),
{
    let p = chars_of(prefix);
    if p.len() > s.len() {
        return false;
    }
    let mut i: usize = 0;
    while i < p.len()
        invariant
            p@ == prefix@,
            p@.len() <= s@.len(),
            i <= p@.len(),
            forall|k: int| 0 <= k < i ==> s@[k] == p@[k],
        decreases p@.len() - i,
    {
        if s[i] != p[i] {
            assert(s@.take(p@.len() as int)[i as int] != p@[i as int]);
            return false;
        }
        i = i + 1;
    }
    assert(s@.take(p@.len() as int) =~= p@);
    true
}

/// What one line of help markup is.
fn classify(line: &Vec<char>) -> (r: Option<HelpLine>)
    ensures
        match r {
            Some(l) => classify_spec(line@) == Some(l@),
            None => classify_spec(line@) is None,
        },
{
    let n = line.len();
    if starts(line, "## ") {
        proof {
            reveal_strlit("## ");
        }
        return Some(HelpLine::Section(string_of(&slice(line, 3, n))));
    }
    if n == 0 {
        return Some(HelpLine::Blank);
    }
    if line[0] == '[' {
        let end = find(line, ']', 0);
        proof {
            assert(find_char(line@, ']', 0) == find_char(line@, ']', 1));
            lemma_find_bounds(line@, ']', 1);
        }
        if end < n {
            let key = slice(line, 1, end);
            let description = trim(&slice(line, end + 1, n));
            proof {
                assert(line@.subrange(end + 1, n as int) =~= line@.skip(end + 1));
            }
            return Some(
                HelpLine::Shortcut { key: string_of(&key), description: string_of(&description) },
            );
        }
        return Some(HelpLine::Prose(string_of(line)));
    }
    if starts(line, "::") {
        proof {
            reveal_strlit("::");
        }
        let rest = slice(line, 2, n);
        let sp = find(&rest, ' ', 0);
        if sp < rest.len() {
            let key = slice(&rest, 0, sp);
            let value = trim(&slice(&rest, sp + 1, rest.len()));
            proof {
                assert(rest@ =~= line@.skip(2));
                assert(rest@.subrange(0, sp as int) =~= rest@.take(sp as int));
                assert(rest@.subrange(sp + 1, rest@.len() as int) =~= rest@.skip(sp + 1));
            }
            return Some(HelpLine::KeyValue { key: string_of(&key), value: string_of(&value) });
        }
        assert(rest@ =~= line@.skip(2));
        return None;
    }
    if starts(line, "==") {
        proof {
            reveal_strlit("==");
        }
        let rest = slice(line, 2, n);
        assert(rest@ =~= line@.skip(2));
        if rest.len() == 0 {
            return Some(HelpLine::SettingsHeader);
        }
        let sp = find(&rest, ' ', 0);
        if sp < rest.len() {
            let name = slice(&rest, 0, sp);
            let default = trim(&slice(&rest, sp + 1, rest.len()));
            proof {
                assert(rest@.subrange(0, sp as int) =~= rest@.take(sp as int));
                assert(rest@.subrange(sp + 1, rest@.len() as int) =~= rest@.skip(sp + 1));
            }
            return Some(HelpLine::Setting { name: string_of(&name), default: string_of(&default) });
        }
        return None;
    }
    Some(HelpLine::Prose(string_of(line)))
}

/// The lines of help markup, by what each is.
pub fn parse_help_text(text: &str) -> (r: Vec<HelpLine>)
    ensures
        r@.len() == parsed(lines_from(text@, 0)).len(),
        forall|t: int| 0 <= t < r@.len() ==> #[trigger] r@[t]@ == parsed(lines_from(text@, 0))[t],
{
    let s = chars_of(text);
    let n = s.len();
    let ghost done: Seq<Seq<char>> = Seq::empty();
    let mut out: Vec<HelpLine> = Vec::new();
    let mut from: usize = 0;
    while from < n
        invariant
            s@ == text@,
            n == s@.len(),
            from <= n,
            lines_from(text@, 0) == done + lines_from(text@, from as int),
            out@.len() == parsed(done).len(),
            forall|t: int| 0 <= t < out@.len() ==> #[trigger] out@[t]@ == parsed(done)[t],
        decreases n - from,
    {
        let end = find(&s, '\n', from);
        let mut line = slice(&s, from, end);
        if line.len() > 0 && line[line.len() - 1] == '\r' {
            line = slice(&line, 0, line.len() - 1);
        }
        proof {
            let piece = s@.subrange(from as int, end as int);
            assert(line@ == without_cr(piece)) by {
                if piece.len() > 0 && piece.last() == '\r' {
                    assert(piece.subrange(0, piece.len() - 1) =~= piece.drop_last());
                }
            }
            let next_from = if end < n {
                end + 1
            } else {
                n as int
            };
            assert(lines_from(text@, from as int) =~= seq![line@] + lines_from(text@, next_from));
            assert(done + lines_from(text@, from as int) =~= done.push(line@) + lines_from(
                text@,
                next_from,
            ));
        }
        let ghost before = out@;
        match classify(&line) {
            Some(l) => {
                out.push(l);
            },
            None => {},
        }
        proof {
            let next = done.push(line@);
            assert(next.drop_last() =~= done);
            assert(next.last() == line@);
            done = next;
            assert forall|t: int| 0 <= t < out@.len() implies #[trigger] out@[t]@ == parsed(done)[t] by {
                if t < before.len() {
                    assert(out@[t] == before[t]);
                }
            }
        }
        from = if end < n {
            end + 1
        } else {
            n
        };
    }
    proof {
        assert(lines_from(text@, from as int) =~= Seq::<Seq<char>>::empty());
        assert(done + Seq::<Seq<char>>::empty() =~= done);
    }
    out
}

fn section(title: &str) -> (r: HelpLine)
    ensures
        r@ == HelpLineView::Section(title@),
{
    HelpLine::Section(owned(title))
}

fn prose(text: &str) -> (r: HelpLine)
    ensures
        r@ == HelpLineView::Prose(text@),
{
    HelpLine::Prose(owned(text))
}

fn key_value(key: &str, value: &str) -> (r: HelpLine)
    ensures
        r@ == (HelpLineView::KeyValue { key: key@, value: value@ }),
{
    HelpLine::KeyValue { key: owned(key), value: owned(value) }
}

fn shortcut(key: &str, description: &str) -> (r: HelpLine)
    ensures
        r@ == (HelpLineView::Shortcut { key: key@, description: description@ }),
{
    HelpLine::Shortcut { key: owned(key), description: owned(description) }
}

/// The about page: who the program is, its modes, how to start, and its
/// options.
pub open spec fn about_spec(info: AppInfo) -> Seq<HelpLineView> {
    seq![
        HelpLineView::Blank,
        HelpLineView::Section("SOLARXY"@),
        HelpLineView::Blank,
        HelpLineView::KeyValue { key: "Version"@, value: info.version@ },
        HelpLineView::Prose(info.description@),
        HelpLineView::Blank,
        HelpLineView::KeyValue { key: "Repository"@, value: info.repository@ },
        HelpLineView::KeyValue { key: "License"@, value: info.license@ },
        HelpLineView::KeyValue { key: "Contact"@, value: "https://koljam.com"@ },
        HelpLineView::Blank,
        HelpLineView::Blank,
        HelpLineView::Section("MODES"@),
        HelpLineView::Blank,
        HelpLineView::Shortcut { key: "view"@, description: "Real-time 3D model viewer with PBR rendering (default)"@ },
        HelpLineView::Shortcut { key: "analyze"@, description: "CLI/TUI model analysis and validation report"@ },
        HelpLineView::Shortcut { key: "preferences"@, description: "Interactive settings editor (TUI)"@ },
        HelpLineView::Shortcut { key: "docs"@, description: "This documentation viewer"@ },
        HelpLineView::Blank,
        HelpLineView::Blank,
        HelpLineView::Section("GETTING STARTED"@),
        HelpLineView::Blank,
        HelpLineView::Prose("  Open a model in the viewer:"@),
        HelpLineView::Prose(""@),
        HelpLineView::Prose("    solarxy -m model.obj"@),
        HelpLineView::Blank,
        HelpLineView::Prose("  Launch the viewer empty and drag a file onto the window:"@),
        HelpLineView::Prose(""@),
        HelpLineView::Prose("    solarxy"@),
        HelpLineView::Blank,
        HelpLineView::Prose("  Analyze a model:"@),
        HelpLineView::Prose(""@),
        HelpLineView::Prose("    solarxy -M analyze -m model.obj"@),
        HelpLineView::Blank,
        HelpLineView::Prose("  Export analysis as JSON:"@),
        HelpLineView::Prose(""@),
        HelpLineView::Prose("    solarxy -M analyze -m model.obj -f json"@),
        HelpLineView::Blank,
        HelpLineView::Prose("  Edit preferences:"@),
        HelpLineView::Prose(""@),
        HelpLineView::Prose("    solarxy -M preferences"@),
        HelpLineView::Blank,
        HelpLineView::Prose("  Open this documentation:"@),
        HelpLineView::Prose(""@),
        HelpLineView::Prose("    solarxy -M docs"@),
        HelpLineView::Blank,
        HelpLineView::Blank,
        HelpLineView::Section("CLI OPTIONS"@),
        HelpLineView::Blank,
        HelpLineView::Shortcut { key: "-m, --model"@, description: "Path to model file (optional in view mode)"@ },
        HelpLineView::Shortcut { key: "-M, --mode"@, description: "Operation mode: view, analyze, preferences, docs"@ },
        HelpLineView::Shortcut { key: "-f, --format"@, description: "Output format: text or json (analyze mode only)"@ },
        HelpLineView::Shortcut { key: "-o, --output"@, description: "Write report to file (analyze mode only)"@ },
        HelpLineView::Shortcut { key: "--about"@, description: "Print version and project info"@ },
        HelpLineView::Shortcut { key: "--help"@, description: "Print help"@ },
        HelpLineView::Shortcut { key: "--version"@, description: "Print version"@ },
        HelpLineView::Blank,
    ]
}

/// The about page, line by line.
pub fn about(info: &AppInfo) -> (r: Vec<HelpLine>)
    ensures
        r@.len() == about_spec(*info).len(),
        forall|t: int| 0 <= t < r@.len() ==> #[trigger] r@[t]@ == about_spec(*info)[t],
{
    let r = vec![
        HelpLine::Blank,
        section("SOLARXY"),
        HelpLine::Blank,
        key_value("Version", info.version),
        prose(info.description),
        HelpLine::Blank,
        key_value("Repository", info.repository),
        key_value("License", info.license),
        key_value("Contact", "https://koljam.com"),
        HelpLine::Blank,
        HelpLine::Blank,
        section("MODES"),
        HelpLine::Blank,
        shortcut("view", "Real-time 3D model viewer with PBR rendering (default)"),
        shortcut("analyze", "CLI/TUI model analysis and validation report"),
        shortcut("preferences", "Interactive settings editor (TUI)"),
        shortcut("docs", "This documentation viewer"),
        HelpLine::Blank,
        HelpLine::Blank,
        section("GETTING STARTED"),
        HelpLine::Blank,
        prose("  Open a model in the viewer:"),
        prose(""),
        prose("    solarxy -m model.obj"),
        HelpLine::Blank,
        prose("  Launch the viewer empty and drag a file onto the window:"),
        prose(""),
        prose("    solarxy"),
        HelpLine::Blank,
        prose("  Analyze a model:"),
        prose(""),
        prose("    solarxy -M analyze -m model.obj"),
        HelpLine::Blank,
        prose("  Export analysis as JSON:"),
        prose(""),
        prose("    solarxy -M analyze -m model.obj -f json"),
        HelpLine::Blank,
        prose("  Edit preferences:"),
        prose(""),
        prose("    solarxy -M preferences"),
        HelpLine::Blank,
        prose("  Open this documentation:"),
        prose(""),
        prose("    solarxy -M docs"),
        HelpLine::Blank,
        HelpLine::Blank,
        section("CLI OPTIONS"),
        HelpLine::Blank,
        shortcut("-m, --model", "Path to model file (optional in view mode)"),
        shortcut("-M, --mode", "Operation mode: view, analyze, preferences, docs"),
        shortcut("-f, --format", "Output format: text or json (analyze mode only)"),
        shortcut("-o, --output", "Write report to file (analyze mode only)"),
        shortcut("--about", "Print version and project info"),
        shortcut("--help", "Print help"),
        shortcut("--version", "Print version"),
        HelpLine::Blank,
    ];
    assert(r@.len() == 56);
    r
}

} // verus!
