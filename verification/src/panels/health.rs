//! Severity counts, and which of them the health panel shows.

use vstd::prelude::*;
use crate::glyphs::Glyphs;
use crate::keymap::{KeyCode, KeyEvent};
use crate::lines::{line_view, Segment, Tone};
use crate::panels::validation::IssueRow;
use crate::text::{chars_of, decimal, owned, push_decimal, push_str, same_chars};

verus! {

/// How serious an issue is.
#[derive(Debug, Clone, Copy, PartialEq, Eq, Structural)]
pub enum Severity {
    Error,
    Warning,
}

/// Which severities are shown. Cycles with the panel's one menu word.
#[derive(Debug, Clone, Copy, PartialEq, Eq, Structural)]
pub enum Filter {
    All,
    ErrorsOnly,
    WarningsOnly,
}

impl Default for Filter {
    fn default() -> (r: Filter)
        ensures
            r == Filter::All,
    {
        Filter::All
    }
}

impl Filter {
    pub open spec fn next_spec(self) -> Filter {
        match self {
            Filter::All => Filter::ErrorsOnly,
            Filter::ErrorsOnly => Filter::WarningsOnly,
            Filter::WarningsOnly => Filter::All,
        }
    }

    pub open spec fn admits_spec(self, severity: Severity) -> bool {
        match self {
            Filter::All => true,
            Filter::ErrorsOnly => severity == Severity::Error,
            Filter::WarningsOnly => severity == Severity::Warning,
        }
    }

    pub open spec fn label_spec(self) -> Seq<char> {
        match self {
            Filter::All => "all"@,
            Filter::ErrorsOnly => "errors"@,
            Filter::WarningsOnly => "warnings"@,
        }
    }

    pub fn next(self) -> (r: Filter)
        ensures
            r == self.next_spec(),
    {
        match self {
            Filter::All => Filter::ErrorsOnly,
            Filter::ErrorsOnly => Filter::WarningsOnly,
            Filter::WarningsOnly => Filter::All,
        }
    }

    pub fn admits(self, severity: Severity) -> (b: bool)
        ensures
            b == self.admits_spec(severity),
    {
        match self {
            Filter::All => true,
            Filter::ErrorsOnly => severity == Severity::Error,
            Filter::WarningsOnly => severity == Severity::Warning,
        }
    }

    pub fn label(self) -> (r: &'static str)
        ensures
            r@ == self.label_spec(),
    {
        match self {
            Filter::All => "all",
            Filter::ErrorsOnly => "errors",
            Filter::WarningsOnly => "warnings",
        }
    }
}

#[derive(Debug, Clone, Copy, PartialEq, Eq, Structural)]
pub struct Health {
    pub filter: Filter,
}

impl Default for Health {
    fn default() -> (r: Health)
        ensures
            r.filter == Filter::All,
    {
        Health { filter: Filter::All }
    }
}

/// The severity a kind occurred at: that of the first issue of the kind,
/// or a warning when none is found.
pub open spec fn kind_severity_from(issues: Seq<IssueRow>, kind: Seq<char>, from: int) -> Severity
    decreases issues.len() - from,
{
    if from < 0 || from >= issues.len() {
        Severity::Warning
    } else if issues[from].kind@ == kind {
        issues[from].severity
    } else {
        kind_severity_from(issues, kind, from + 1)
    }
}

pub open spec fn kind_severity_spec(issues: Seq<IssueRow>, kind: Seq<char>) -> Severity {
    kind_severity_from(issues, kind, 0)
}

/// The severity a kind actually occurred at in this report: taken from the
/// issues rather than from a table, because one kind can be raised at either
/// severity depending on the project's rules.
pub fn kind_severity(kind: &str, issues: &Vec<IssueRow>) -> (r: Severity)
    ensures
        r == kind_severity_spec(issues@, kind@),
{
    let wanted = chars_of(kind);
    let mut i: usize = 0;
    while i < issues.len()
        invariant
            wanted@ == kind@,
            i <= issues@.len(),
            kind_severity_from(issues@, kind@, i as int) == kind_severity_spec(issues@, kind@),
        decreases issues@.len() - i,
    {
        if same_chars(&chars_of(issues[i].kind.as_str()), &wanted) {
            return issues[i].severity;
        }
        i = i + 1;
    }
    Severity::Warning
}

/// The positions, among kinds ranked by count, of those the filter shows.
pub open spec fn shown_kinds(
    filter: Filter,
    ranked: Seq<(String, u64)>,
    issues: Seq<IssueRow>,
    upto: int,
) -> Seq<usize>
    decreases upto,
{
    if upto <= 0 {
        Seq::empty()
    } else {
        let rest = shown_kinds(filter, ranked, issues, upto - 1);
        if filter.admits_spec(kind_severity_spec(issues, ranked[upto - 1].0@)) {
            rest.push((upto - 1) as usize)
        } else {
            rest
        }
    }
}

/// The line of totals above the bars.
pub open spec fn totals_spec(errors: nat, warnings: nat, cross: Seq<char>, warn: Seq<char>) -> Seq<
    (Seq<char>, Tone),
> {
    seq![
        (cross + seq![' '] + decimal(errors) + " errors"@, Tone::Failure),
        ("   "@, Tone::Ink),
        (warn + seq![' '] + decimal(warnings) + " warnings"@, Tone::Warning),
    ]
}

/// The panel's status: how many kinds occurred, and the filter.
pub open spec fn status_spec(kinds: nat, filter: Filter) -> Seq<char> {
    decimal(kinds) + " kinds \u{b7} "@ + filter.label_spec()
}

impl Health {
    /// The panel's one menu word.
    pub fn menu() -> (r: Vec<&'static str>)
        ensures
            r@.len() == 1,
            r@[0]@ == "filter"@,
    {
        vec!["filter"]
    }

    /// `/` cycles the severity filter.
    pub fn handle(&mut self, key: KeyEvent)
        ensures
            final(self).filter == (if key.code == KeyCode::Char('/') {
                old(self).filter.next_spec()
            } else {
                old(self).filter
            }),
    {
        if key.code == KeyCode::Char('/') {
            self.filter = self.filter.next();
        }
    }

    /// Which of the ranked kinds get a bar, in rank order: those whose
    /// severity the filter admits.
    pub fn shown(&self, ranked: &Vec<(String, u64)>, issues: &Vec<IssueRow>) -> (r: Vec<usize>)
        ensures
            r@ == shown_kinds(self.filter, ranked@, issues@, ranked@.len() as int),
    {
        let mut out: Vec<usize> = Vec::new();
        let mut i: usize = 0;
        while i < ranked.len()
            invariant
                i <= ranked@.len(),
                out@ == shown_kinds(self.filter, ranked@, issues@, i as int),
            decreases ranked@.len() - i,
        {
            let severity = kind_severity(ranked[i].0.as_str(), issues);
            if self.filter.admits(severity) {
                out.push(i);
            }
            i = i + 1;
        }
        out
    }

    /// How many errors and warnings the report holds, each behind its mark.
    pub fn totals(errors: u64, warnings: u64, glyphs: &Glyphs) -> (r: Vec<Segment>)
        ensures
            line_view(r@) == totals_spec(errors as nat, warnings as nat, glyphs.cross@, glyphs.warn@),
    {
        let mut first = owned(glyphs.cross);
        crate::text::push_char(&mut first, ' ');
        push_decimal(&mut first, errors);
        push_str(&mut first, " errors");
        let mut second = owned(glyphs.warn);
        crate::text::push_char(&mut second, ' ');
        push_decimal(&mut second, warnings);
        push_str(&mut second, " warnings");
        assert(first@ =~= glyphs.cross@ + seq![' '] + decimal(errors as nat) + " errors"@);
        assert(second@ =~= glyphs.warn@ + seq![' '] + decimal(warnings as nat) + " warnings"@);
        let r = vec![
            Segment { text: first, tone: Tone::Failure },
            Segment { text: owned("   "), tone: Tone::Ink },
            Segment { text: second, tone: Tone::Warning },
        ];
        assert(line_view(r@) =~~= totals_spec(
            errors as nat,
            warnings as nat,
            glyphs.cross@,
            glyphs.warn@,
        ));
        r
    }

    /// How many kinds occurred, and what the filter shows.
    pub fn status(&self, kinds: u64) -> (r: String)
        ensures
            r@ == status_spec(kinds as nat, self.filter),
    {
        let mut out = String::new();
        push_decimal(&mut out, kinds);
        push_str(&mut out, " kinds \u{b7} ");
        push_str(&mut out, self.filter.label());
        assert(out@ =~= status_spec(kinds as nat, self.filter));
        out
    }
}

/// Three presses of the filter come back to where they started, and the
/// first shows everything.
pub proof fn law_filter_cycles(f: Filter, s: Severity)
    ensures
        f.next_spec().next_spec().next_spec() == f,
        Filter::All.admits_spec(s),
        f.admits_spec(s) ==> Filter::All.admits_spec(s),
{
}

} // verus!
