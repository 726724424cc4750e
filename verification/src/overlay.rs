//! What can be open over the grid, and where it sits.

use vstd::prelude::*;
use crate::caps::GlyphTier;
use crate::keymap::{
    in_context, label, label_spec, panel_key_label, panel_key_label_spec, rows, table_spec, Context,
};
use crate::lines::{body_view, line_view, padded, push_line, segment, Segment, Tone};
use crate::rect::Rect;
use crate::text::{owned, push_char, push_str};

verus! {

/// Choosing the export format and where it goes.
#[derive(Debug, PartialEq, Eq)]
pub struct Export {
    pub json: bool,
    pub path: String,
}

/// The one destructive thing in a read-only report.
#[derive(Debug, PartialEq, Eq)]
pub struct Confirm {
    pub panel: String,
    pub address: u8,
}

/// The panel pick: an index into the names the surface offers.
#[derive(Debug, Clone, Copy, PartialEq, Eq, Structural)]
pub struct Catalogue {
    pub selected: usize,
}

/// What is open over the grid, if anything.
#[derive(Debug, PartialEq, Eq)]
pub enum Overlay {
    Help,
    Export(Export),
    Confirm(Confirm),
    Catalogue(Catalogue),
}

impl Overlay {
    pub open spec fn title_spec(&self) -> Seq<char> {
        match self {
            Overlay::Help => "Keyboard"@,
            Overlay::Export(_) => "Export"@,
            Overlay::Confirm(_) => "Close panel"@,
            Overlay::Catalogue(_) => "Add panel"@,
        }
    }

    /// The word in the overlay's top border.
    pub fn title(&self) -> (r: &'static str)
        ensures
            r@ == self.title_spec(),
    {
        match self {
            Overlay::Help => "Keyboard",
            Overlay::Export(_) => "Export",
            Overlay::Confirm(_) => "Close panel",
            Overlay::Catalogue(_) => "Add panel",
        }
    }
}

/// Where an overlay sits: centred, and never larger than the pane.
pub fn window(area: Rect, want_width: u16, want_height: u16) -> (r: Rect)
    requires
        area.wf(),
    ensures
        r.width == (if want_width <= area.width { want_width } else { area.width }),
        r.height == (if want_height <= area.height { want_height } else { area.height }),
        r.x == area.x + (area.width - r.width) / 2,
        r.y == area.y + (area.height - r.height) / 2,
        area.x <= r.x && r.x + r.width <= area.x + area.width,
        area.y <= r.y && r.y + r.height <= area.y + area.height,
{
    let width = if want_width <= area.width {
        want_width
    } else {
        area.width
    };
    let height = if want_height <= area.height {
        want_height
    } else {
        area.height
    };
    Rect::new(area.x + (area.width - width) / 2, area.y + (area.height - height) / 2, width, height)
}

// ---------------------------------------------------------------------------
// What each overlay says.
// ---------------------------------------------------------------------------

/// A key and what it does, as the help overlay lists them.
pub open spec fn entry_spec(key: Seq<char>, describes: Seq<char>) -> Seq<(Seq<char>, Tone)> {
    seq![("  "@ + padded(key, 10), Tone::Strong), (describes, Tone::Ink)]
}

/// One context's section of the help overlay: its heading, a row for each
/// key, and a gap.
pub open spec fn context_section(context: Context, tier: GlyphTier) -> Seq<Seq<(Seq<char>, Tone)>> {
    let rows = in_context(table_spec(), context);
    seq![seq![(context.heading_spec(), Tone::Heading)]] + Seq::new(
        rows.len(),
        |i: int| entry_spec(label_spec(rows[i].label@, tier), rows[i].describes@),
    ) + seq![Seq::empty()]
}

/// The help overlay: every row of the table by context in the table's own
/// order, then the focused panel's own words, when it has any.
pub open spec fn help_spec(tier: GlyphTier, menu: Seq<Seq<char>>) -> Seq<Seq<(Seq<char>, Tone)>> {
    context_section(Context::Global, tier) + context_section(Context::Focused, tier)
        + context_section(Context::Arrange, tier) + if menu.len() > 0 {
        seq![seq![(Context::Panel.heading_spec(), Tone::Heading)]] + Seq::new(
            menu.len(),
            |i: int| entry_spec(panel_key_label_spec(menu[i], tier), menu[i]),
        )
    } else {
        Seq::empty()
    }
}

/// A key and what it does, as the help overlay lists them.
pub fn entry(key: &str, describes: &str) -> (r: Vec<Segment>)
    ensures
        line_view(r@) == entry_spec(key@, describes@),
{
    let mut text = owned("  ");
    push_str(&mut text, key);
    let count = crate::text::chars_of(key).len();
    let mut n = count;
    while n < 10
        invariant
            count == key@.len(),
            count <= n,
            n > 10 ==> n == count,
            text@ == "  "@ + key@ + Seq::new((n - count) as nat, |i: int| ' '),
        decreases 10 - n,
    {
        push_char(&mut text, ' ');
        n = n + 1;
        assert(text@ =~= "  "@ + key@ + Seq::new((n - count) as nat, |i: int| ' '));
    }
    proof {
        if count >= 10 {
            assert(text@ =~= "  "@ + padded(key@, 10));
        } else {
            assert(text@ =~= "  "@ + padded(key@, 10));
        }
    }
    let r = vec![Segment { text, tone: Tone::Strong }, segment(describes, Tone::Ink)];
    assert(line_view(r@) =~= entry_spec(key@, describes@));
    r
}

fn push_section(out: &mut Vec<Vec<Segment>>, context: Context, tier: GlyphTier)
    ensures
        body_view(final(out)@) == body_view(old(out)@) + context_section(context, tier),
{
    let ghost start = body_view(out@);
    let heading = vec![segment(context.heading(), Tone::Heading)];
    assert(line_view(heading@) =~= seq![(context.heading_spec(), Tone::Heading)]);
    push_line(out, heading);
    assert(body_view(out@) =~= start + seq![seq![(context.heading_spec(), Tone::Heading)]] + Seq::new(
        0,
        |k: int| entry_spec(label_spec(in_context(table_spec(), context)[k].label@, tier), in_context(table_spec(), context)[k].describes@),
    ));
    let bindings = rows(context);
    let ghost specs = in_context(table_spec(), context);
    let mut i: usize = 0;
    while i < bindings.len()
        invariant
            bindings@ == specs,
            specs == in_context(table_spec(), context),
            i <= bindings@.len(),
            body_view(out@) == start + seq![seq![(context.heading_spec(), Tone::Heading)]]
                + Seq::new(
                i as nat,
                |k: int| entry_spec(label_spec(specs[k].label@, tier), specs[k].describes@),
            ),
        decreases bindings@.len() - i,
    {
        let key = label(&bindings[i], tier);
        let line = entry(key.as_str(), bindings[i].describes);
        let ghost before = body_view(out@);
        push_line(out, line);
        i = i + 1;
        assert(body_view(out@) =~= start + seq![seq![(context.heading_spec(), Tone::Heading)]]
            + Seq::new(
            i as nat,
            |k: int| entry_spec(label_spec(specs[k].label@, tier), specs[k].describes@),
        ));
    }
    let ghost before = body_view(out@);
    push_line(out, Vec::new());
    assert(line_view(Seq::<Segment>::empty()) =~= Seq::<(Seq<char>, Tone)>::empty());
    assert(body_view(out@) =~= start + context_section(context, tier));
}

/// The help overlay, grouped by context in the table's own order, then the
/// focused panel's own words. Generated, so it cannot drift from the footer
/// or from what the keys do.
pub fn help_lines(tier: GlyphTier, panel_menu: &Vec<&'static str>) -> (r: Vec<Vec<Segment>>)
    ensures
        body_view(r@) == help_spec(tier, Seq::new(panel_menu@.len(), |i: int| panel_menu@[i]@)),
{
    let ghost menu = Seq::new(panel_menu@.len(), |i: int| panel_menu@[i]@);
    let mut out: Vec<Vec<Segment>> = Vec::new();
    assert(body_view(out@) =~= Seq::<Seq<(Seq<char>, Tone)>>::empty());
    push_section(&mut out, Context::Global, tier);
    push_section(&mut out, Context::Focused, tier);
    push_section(&mut out, Context::Arrange, tier);
    let ghost start = body_view(out@);
    assert(start =~= context_section(Context::Global, tier) + context_section(Context::Focused, tier)
        + context_section(Context::Arrange, tier));
    if panel_menu.len() > 0 {
        let heading = vec![segment(Context::Panel.heading(), Tone::Heading)];
        assert(line_view(heading@) =~= seq![(Context::Panel.heading_spec(), Tone::Heading)]);
        push_line(&mut out, heading);
        assert(body_view(out@) =~= start + seq![seq![(Context::Panel.heading_spec(), Tone::Heading)]]
            + Seq::new(0, |k: int| entry_spec(panel_key_label_spec(menu[k], tier), menu[k])));
        let mut i: usize = 0;
        while i < panel_menu.len()
            invariant
                menu == Seq::new(panel_menu@.len(), |i: int| panel_menu@[i]@),
                i <= panel_menu@.len(),
                body_view(out@) == start + seq![seq![(Context::Panel.heading_spec(), Tone::Heading)]]
                    + Seq::new(
                    i as nat,
                    |k: int| entry_spec(panel_key_label_spec(menu[k], tier), menu[k]),
                ),
            decreases panel_menu@.len() - i,
        {
            let key = panel_key_label(panel_menu[i], tier);
            let line = entry(key.as_str(), panel_menu[i]);
            push_line(&mut out, line);
            i = i + 1;
            assert(body_view(out@) =~= start + seq![seq![(Context::Panel.heading_spec(), Tone::Heading)]]
                + Seq::new(
                i as nat,
                |k: int| entry_spec(panel_key_label_spec(menu[k], tier), menu[k]),
            ));
        }
    } else {
        assert(start =~= help_spec(tier, menu));
    }
    out
}

/// The radio mark of a choice.
pub open spec fn radio(on: bool) -> Seq<char> {
    if on {
        "(\u{2022})"@
    } else {
        "( )"@
    }
}

fn radio_text(on: bool) -> (r: String)
    ensures
        r@ == radio(on),
{
    if on {
        owned("(\u{2022})")
    } else {
        owned("( )")
    }
}

/// The export overlay: which format is chosen, the path with its caret, and
/// the keys that save and swap.
pub open spec fn export_spec(export: OverlayExportView, caret: Seq<char>) -> Seq<Seq<(Seq<char>, Tone)>> {
    let json = export.0;
    seq![
        Seq::empty(),
        seq![
            ("  format    "@, Tone::Dim),
            (radio(!json) + " text   "@, if json { Tone::Dim } else { Tone::Ink }),
            (radio(json) + " json"@, if json { Tone::Ink } else { Tone::Dim }),
        ],
        Seq::empty(),
        seq![("  path      "@, Tone::Dim), (export.1, Tone::Ink), (caret, Tone::Accent)],
        Seq::empty(),
        seq![
            ("  \u{21b5}"@, Tone::Strong),
            ("  save    "@, Tone::Ink),
            ("\u{2192}"@, Tone::Strong),
            ("  swap format"@, Tone::Ink),
        ],
    ]
}

/// The export dialog as contracts read it: the format and the path.
pub type OverlayExportView = (bool, Seq<char>);

/// The export overlay's lines.
pub fn export_lines(export: &Export, caret: &str) -> (r: Vec<Vec<Segment>>)
    ensures
        body_view(r@) == export_spec((export.json, export.path@), caret@),
{
    let mut text_choice = radio_text(!export.json);
    push_str(&mut text_choice, " text   ");
    let mut json_choice = radio_text(export.json);
    push_str(&mut json_choice, " json");
    let format = vec![
        segment("  format    ", Tone::Dim),
        Segment {
            text: text_choice,
            tone: if export.json {
                Tone::Dim
            } else {
                Tone::Ink
            },
        },
        Segment {
            text: json_choice,
            tone: if export.json {
                Tone::Ink
            } else {
                Tone::Dim
            },
        },
    ];
    let path = vec![
        segment("  path      ", Tone::Dim),
        Segment { text: export.path.clone(), tone: Tone::Ink },
        segment(caret, Tone::Accent),
    ];
    let keys = vec![
        segment("  \u{21b5}", Tone::Strong),
        segment("  save    ", Tone::Ink),
        segment("\u{2192}", Tone::Strong),
        segment("  swap format", Tone::Ink),
    ];
    let r = vec![Vec::new(), format, Vec::new(), path, Vec::new(), keys];
    proof {
        let spec = export_spec((export.json, export.path@), caret@);
        assert(line_view(r@[0]@) =~= spec[0]);
        assert(line_view(r@[1]@) =~= spec[1]);
        assert(line_view(r@[2]@) =~= spec[2]);
        assert(line_view(r@[3]@) =~= spec[3]);
        assert(line_view(r@[4]@) =~= spec[4]);
        assert(line_view(r@[5]@) =~= spec[5]);
        assert(body_view(r@) =~= spec);
    }
    r
}

/// The close confirmation: what is about to close, what is lost, and the
/// two answers.
pub open spec fn confirm_spec(panel: Seq<char>) -> Seq<Seq<(Seq<char>, Tone)>> {
    seq![
        Seq::empty(),
        seq![("  Close "@, Tone::Ink), (panel, Tone::Strong), ("?"@, Tone::Ink)],
        seq![("  Its filter and sort are not saved."@, Tone::Dim)],
        Seq::empty(),
        seq![
            ("  \u{21b5}"@, Tone::Strong),
            ("  close    "@, Tone::Ink),
            ("esc"@, Tone::Strong),
            ("  keep"@, Tone::Ink),
        ],
    ]
}

/// The close confirmation's lines.
pub fn confirm_lines(confirm: &Confirm) -> (r: Vec<Vec<Segment>>)
    ensures
        body_view(r@) == confirm_spec(confirm.panel@),
{
    let question = vec![
        segment("  Close ", Tone::Ink),
        Segment { text: confirm.panel.clone(), tone: Tone::Strong },
        segment("?", Tone::Ink),
    ];
    let loss = vec![segment("  Its filter and sort are not saved.", Tone::Dim)];
    let keys = vec![
        segment("  \u{21b5}", Tone::Strong),
        segment("  close    ", Tone::Ink),
        segment("esc", Tone::Strong),
        segment("  keep", Tone::Ink),
    ];
    let r = vec![Vec::new(), question, loss, Vec::new(), keys];
    proof {
        let spec = confirm_spec(confirm.panel@);
        assert(line_view(r@[0]@) =~= spec[0]);
        assert(line_view(r@[1]@) =~= spec[1]);
        assert(line_view(r@[2]@) =~= spec[2]);
        assert(line_view(r@[3]@) =~= spec[3]);
        assert(line_view(r@[4]@) =~= spec[4]);
        assert(body_view(r@) =~= spec);
    }
    r
}

/// The panel pick: every name it is handed, the selected one marked the way
/// the export overlay marks its chosen format, then the keys.
pub open spec fn catalogue_spec(selected: usize, names: Seq<Seq<char>>) -> Seq<Seq<(Seq<char>, Tone)>> {
    seq![Seq::empty()] + Seq::new(
        names.len(),
        |i: int|
            seq![
                (
                    "  "@ + radio(i == selected) + " "@ + names[i],
                    if i == selected {
                        Tone::Strong
                    } else {
                        Tone::Ink
                    },
                ),
            ],
    ) + seq![
        Seq::empty(),
        seq![
            ("  \u{21b5}"@, Tone::Strong),
            ("  add    "@, Tone::Ink),
            ("j k"@, Tone::Strong),
            ("  move"@, Tone::Ink),
        ],
    ]
}

/// The panel pick's lines.
pub fn catalogue_lines(catalogue: &Catalogue, names: &Vec<&'static str>) -> (r: Vec<Vec<Segment>>)
    ensures
        body_view(r@) == catalogue_spec(
            catalogue.selected,
            Seq::new(names@.len(), |i: int| names@[i]@),
        ),
{
    let ghost words = Seq::new(names@.len(), |i: int| names@[i]@);
    let mut out: Vec<Vec<Segment>> = Vec::new();
    push_line(&mut out, Vec::new());
    assert(line_view(Seq::<Segment>::empty()) =~= Seq::<(Seq<char>, Tone)>::empty());
    let ghost start = body_view(out@);
    assert(start =~= seq![Seq::<(Seq<char>, Tone)>::empty()]);
    let mut i: usize = 0;
    while i < names.len()
        invariant
            words == Seq::new(names@.len(), |i: int| names@[i]@),
            i <= names@.len(),
            start == seq![Seq::<(Seq<char>, Tone)>::empty()],
            body_view(out@) == start + Seq::new(
                i as nat,
                |k: int|
                    seq![
                        (
                            "  "@ + radio(k == catalogue.selected) + " "@ + words[k],
                            if k == catalogue.selected {
                                Tone::Strong
                            } else {
                                Tone::Ink
                            },
                        ),
                    ],
            ),
        decreases names@.len() - i,
    {
        let chosen = i == catalogue.selected;
        let mut text = owned("  ");
        push_str(&mut text, radio_text(chosen).as_str());
        push_str(&mut text, " ");
        push_str(&mut text, names[i]);
        assert(text@ == "  "@ + radio(i == catalogue.selected) + " "@ + words[i as int]);
        let line = vec![
            Segment {
                text,
                tone: if chosen {
                    Tone::Strong
                } else {
                    Tone::Ink
                },
            },
        ];
        proof {
            assert(line_view(line@) =~= seq![
                (
                    "  "@ + radio(i == catalogue.selected) + " "@ + words[i as int],
                    if i == catalogue.selected {
                        Tone::Strong
                    } else {
                        Tone::Ink
                    },
                ),
            ]);
        }
        push_line(&mut out, line);
        i = i + 1;
        assert(body_view(out@) =~= start + Seq::new(
            i as nat,
            |k: int|
                seq![
                    (
                        "  "@ + radio(k == catalogue.selected) + " "@ + words[k],
                        if k == catalogue.selected {
                            Tone::Strong
                        } else {
                            Tone::Ink
                        },
                    ),
                ],
        ));
    }
    let ghost middle = body_view(out@);
    push_line(&mut out, Vec::new());
    let keys = vec![
        segment("  \u{21b5}", Tone::Strong),
        segment("  add    ", Tone::Ink),
        segment("j k", Tone::Strong),
        segment("  move", Tone::Ink),
    ];
    push_line(&mut out, keys);
    proof {
        assert(line_view(keys@) =~= seq![
            ("  \u{21b5}"@, Tone::Strong),
            ("  add    "@, Tone::Ink),
            ("j k"@, Tone::Strong),
            ("  move"@, Tone::Ink),
        ]);
        assert(body_view(out@) =~= catalogue_spec(catalogue.selected, words));
    }
    out
}

} // verus!
