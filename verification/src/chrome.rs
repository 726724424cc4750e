//! The strip along the bottom of the analyze surface. Nothing in it is
//! written by hand: it is generated from the key table, which is what keeps
//! it from drifting from the help overlay and from what the keys do.

use vstd::prelude::*;
use crate::caps::GlyphTier;
use crate::glyphs::{address_spec, Glyphs};
use crate::layout::Placement;
use crate::keymap::{
    footer, footer_spec, in_context, label, label_spec, pair_views, panel_key_label,
    panel_key_label_spec, rows, short, short_spec, table_spec, word_views, Context,
};
use crate::lines::{line_view, segment, Segment, Tone};
use crate::text::{decimal, owned, push_char, push_decimal, push_str};

verus! {

/// One key in the strip: its label in the accent, then the first word of
/// what it does.
pub open spec fn strip_entry(key: Seq<char>, describes: Seq<char>) -> Seq<(Seq<char>, Tone)> {
    seq![(key, Tone::Strong), (seq![' '] + short_spec(describes) + seq![' ', ' '], Tone::Ink)]
}

/// The entries for a list of keys and what they do, in order.
pub open spec fn strip_entries(pairs: Seq<(Seq<char>, Seq<char>)>) -> Seq<(Seq<char>, Tone)>
    decreases pairs.len(),
{
    if pairs.len() == 0 {
        Seq::empty()
    } else {
        strip_entries(pairs.drop_last()) + strip_entry(pairs.last().0, pairs.last().1)
    }
}

/// The arrange keys as the strip lists them.
pub open spec fn arrange_pairs(tier: GlyphTier) -> Seq<(Seq<char>, Seq<char>)> {
    let shown = in_context(table_spec(), Context::Arrange);
    Seq::new(shown.len(), |i: int| (label_spec(shown[i].label@, tier), shown[i].describes@))
}

/// The left half of the strip: while arranging, the mode's name and its
/// keys; otherwise the footer's keys, the focused panel's own last.
pub open spec fn strip_spec(menu: Seq<Seq<char>>, tier: GlyphTier, arranging: bool) -> Seq<
    (Seq<char>, Tone),
> {
    if arranging {
        seq![("ARRANGE  "@, Tone::Strong)] + strip_entries(arrange_pairs(tier))
    } else {
        strip_entries(footer_spec(menu, tier))
    }
}

fn push_entry(out: &mut Vec<Segment>, key: String, describes: &str)
    ensures
        line_view(final(out)@) == line_view(old(out)@) + strip_entry(key@, describes@),
{
    let ghost before = line_view(out@);
    let ghost k = key@;
    let mut text = owned(" ");
    let word = short(describes);
    push_str(&mut text, word.as_str());
    push_str(&mut text, "  ");
    proof {
        reveal_strlit(" ");
        reveal_strlit("  ");
    }
    assert(text@ =~= seq![' '] + short_spec(describes@) + seq![' ', ' ']);
    out.push(Segment { text: key, tone: Tone::Strong });
    out.push(Segment { text, tone: Tone::Ink });
    assert(line_view(out@) =~~= before + strip_entry(k, describes@));
}

/// The keys the strip shows, with the first word of what each does: the
/// arrange keys under the mode's name while arranging, and otherwise the
/// footer's keys with the focused panel's own last.
pub fn strip(panel_menu: &Vec<&'static str>, tier: GlyphTier, arranging: bool) -> (r: Vec<Segment>)
    ensures
        line_view(r@) == strip_spec(word_views(panel_menu@), tier, arranging),
{
    let mut out: Vec<Segment> = Vec::new();
    if arranging {
        out.push(segment("ARRANGE  ", Tone::Strong));
        let keys = rows(Context::Arrange);
        let ghost pairs = arrange_pairs(tier);
        let mut i: usize = 0;
        while i < keys.len()
            invariant
                keys@ == in_context(table_spec(), Context::Arrange),
                pairs == arrange_pairs(tier),
                i <= keys@.len(),
                line_view(out@) == seq![("ARRANGE  "@, Tone::Strong)] + strip_entries(
                    pairs.take(i as int),
                ),
            decreases keys@.len() - i,
        {
            let key = label(&keys[i], tier);
            push_entry(&mut out, key, keys[i].describes);
            assert(pairs.take(i + 1).drop_last() =~= pairs.take(i as int));
            i = i + 1;
        }
        assert(pairs.take(i as int) =~= pairs);
    } else {
        let shown = footer(panel_menu, tier);
        let ghost pairs = footer_spec(word_views(panel_menu@), tier);
        let mut i: usize = 0;
        while i < shown.len()
            invariant
                pair_views(shown@) == pairs,
                i <= shown@.len(),
                line_view(out@) == strip_entries(pairs.take(i as int)),
            decreases shown@.len() - i,
        {
            assert(pairs[i as int] == (shown@[i as int].0@, shown@[i as int].1@));
            let key = shown[i].0.clone();
            push_entry(&mut out, key, shown[i].1.as_str());
            assert(pairs.take(i + 1).drop_last() =~= pairs.take(i as int));
            i = i + 1;
        }
        assert(pairs.take(i as int) =~= pairs);
    }
    out
}

/// The right half of the strip: the error and warning counts, each behind
/// its mark.
pub open spec fn tally_spec(errors: nat, warnings: nat, cross: Seq<char>, warn: Seq<char>) -> Seq<
    (Seq<char>, Tone),
> {
    seq![
        (cross + seq![' '] + decimal(errors) + seq![' ', ' '], Tone::Fault),
        (warn + seq![' '] + decimal(warnings) + seq![' '], Tone::Caution),
    ]
}

/// How many errors and warnings the report holds, as the strip's right
/// half shows them.
pub fn tally(errors: u64, warnings: u64, glyphs: &Glyphs) -> (r: Vec<Segment>)
    ensures
        line_view(r@) == tally_spec(errors as nat, warnings as nat, glyphs.cross@, glyphs.warn@),
{
    let mut first = owned(glyphs.cross);
    push_char(&mut first, ' ');
    push_decimal(&mut first, errors);
    push_char(&mut first, ' ');
    push_char(&mut first, ' ');
    let mut second = owned(glyphs.warn);
    push_char(&mut second, ' ');
    push_decimal(&mut second, warnings);
    push_char(&mut second, ' ');
    assert(first@ =~= glyphs.cross@ + seq![' '] + decimal(errors as nat) + seq![' ', ' ']);
    assert(second@ =~= glyphs.warn@ + seq![' '] + decimal(warnings as nat) + seq![' ']);
    let r = vec![Segment { text: first, tone: Tone::Fault }, Segment { text: second, tone: Tone::Caution }];
    assert(line_view(r@) =~~= tally_spec(errors as nat, warnings as nat, glyphs.cross@, glyphs.warn@));
    r
}

/// The tones a panel's border is drawn in: the warning colour while
/// arranging, the accent on the focused panel, and the secondary tone on
/// the rest; the name in the bold form of each.
pub open spec fn border_tones(focused: bool, arranging: bool) -> (Tone, Tone) {
    if arranging {
        (Tone::Caution, Tone::Warning)
    } else if focused {
        (Tone::Accent, Tone::Strong)
    } else {
        (Tone::Dim, Tone::Heading)
    }
}

/// The menu words in a focused border, each behind its key.
pub open spec fn menu_entries(menu: Seq<Seq<char>>, tier: GlyphTier) -> Seq<(Seq<char>, Tone)> {
    Seq::new(
        menu.len(),
        |i: int| (seq![' '] + panel_key_label_spec(menu[i], tier) + seq![' '] + menu[i] + seq![' '], Tone::Strong),
    )
}

/// A panel's top border: its jump address and its name; on the focused
/// panel, then either the query being typed behind a slash with the caret
/// after it, or the panel's own words behind their keys.
pub open spec fn title_spec(
    p: Placement,
    menu: Seq<Seq<char>>,
    filtering: Option<Seq<char>>,
    tier: GlyphTier,
    caret: Seq<char>,
    arranging: bool,
) -> Seq<(Seq<char>, Tone)> {
    let tones = border_tones(p.focused, arranging);
    let head = seq![(address_spec(tier, p.address), tones.0), (p.panel.name_spec(), tones.1)];
    if !p.focused {
        head
    } else {
        match filtering {
            Some(q) => head + seq![
                (" / "@, Tone::Accent),
                (q, Tone::Ink),
                (caret, Tone::Accent),
                (" "@, Tone::Ink),
            ],
            None => head + menu_entries(menu, tier),
        }
    }
}

/// What a panel's top border says.
pub fn border_title(
    placement: &Placement,
    menu: &Vec<&'static str>,
    filtering: &Option<String>,
    glyphs: &Glyphs,
    arranging: bool,
) -> (r: Vec<Segment>)
    ensures
        line_view(r@) == title_spec(
            *placement,
            word_views(menu@),
            match filtering {
                Some(q) => Some(q@),
                None => None,
            },
            glyphs.tier,
            glyphs.caret@,
            arranging,
        ),
{
    let (mark, name) = if arranging {
        (Tone::Caution, Tone::Warning)
    } else if placement.focused {
        (Tone::Accent, Tone::Strong)
    } else {
        (Tone::Dim, Tone::Heading)
    };
    let mut out: Vec<Segment> = Vec::new();
    out.push(Segment { text: glyphs.address(placement.address), tone: mark });
    out.push(segment(placement.panel.name(), name));
    let ghost head = line_view(out@);
    let ghost words = word_views(menu@);
    if placement.focused {
        match filtering {
            Some(q) => {
                out.push(segment(" / ", Tone::Accent));
                out.push(Segment { text: q.clone(), tone: Tone::Ink });
                out.push(segment(glyphs.caret, Tone::Accent));
                out.push(segment(" ", Tone::Ink));
            },
            None => {
                let mut i: usize = 0;
                while i < menu.len()
                    invariant
                        i <= menu@.len(),
                        words == word_views(menu@),
                        line_view(out@) == head + menu_entries(words, glyphs.tier).take(i as int),
                    decreases menu@.len() - i,
                {
                    let mut text = owned(" ");
                    let key = panel_key_label(menu[i], glyphs.tier);
                    push_str(&mut text, key.as_str());
                    push_char(&mut text, ' ');
                    push_str(&mut text, menu[i]);
                    push_char(&mut text, ' ');
                    proof {
                        reveal_strlit(" ");
                    }
                    assert(text@ =~= seq![' '] + panel_key_label_spec(words[i as int], glyphs.tier)
                        + seq![' '] + words[i as int] + seq![' ']);
                    let ghost before = line_view(out@);
                    out.push(Segment { text, tone: Tone::Strong });
                    assert(line_view(out@) =~~= before.push(menu_entries(words, glyphs.tier)[i as int]));
                    assert(menu_entries(words, glyphs.tier).take(i + 1) =~= menu_entries(
                        words,
                        glyphs.tier,
                    ).take(i as int).push(menu_entries(words, glyphs.tier)[i as int]));
                    i = i + 1;
                }
                assert(menu_entries(words, glyphs.tier).take(i as int) =~= menu_entries(
                    words,
                    glyphs.tier,
                ));
            },
        }
    }
    assert(line_view(out@) =~~= title_spec(
        *placement,
        words,
        match filtering {
            Some(q) => Some(q@),
            None => None,
        },
        glyphs.tier,
        glyphs.caret@,
        arranging,
    ));
    out
}

/// A panel's bottom border, on the focused panel only: a notice, in the
/// error colour; otherwise, while a filter is typed, how many rows it
/// leaves of how many; otherwise the panel's status. The notice is drawn
/// centred and the others to the right.
pub open spec fn bottom_spec(
    focused: bool,
    notice: Option<Seq<char>>,
    filtering: bool,
    counts: Option<(usize, usize)>,
    status: Option<Seq<char>>,
) -> Option<(Seq<char>, Tone)> {
    if !focused {
        None
    } else if notice is Some {
        Some((seq![' '] + notice.unwrap() + seq![' '], Tone::Fault))
    } else if filtering && counts is Some {
        Some(
            (
                seq![' '] + decimal(counts.unwrap().0 as nat) + " of "@ + decimal(counts.unwrap().1 as nat)
                    + " shown  esc clears "@,
                Tone::Dim,
            ),
        )
    } else if status is Some {
        Some((seq![' '] + status.unwrap() + seq![' '], Tone::Dim))
    } else {
        None
    }
}

/// What a panel's bottom border says, if anything.
pub fn border_bottom(
    focused: bool,
    notice: &Option<String>,
    filtering: bool,
    counts: Option<(usize, usize)>,
    status: &Option<String>,
) -> (r: Option<Segment>)
    ensures
        match r {
            Some(seg) => bottom_spec(
                focused,
                match notice {
                    Some(n) => Some(n@),
                    None => None,
                },
                filtering,
                counts,
                match status {
                    Some(t) => Some(t@),
                    None => None,
                },
            ) == Some(seg@),
            None => bottom_spec(
                focused,
                match notice {
                    Some(n) => Some(n@),
                    None => None,
                },
                filtering,
                counts,
                match status {
                    Some(t) => Some(t@),
                    None => None,
                },
            ) is None,
        },
{
    if !focused {
        return None;
    }
    proof {
        reveal_strlit(" ");
    }
    if let Some(n) = notice {
        let mut text = owned(" ");
        push_str(&mut text, n.as_str());
        push_char(&mut text, ' ');
        return Some(Segment { text, tone: Tone::Fault });
    }
    if filtering {
        if let Some((shown, total)) = counts {
            let mut text = owned(" ");
            push_decimal(&mut text, shown as u64);
            push_str(&mut text, " of ");
            push_decimal(&mut text, total as u64);
            push_str(&mut text, " shown  esc clears ");
            assert(text@ =~= seq![' '] + decimal(shown as nat) + " of "@ + decimal(total as nat)
                + " shown  esc clears "@);
            return Some(Segment { text, tone: Tone::Dim });
        }
    }
    if let Some(t) = status {
        let mut text = owned(" ");
        push_str(&mut text, t.as_str());
        push_char(&mut text, ' ');
        return Some(Segment { text, tone: Tone::Dim });
    }
    None
}

} // verus!
