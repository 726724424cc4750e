//! The glyph repertoire a tier draws with.
//!
//! Every glyph a surface draws comes from here, so a terminal that cannot
//! show the Unicode set gets an ASCII stand-in for each of them rather than a
//! mixture. The frame of a panel is the drawing side's, because it is handed
//! straight to the widget that draws it.

use vstd::prelude::*;
use crate::caps::GlyphTier;
use crate::text::{decimal, owned, push_char, push_decimal};
use crate::lines::{segment, Segment, Tone};

verus! {

/// How the rasteriser encodes a dot grid.
#[derive(Debug, Clone, Copy, PartialEq, Eq, Structural)]
pub enum PlotStyle {
    /// Braille, two dots across and four down per cell.
    Braille,
    /// One cell per sample, density carried by the ASCII ramp.
    Ascii,
}

/// The marks a surface draws with at one tier.
#[derive(Debug, Clone, Copy, PartialEq, Eq)]
pub struct Glyphs {
    /// The tier this repertoire was selected for.
    pub tier: GlyphTier,
    /// The mark beside the product name.
    pub sun: &'static str,
    /// An attribute is complete.
    pub check: &'static str,
    /// An attribute is absent.
    pub cross: &'static str,
    /// An attribute is partial, or a count disagrees.
    pub warn: &'static str,
    /// The cursor in a text entry.
    pub caret: &'static str,
    pub scroll_up: &'static str,
    pub scroll_down: &'static str,
    /// Separates inline items on one row.
    pub divider: &'static str,
    /// How a spatial plot is drawn at this tier.
    pub plot: PlotStyle,
}

/// The shading ramp at a tier, lightest first: five rungs, because the shade
/// characters are the only ones that read as a continuous ramp.
pub open spec fn ramp_spec(tier: GlyphTier) -> Seq<char> {
    match tier {
        GlyphTier::Unicode => seq![' ', '\u{2591}', '\u{2592}', '\u{2593}', '\u{2588}'],
        GlyphTier::Ascii => seq![' ', '.', ':', '*', '#'],
    }
}

/// The rung a fraction `part / whole` of one lands on: the nearest of the
/// five, a half rounding up, and anything past one on the last.
pub open spec fn rung_spec(part: nat, whole: nat) -> nat
    recommends
        whole > 0,
{
    let p = if part > whole {
        whole
    } else {
        part
    };
    let step = (8 * p + whole) / (2 * whole);
    if step > 4 {
        4
    } else {
        step
    }
}

impl Glyphs {
    /// The repertoire for a tier.
    pub fn for_tier(tier: GlyphTier) -> (r: Glyphs)
        ensures
            r.tier == tier,
            tier == GlyphTier::Unicode ==> {
                &&& r.sun@ == seq!['\u{2600}']
                &&& r.check@ == seq!['\u{2713}']
                &&& r.cross@ == seq!['\u{2717}']
                &&& r.warn@ == seq!['\u{26a0}']
                &&& r.caret@ == seq!['\u{2588}']
                &&& r.scroll_up@ == seq!['\u{2191}']
                &&& r.scroll_down@ == seq!['\u{2193}']
                &&& r.divider@ == seq!['\u{2502}']
                &&& r.plot == PlotStyle::Braille
            },
            tier == GlyphTier::Ascii ==> {
                &&& r.sun@ == seq!['*']
                &&& r.check@ == seq!['v']
                &&& r.cross@ == seq!['X']
                &&& r.warn@ == seq!['!']
                &&& r.caret@ == seq!['_']
                &&& r.scroll_up@ == seq!['^']
                &&& r.scroll_down@ == seq!['v']
                &&& r.divider@ == seq!['|']
                &&& r.plot == PlotStyle::Ascii
            },
    {
        proof {
            reveal_strlit("\u{2600}");
            reveal_strlit("\u{2713}");
            reveal_strlit("\u{2717}");
            reveal_strlit("\u{26a0}");
            reveal_strlit("\u{2588}");
            reveal_strlit("\u{2191}");
            reveal_strlit("\u{2193}");
            reveal_strlit("\u{2502}");
            reveal_strlit("*");
            reveal_strlit("v");
            reveal_strlit("X");
            reveal_strlit("!");
            reveal_strlit("_");
            reveal_strlit("^");
            reveal_strlit("|");
        }
        match tier {
            GlyphTier::Unicode => Glyphs {
                tier,
                sun: "\u{2600}",
                check: "\u{2713}",
                cross: "\u{2717}",
                warn: "\u{26a0}",
                caret: "\u{2588}",
                scroll_up: "\u{2191}",
                scroll_down: "\u{2193}",
                divider: "\u{2502}",
                plot: PlotStyle::Braille,
            },
            GlyphTier::Ascii => Glyphs {
                tier,
                sun: "*",
                check: "v",
                cross: "X",
                warn: "!",
                caret: "_",
                scroll_up: "^",
                scroll_down: "v",
                divider: "|",
                plot: PlotStyle::Ascii,
            },
        }
    }

    /// Whether something is there, as a table cell marks it: the check in
    /// the success colour, or the cross in the error colour.
    pub fn mark(&self, present: bool) -> (r: Segment)
        ensures
            r@ == (if present {
                (self.check@, Tone::Sound)
            } else {
                (self.cross@, Tone::Fault)
            }),
    {
        if present {
            segment(self.check, Tone::Sound)
        } else {
            segment(self.cross, Tone::Fault)
        }
    }

    /// The shading ramp at this tier, lightest first.
    pub fn density(&self) -> (r: Vec<char>)
        ensures
            r@ == ramp_spec(self.tier),
    {
        let r = match self.tier {
            GlyphTier::Unicode => vec![' ', '\u{2591}', '\u{2592}', '\u{2593}', '\u{2588}'],
            GlyphTier::Ascii => vec![' ', '.', ':', '*', '#'],
        };
        assert(r@ =~= ramp_spec(self.tier));
        r
    }

    /// The rung a fraction `part / whole` of one lands on, clamped to the
    /// ramp. The fraction is held as the two counts it is made of, so a
    /// half between two rungs rounds up exactly rather than by however a
    /// float rounds it.
    pub fn shade(&self, part: u64, whole: u64) -> (r: char)
        requires
            whole > 0,
            whole <= u32::MAX,
        ensures
            r == ramp_spec(self.tier)[rung_spec(part as nat, whole as nat) as int],
    {
        let ramp = self.density();
        let p = if part > whole {
            whole
        } else {
            part
        };
        let step = (8 * p + whole) / (2 * whole);
        let step = if step > 4 {
            4
        } else {
            step
        };
        ramp[step as usize]
    }

    /// A panel's jump address as it appears in the top border: a
    /// superscript digit at the Unicode tier, a bracketed number otherwise
    /// and past nine.
    pub fn address(&self, number: u8) -> (r: String)
        ensures
            r@ == address_spec(self.tier, number),
    {
        if self.tier == GlyphTier::Unicode && 1 <= number && number <= 9 {
            let mark = match number {
                1 => '\u{b9}',
                2 => '\u{b2}',
                3 => '\u{b3}',
                4 => '\u{2074}',
                5 => '\u{2075}',
                6 => '\u{2076}',
                7 => '\u{2077}',
                8 => '\u{2078}',
                _ => '\u{2079}',
            };
            let mut r = String::new();
            push_char(&mut r, mark);
            assert(r@ =~= address_spec(self.tier, number));
            r
        } else {
            let mut r = owned("[");
            push_decimal(&mut r, number as u64);
            push_char(&mut r, ']');
            proof {
                reveal_strlit("[");
            }
            assert(r@ =~= address_spec(self.tier, number));
            r
        }
    }
}

/// The superscript for each of the nine addresses.
pub open spec fn superscript(number: u8) -> char {
    match number {
        1 => '\u{b9}',
        2 => '\u{b2}',
        3 => '\u{b3}',
        4 => '\u{2074}',
        5 => '\u{2075}',
        6 => '\u{2076}',
        7 => '\u{2077}',
        8 => '\u{2078}',
        _ => '\u{2079}',
    }
}

pub open spec fn address_spec(tier: GlyphTier, number: u8) -> Seq<char> {
    if tier == GlyphTier::Unicode && 1 <= number <= 9 {
        seq![superscript(number)]
    } else {
        seq!['['] + decimal(number as nat) + seq![']']
    }
}

/// The ramp runs from its first rung to its last: nothing is the empty
/// rung, a whole is the full one, and a larger fraction never lands on a
/// lighter rung than a smaller one.
pub proof fn law_rungs_span_the_ramp(a: nat, b: nat, whole: nat)
    requires
        whole > 0,
        a <= b,
    ensures
        rung_spec(0, whole) == 0,
        rung_spec(whole, whole) == 4,
        rung_spec(a, whole) <= rung_spec(b, whole),
        rung_spec(b, whole) <= 4,
{
    assert((8 * 0 + whole) / (2 * whole) == 0) by (nonlinear_arith)
        requires
            whole > 0,
    ;
    assert((8 * whole + whole) / (2 * whole) == 4) by (nonlinear_arith)
        requires
            whole > 0,
    ;
    let pa = if a > whole {
        whole
    } else {
        a
    };
    let pb = if b > whole {
        whole
    } else {
        b
    };
    assert(pa <= pb);
    assert((8 * pa + whole) / (2 * whole) <= (8 * pb + whole) / (2 * whole)) by (nonlinear_arith)
        requires
            whole > 0,
            pa <= pb,
    ;
}

} // verus!
