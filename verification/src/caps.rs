//! What the terminal can actually do, and how to degrade when it cannot.
//!
//! Two independent axes. Colour resolves to one of four tiers and glyphs to
//! one of two. `SOLARXY_COLOR` is the escape hatch when a theme misbehaves on
//! a terminal nobody tested, so an unrecognised value falls through to
//! detection rather than failing.

use vstd::prelude::*;
use crate::text::{
    chars_of, contains_chars, contains_seq, lower_all, lower_chars, same_chars, trim, trim_spec,
};

verus! {

/// How much colour the terminal is believed to render.
#[derive(Debug, Clone, Copy, PartialEq, Eq, Structural)]
pub enum ColorTier {
    /// No colour at all.
    Mono,
    /// Terminal ink, named greys for chrome, the palette's semantic hues, and
    /// no painted ground.
    Ansi16,
    /// The theme quantised onto the 256-colour cube.
    Ansi256,
    /// The theme as authored.
    TrueColor,
}

/// Which glyph repertoire may be drawn.
#[derive(Debug, Clone, Copy, PartialEq, Eq, Structural)]
pub enum GlyphTier {
    /// Box drawing, braille, and the full glyph set.
    Unicode,
    /// Every glyph has an ASCII stand-in.
    Ascii,
}

/// The resolved capabilities of the terminal this run is drawing into.
#[derive(Debug, Clone, Copy, PartialEq, Eq, Structural)]
pub struct Capabilities {
    pub color: ColorTier,
    pub glyphs: GlyphTier,
}

impl Default for Capabilities {
    /// The floor on both axes, which is always safe to draw.
    fn default() -> (r: Capabilities)
        ensures
            r.color == ColorTier::Ansi16,
            r.glyphs == GlyphTier::Unicode,
    {
        Capabilities { color: ColorTier::Ansi16, glyphs: GlyphTier::Unicode }
    }
}

/// The variables detection reads, each as the environment holds it.
#[derive(Debug, PartialEq, Eq)]
pub struct Environment {
    /// `SOLARXY_COLOR`: selects a colour tier ahead of every other signal.
    pub solarxy_color: Option<String>,
    /// `SOLARXY_ASCII`: forces the ASCII glyph tier (`1`) or Unicode (`0`).
    pub solarxy_ascii: Option<String>,
    pub no_color: Option<String>,
    pub term: Option<String>,
    pub colorterm: Option<String>,
    pub lc_all: Option<String>,
    pub lc_ctype: Option<String>,
    pub lang: Option<String>,
}

/// The text of a variable, if it is set.
pub open spec fn var(v: Option<String>) -> Option<Seq<char>> {
    match v {
        Some(s) => Some(s@),
        None => None,
    }
}

/// An override's value the way it is compared: trimmed and lower case.
pub open spec fn folded(s: Seq<char>) -> Seq<char> {
    lower_all(trim_spec(s))
}

/// The tier a colour override names, if it names one.
pub open spec fn color_choice(v: Seq<char>) -> Option<ColorTier> {
    if v == "mono"@ || v == "0"@ {
        Some(ColorTier::Mono)
    } else if v == "16"@ {
        Some(ColorTier::Ansi16)
    } else if v == "256"@ {
        Some(ColorTier::Ansi256)
    } else if v == "truecolor"@ || v == "24bit"@ {
        Some(ColorTier::TrueColor)
    } else {
        None
    }
}

/// The tier a glyph override names, if it names one.
pub open spec fn glyph_choice(v: Seq<char>) -> Option<GlyphTier> {
    if v == "1"@ || v == "true"@ || v == "yes"@ {
        Some(GlyphTier::Ascii)
    } else if v == "0"@ || v == "false"@ || v == "no"@ {
        Some(GlyphTier::Unicode)
    } else {
        None
    }
}

/// A dumb terminal constrains both axes.
pub open spec fn is_dumb(env: Environment) -> bool {
    var(env.term) matches Some(t) && trim_spec(t) == "dumb"@
}

/// Colour detection, in order: the explicit override, the no-colour
/// convention, a dumb terminal, the truecolour hint, the terminal name, then
/// the 16-colour fallback.
pub open spec fn color_spec(env: Environment) -> ColorTier {
    let forced = match var(env.solarxy_color) {
        Some(raw) => color_choice(folded(raw)),
        None => None,
    };
    if forced is Some {
        forced.unwrap()
    } else if var(env.no_color) matches Some(v) && v.len() > 0 {
        ColorTier::Mono
    } else if is_dumb(env) {
        ColorTier::Mono
    } else if var(env.colorterm) matches Some(v) && (trim_spec(v) == "truecolor"@ || trim_spec(v)
        == "24bit"@) {
        ColorTier::TrueColor
    } else if var(env.term) matches Some(v) && contains_seq(v, "256color"@) {
        ColorTier::Ansi256
    } else {
        ColorTier::Ansi16
    }
}

/// Whether a locale names a UTF-8 character set.
pub open spec fn locale_is_utf8(v: Seq<char>) -> bool {
    contains_seq(lower_all(v), "utf-8"@) || contains_seq(lower_all(v), "utf8"@)
}

/// The glyph tier the first locale variable that is set and not empty
/// selects, if any is.
pub open spec fn locale_spec(env: Environment) -> Option<GlyphTier> {
    if var(env.lc_all) matches Some(v) && v.len() > 0 {
        Some(locale_tier(var(env.lc_all).unwrap()))
    } else if var(env.lc_ctype) matches Some(v) && v.len() > 0 {
        Some(locale_tier(var(env.lc_ctype).unwrap()))
    } else if var(env.lang) matches Some(v) && v.len() > 0 {
        Some(locale_tier(var(env.lang).unwrap()))
    } else {
        None
    }
}

/// The glyph tier a locale selects.
pub open spec fn locale_tier(v: Seq<char>) -> GlyphTier {
    if locale_is_utf8(v) {
        GlyphTier::Unicode
    } else {
        GlyphTier::Ascii
    }
}

/// Glyph detection: the explicit override, a dumb terminal, then the first
/// locale variable that is set; with none set, Unicode.
pub open spec fn glyphs_spec(env: Environment) -> GlyphTier {
    let forced = match var(env.solarxy_ascii) {
        Some(raw) => glyph_choice(folded(raw)),
        None => None,
    };
    if forced is Some {
        forced.unwrap()
    } else if is_dumb(env) {
        GlyphTier::Ascii
    } else if locale_spec(env) is Some {
        locale_spec(env).unwrap()
    } else {
        GlyphTier::Unicode
    }
}

/// The characters of a set variable.
fn text_of(v: &Option<String>) -> (r: Option<Vec<char>>)
    ensures
        match (r, var(*v)) {
            (Some(a), Some(b)) => a@ == b,
            (None, None) => true,
            _ => false,
        },
{
    match v {
        Some(s) => Some(chars_of(s.as_str())),
        None => None,
    }
}

fn is_word(v: &Vec<char>, word: &str) -> (b: bool)
    ensures
        b == (v@ == word@),
{
    same_chars(v, &chars_of(word))
}

fn color_choice_exec(v: &Vec<char>) -> (r: Option<ColorTier>)
    ensures
        r == color_choice(v@),
{
    if is_word(v, "mono") || is_word(v, "0") {
        Some(ColorTier::Mono)
    } else if is_word(v, "16") {
        Some(ColorTier::Ansi16)
    } else if is_word(v, "256") {
        Some(ColorTier::Ansi256)
    } else if is_word(v, "truecolor") || is_word(v, "24bit") {
        Some(ColorTier::TrueColor)
    } else {
        None
    }
}

fn glyph_choice_exec(v: &Vec<char>) -> (r: Option<GlyphTier>)
    ensures
        r == glyph_choice(v@),
{
    if is_word(v, "1") || is_word(v, "true") || is_word(v, "yes") {
        Some(GlyphTier::Ascii)
    } else if is_word(v, "0") || is_word(v, "false") || is_word(v, "no") {
        Some(GlyphTier::Unicode)
    } else {
        None
    }
}

fn dumb_exec(env: &Environment) -> (b: bool)
    ensures
        b == is_dumb(*env),
{
    match text_of(&env.term) {
        Some(t) => is_word(&trim(&t), "dumb"),
        None => false,
    }
}

fn resolve_color(env: &Environment, dumb: bool) -> (r: ColorTier)
    requires
        dumb == is_dumb(*env),
    ensures
        r == color_spec(*env),
{
    match text_of(&env.solarxy_color) {
        Some(raw) => {
            let value = lower_chars(&trim(&raw));
            match color_choice_exec(&value) {
                Some(tier) => {
                    return tier;
                },
                None => {},
            }
        },
        None => {},
    }
    match text_of(&env.no_color) {
        Some(v) => {
            if v.len() > 0 {
                return ColorTier::Mono;
            }
        },
        None => {},
    }
    if dumb {
        return ColorTier::Mono;
    }
    match text_of(&env.colorterm) {
        Some(v) => {
            let t = trim(&v);
            if is_word(&t, "truecolor") || is_word(&t, "24bit") {
                return ColorTier::TrueColor;
            }
        },
        None => {},
    }
    match text_of(&env.term) {
        Some(v) => {
            if contains_chars(&v, &chars_of("256color")) {
                return ColorTier::Ansi256;
            }
        },
        None => {},
    }
    ColorTier::Ansi16
}

fn locale_pick(v: &Vec<char>) -> (r: GlyphTier)
    ensures
        r == locale_tier(v@),
{
    let low = lower_chars(v);
    if contains_chars(&low, &chars_of("utf-8")) || contains_chars(&low, &chars_of("utf8")) {
        GlyphTier::Unicode
    } else {
        GlyphTier::Ascii
    }
}

fn resolve_glyphs(env: &Environment, dumb: bool) -> (r: GlyphTier)
    requires
        dumb == is_dumb(*env),
    ensures
        r == glyphs_spec(*env),
{
    match text_of(&env.solarxy_ascii) {
        Some(raw) => {
            let value = lower_chars(&trim(&raw));
            match glyph_choice_exec(&value) {
                Some(tier) => {
                    return tier;
                },
                None => {},
            }
        },
        None => {},
    }
    if dumb {
        return GlyphTier::Ascii;
    }
    match text_of(&env.lc_all) {
        Some(v) => {
            if v.len() > 0 {
                return locale_pick(&v);
            }
        },
        None => {},
    }
    match text_of(&env.lc_ctype) {
        Some(v) => {
            if v.len() > 0 {
                return locale_pick(&v);
            }
        },
        None => {},
    }
    match text_of(&env.lang) {
        Some(v) => {
            if v.len() > 0 {
                return locale_pick(&v);
            }
        },
        None => {},
    }
    GlyphTier::Unicode
}

impl Capabilities {
    /// The glyph repertoire this terminal's tier draws with.
    pub fn glyphs(&self) -> (r: crate::glyphs::Glyphs)
        ensures
            r.tier == self.glyphs,
    {
        crate::glyphs::Glyphs::for_tier(self.glyphs)
    }

    /// Resolve from an environment. A pure function of the values read, so a
    /// table of cases can be tested without touching the process environment.
    pub fn from_env(env: &Environment) -> (r: Capabilities)
        ensures
            r.color == color_spec(*env),
            r.glyphs == glyphs_spec(*env),
    {
        let dumb = dumb_exec(env);
        Capabilities { color: resolve_color(env, dumb), glyphs: resolve_glyphs(env, dumb) }
    }
}

impl ColorTier {
    /// Whether a painted ground is allowed at this tier. Below 256 colours
    /// the terminal owns the ground.
    pub fn paints_a_ground(self) -> (b: bool)
        ensures
            b == (self == ColorTier::Ansi256 || self == ColorTier::TrueColor),
    {
        match self {
            ColorTier::Ansi256 | ColorTier::TrueColor => true,
            _ => false,
        }
    }

    /// Whether a theme file is consulted at all at this tier.
    pub fn reads_a_theme(self) -> (b: bool)
        ensures
            b == (self == ColorTier::Ansi256 || self == ColorTier::TrueColor),
    {
        match self {
            ColorTier::Ansi256 | ColorTier::TrueColor => true,
            _ => false,
        }
    }
}

/// An override that names a tier wins over every other signal, on each axis
/// independently of the other.
pub proof fn law_override_wins(env: Environment)
    ensures
        (var(env.solarxy_color) matches Some(raw) && color_choice(folded(raw)) is Some) ==> color_spec(
            env,
        ) == color_choice(folded(var(env.solarxy_color).unwrap())).unwrap(),
        (var(env.solarxy_ascii) matches Some(raw) && glyph_choice(folded(raw)) is Some) ==> glyphs_spec(
            env,
        ) == glyph_choice(folded(var(env.solarxy_ascii).unwrap())).unwrap(),
{
}

/// Without an override, the no-colour convention or a dumb terminal, a
/// `COLORTERM` of `truecolor` or `24bit`, padded or not, gives true colour,
/// whatever `TERM` says; these are the two words the override itself reads
/// as true colour.
pub proof fn law_truecolour_hint_is_honoured(env: Environment)
    requires
        var(env.solarxy_color) matches Some(raw) ==> color_choice(folded(raw)) is None,
        var(env.no_color) matches Some(v) ==> v.len() == 0,
        !is_dumb(env),
        var(env.colorterm) matches Some(v) && (trim_spec(v) == "truecolor"@ || trim_spec(v)
            == "24bit"@),
    ensures
        color_spec(env) == ColorTier::TrueColor,
        color_choice(trim_spec(var(env.colorterm).unwrap())) == Some(ColorTier::TrueColor),
{
    reveal_strlit("truecolor");
    reveal_strlit("24bit");
    reveal_strlit("mono");
    reveal_strlit("0");
    reveal_strlit("16");
    reveal_strlit("256");
    let t = trim_spec(var(env.colorterm).unwrap());
    assert(t.len() == 9 || t.len() == 5);
    assert(t != "mono"@ && t != "0"@ && t != "16"@ && t != "256"@);
}

/// Without an override, the colour signals are read in a fixed order: a set,
/// non-empty `NO_COLOR` means monochrome whatever else is set; otherwise a
/// `TERM` naming 256 colours gives the 256-colour tier when nothing above it
/// spoke; and with no signal at all the tier is the 16-colour fallback.
pub proof fn law_colour_signals_in_order(env: Environment)
    requires
        var(env.solarxy_color) matches Some(raw) ==> color_choice(folded(raw)) is None,
    ensures
        (var(env.no_color) matches Some(v) && v.len() > 0) ==> color_spec(env) == ColorTier::Mono,
        ({
            &&& var(env.no_color) matches Some(v) ==> v.len() == 0
            &&& !is_dumb(env)
            &&& var(env.colorterm) matches Some(v) ==> trim_spec(v) != "truecolor"@ && trim_spec(v)
                != "24bit"@
            &&& var(env.term) matches Some(t) && contains_seq(t, "256color"@)
        }) ==> color_spec(env) == ColorTier::Ansi256,
        ({
            &&& var(env.no_color) matches Some(v) ==> v.len() == 0
            &&& !is_dumb(env)
            &&& var(env.colorterm) matches Some(v) ==> trim_spec(v) != "truecolor"@ && trim_spec(v)
                != "24bit"@
            &&& var(env.term) matches Some(t) ==> !contains_seq(t, "256color"@)
        }) ==> color_spec(env) == ColorTier::Ansi16,
{
}

/// Without an override, a dumb terminal is monochrome and ASCII.
pub proof fn law_dumb_terminal_constrains_both_axes(env: Environment)
    requires
        is_dumb(env),
        var(env.solarxy_color) matches Some(raw) ==> color_choice(folded(raw)) is None,
        var(env.solarxy_ascii) matches Some(raw) ==> glyph_choice(folded(raw)) is None,
    ensures
        color_spec(env) == ColorTier::Mono,
        glyphs_spec(env) == GlyphTier::Ascii,
{
}

/// A ground is painted exactly where a theme is read.
pub proof fn law_ground_follows_theme(tier: ColorTier)
    ensures
        (tier == ColorTier::Ansi256 || tier == ColorTier::TrueColor) == (tier != ColorTier::Mono
            && tier != ColorTier::Ansi16),
{
}

/// What the lower tiers paint: nothing at all in monochrome, and never an
/// exact colour at 256 colours, where an exact colour becomes the nearest
/// entry of the cube.
pub proof fn law_lower_tiers_paint_what_they_can(ink: Ink)
    ensures
        ColorTier::Mono.degrade_spec(ink) == Ink::Reset,
        !(ColorTier::Ansi256.degrade_spec(ink) is Rgb),
        ink is Rgb ==> ColorTier::Ansi256.degrade_spec(ink) is Indexed,
{
}

/// The six levels of each channel of the 256-colour cube.
pub open spec fn level(i: int) -> int {
    if i == 0 {
        0
    } else if i == 1 {
        95
    } else if i == 2 {
        135
    } else if i == 3 {
        175
    } else if i == 4 {
        215
    } else {
        255
    }
}

pub open spec fn dist(a: int, b: int) -> int {
    if a >= b {
        a - b
    } else {
        b - a
    }
}

/// The first of the first `n` levels nearest a channel value.
pub open spec fn nearest_upto(c: int, n: int) -> int
    decreases n,
{
    if n <= 1 {
        0
    } else {
        let b = nearest_upto(c, n - 1);
        if dist(c, level(n - 1)) < dist(c, level(b)) {
            n - 1
        } else {
            b
        }
    }
}

pub open spec fn nearest_level(c: int) -> int {
    nearest_upto(c, 6)
}

pub open spec fn sq(a: int, b: int) -> int {
    (a - b) * (a - b)
}

/// The xterm-256 entry nearest an RGB colour: the nearest cube cell, unless
/// the grey ramp is strictly nearer.
pub open spec fn quantize_spec(r: u8, g: u8, b: u8) -> u8 {
    let (ri, gi, bi) = (nearest_level(r as int), nearest_level(g as int), nearest_level(b as int));
    let cube = 16 + 36 * ri + 6 * gi + bi;
    let cube_error = sq(r as int, level(ri)) + sq(g as int, level(gi)) + sq(b as int, level(bi));
    let average = (r + g + b) / 3;
    let raised = if average >= 8 {
        average - 8
    } else {
        0
    };
    let step = if (raised + 5) / 10 <= 23 {
        (raised + 5) / 10
    } else {
        23
    };
    let grey = 8 + step * 10;
    let grey_error = sq(r as int, grey) + sq(g as int, grey) + sq(b as int, grey);
    if grey_error < cube_error {
        (232 + step) as u8
    } else {
        cube as u8
    }
}

proof fn lemma_nearest_bounds(c: int, n: int)
    requires
        1 <= n,
    ensures
        0 <= nearest_upto(c, n) < n,
    decreases n,
{
    if n > 1 {
        lemma_nearest_bounds(c, n - 1);
    }
}

fn level_of(i: usize) -> (v: u32)
    requires
        i < 6,
    ensures
        v == level(i as int),
{
    if i == 0 {
        0
    } else if i == 1 {
        95
    } else if i == 2 {
        135
    } else if i == 3 {
        175
    } else if i == 4 {
        215
    } else {
        255
    }
}

fn diff(a: u32, b: u32) -> (d: u32)
    ensures
        d == dist(a as int, b as int),
{
    if a >= b {
        a - b
    } else {
        b - a
    }
}

fn nearest(c: u8) -> (i: usize)
    ensures
        i == nearest_level(c as int),
        i < 6,
{
    let mut best: usize = 0;
    let mut index: usize = 1;
    while index < 6
        invariant
            1 <= index <= 6,
            best == nearest_upto(c as int, index as int),
            best < index,
        decreases 6 - index,
    {
        if diff(c as u32, level_of(index)) < diff(c as u32, level_of(best)) {
            best = index;
        }
        index = index + 1;
    }
    best
}

fn sq_exec(a: u32, b: u32) -> (v: u32)
    requires
        a <= 255,
        b <= 255,
    ensures
        v == sq(a as int, b as int),
        v <= 65025,
{
    let d = diff(a, b);
    assert(d * d <= 255 * 255) by (nonlinear_arith)
        requires
            d <= 255,
    ;
    assert(d * d == (a - b) * (a - b)) by (nonlinear_arith)
        requires
            d == dist(a as int, b as int),
    ;
    d * d
}

/// The xterm-256 entry nearest an RGB colour, for the 256-colour tier.
/// Indices below sixteen are never chosen: those are the slots a user's own
/// terminal theme redefines.
pub fn quantize_rgb(r: u8, g: u8, b: u8) -> (index: u8)
    ensures
        index == quantize_spec(r, g, b),
        index >= 16,
{
    let ri = nearest(r);
    let gi = nearest(g);
    let bi = nearest(b);
    let cube: u32 = 16 + 36 * ri as u32 + 6 * gi as u32 + bi as u32;
    let cube_error = sq_exec(r as u32, level_of(ri)) + sq_exec(g as u32, level_of(gi)) + sq_exec(
        b as u32,
        level_of(bi),
    );
    let average: u32 = (r as u32 + g as u32 + b as u32) / 3;
    let raised: u32 = average.saturating_sub(8);
    let step: u32 = if (raised + 5) / 10 <= 23 {
        (raised + 5) / 10
    } else {
        23
    };
    let grey: u32 = 8 + step * 10;
    let grey_error = sq_exec(r as u32, grey) + sq_exec(g as u32, grey) + sq_exec(b as u32, grey);
    if grey_error < cube_error {
        (232 + step) as u8
    } else {
        cube as u8
    }
}

/// Quantising never hands a hue to a slot a user's terminal theme
/// redefines.
pub proof fn law_quantising_avoids_the_user_slots(r: u8, g: u8, b: u8)
    ensures
        quantize_spec(r, g, b) >= 16,
{
    lemma_nearest_bounds(r as int, 6);
    lemma_nearest_bounds(g as int, 6);
    lemma_nearest_bounds(b as int, 6);
}


/// A colour as a theme names it: the terminal's own ink, one of the sixteen
/// named slots, an index into the 256-colour table, or an exact RGB value.
#[derive(Debug, Clone, Copy, PartialEq, Eq, Structural)]
pub enum Ink {
    Reset,
    /// One of the sixteen slots a terminal theme defines, by number.
    Named(u8),
    Indexed(u8),
    Rgb(u8, u8, u8),
}

impl ColorTier {
    pub open spec fn degrade_spec(self, ink: Ink) -> Ink {
        match self {
            ColorTier::Mono => Ink::Reset,
            ColorTier::Ansi16 | ColorTier::TrueColor => ink,
            ColorTier::Ansi256 => match ink {
                Ink::Rgb(r, g, b) => Ink::Indexed(quantize_spec(r, g, b)),
                other => other,
            },
        }
    }

    /// Map an authored colour onto what this tier can render: nothing at
    /// all in monochrome, the cube for an exact colour at 256 colours, and
    /// the colour itself otherwise.
    pub fn degrade(self, ink: Ink) -> (r: Ink)
        ensures
            r == self.degrade_spec(ink),
    {
        match self {
            ColorTier::Mono => Ink::Reset,
            ColorTier::Ansi16 | ColorTier::TrueColor => ink,
            ColorTier::Ansi256 => match ink {
                Ink::Rgb(r, g, b) => Ink::Indexed(quantize_rgb(r, g, b)),
                other => other,
            },
        }
    }
}

} // verus!
