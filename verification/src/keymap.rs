//! One table, and both surfaces generated from it.
//!
//! The table is the source and the footer and the help overlay are both views
//! of it, so a key absent here cannot appear in either, and the footer is
//! built from the same rows the dispatcher reads.
//!
//! Every single-letter binding accepts both cases and the footer shows the
//! lower case form. `g` and `G` are the documented exception.

use vstd::prelude::*;
use crate::caps::GlyphTier;
use crate::text::{lower, lower_spec, owned, push_char, push_str};

verus! {

/// Where a binding applies.
#[derive(Debug, Clone, Copy, PartialEq, Eq, Structural, PartialOrd, Ord)]
pub enum Context {
    /// Available everywhere, including inside a panel.
    Global,
    /// Acts on the focused panel, whichever it is.
    Focused,
    /// Only while arranging.
    Arrange,
    /// The focused panel's own actions, which is its border menu.
    Panel,
}

impl Context {
    pub open spec fn heading_spec(self) -> Seq<char> {
        match self {
            Context::Global => "GLOBAL"@,
            Context::Focused => "FOCUSED PANEL"@,
            Context::Arrange => "ARRANGE MODE"@,
            Context::Panel => "THIS PANEL"@,
        }
    }

    pub fn heading(self) -> (r: &'static str)
        ensures
            r@ == self.heading_spec(),
    {
        match self {
            Context::Global => "GLOBAL",
            Context::Focused => "FOCUSED PANEL",
            Context::Arrange => "ARRANGE MODE",
            Context::Panel => "THIS PANEL",
        }
    }
}

/// What a key does.
#[derive(Debug, Clone, Copy, PartialEq, Eq, Structural)]
pub enum Command {
    FocusAddress(u8),
    CyclePreset,
    EnterArrange,
    SaveLayout,
    Help,
    Quit,
    SelectUp,
    SelectDown,
    First,
    Last,
    Open,
    Restore,
    Filter,
    Sort,
    Export,
    ArrangeLeft,
    ArrangeDown,
    ArrangeUp,
    ArrangeRight,
    SplitHorizontal,
    SplitVertical,
    Close,
    Add,
    GrowDivider,
    ShrinkDivider,
    Balance,
    LeaveArrange,
}

/// A key as the terminal reports it.
#[derive(Debug, Clone, Copy, PartialEq, Eq, Structural)]
pub enum KeyCode {
    Char(char),
    Enter,
    Esc,
    Up,
    Down,
    Left,
    Right,
    Tab,
    Backspace,
    /// A function key.
    F(u8),
    /// Any other key, which no binding claims.
    Other,
}

/// A key press: the key, and whether control was held.
#[derive(Debug, Clone, Copy, PartialEq, Eq, Structural)]
pub struct KeyEvent {
    pub code: KeyCode,
    pub control: bool,
}

/// The key of a binding, in the shape the dispatcher compares against.
#[derive(Debug, Clone, Copy, PartialEq, Eq, Structural)]
pub enum Key {
    /// A letter or symbol, either case.
    Char(char),
    /// A letter whose case is significant, which is only ever `G`.
    ExactChar(char),
    /// A control chord.
    Control(char),
    Code(KeyCode),
    /// Any of the nine jump addresses.
    Digit,
    /// A row that exists to be read rather than pressed.
    Display,
}

/// One row of the table.
#[derive(Debug, Clone, Copy)]
pub struct Binding {
    pub context: Context,
    /// How the key is written in the footer and in help.
    pub label: &'static str,
    /// What the row says the key does.
    pub describes: &'static str,
    pub command: Command,
    pub key: Key,
}

/// Two characters are the same letter, ignoring ASCII case.
pub open spec fn same_letter(a: char, b: char) -> bool {
    lower_spec(a) == lower_spec(b)
}

pub open spec fn is_address_char(c: char) -> bool {
    '1' <= c && c <= '9'
}

impl Binding {
    pub open spec fn matches_spec(self, event: KeyEvent) -> bool {
        match self.key {
            Key::Char(want) => !event.control && (event.code matches KeyCode::Char(got) && same_letter(
                got,
                want,
            )),
            Key::ExactChar(want) => !event.control && event.code == KeyCode::Char(want),
            Key::Control(want) => event.control && (event.code matches KeyCode::Char(got)
                && same_letter(got, want)),
            Key::Code(want) => !event.control && event.code == want,
            Key::Digit => event.code matches KeyCode::Char(got) && is_address_char(got),
            Key::Display => false,
        }
    }

    pub open spec fn resolve_spec(self, event: KeyEvent) -> Command {
        match (self.key, event.code) {
            (Key::Digit, KeyCode::Char(d)) => if is_address_char(d) {
                Command::FocusAddress(((d as int) - ('0' as int)) as u8)
            } else {
                self.command
            },
            _ => self.command,
        }
    }

    /// Whether this row claims a key event.
    pub fn matches(&self, event: KeyEvent) -> (b: bool)
        ensures
            b == self.matches_spec(event),
    {
        match self.key {
            Key::Char(want) => !event.control && match event.code {
                KeyCode::Char(got) => lower(got) == lower(want),
                _ => false,
            },
            Key::ExactChar(want) => !event.control && match event.code {
                KeyCode::Char(got) => got == want,
                _ => false,
            },
            Key::Control(want) => event.control && match event.code {
                KeyCode::Char(got) => lower(got) == lower(want),
                _ => false,
            },
            Key::Code(want) => !event.control && event.code == want,
            Key::Digit => match event.code {
                KeyCode::Char(got) => '1' <= got && got <= '9',
                _ => false,
            },
            Key::Display => false,
        }
    }

    /// The command, resolved against the actual key for rows that cover more
    /// than one.
    pub fn resolve(&self, event: KeyEvent) -> (r: Command)
        ensures
            r == self.resolve_spec(event),
    {
        match (self.key, event.code) {
            (Key::Digit, KeyCode::Char(d)) => if '1' <= d && d <= '9' {
                let code: u32 = d as u32;
                Command::FocusAddress((code - 48) as u8)
            } else {
                self.command
            },
            _ => self.command,
        }
    }
}

fn row(context: Context, label: &'static str, describes: &'static str, key: Key, command: Command) -> (b: Binding)
    ensures
        b == (Binding { context, label, describes, command, key }),
{
    Binding { context, label, describes, command, key }
}

pub open spec fn row_spec(
    context: Context,
    label: &'static str,
    describes: &'static str,
    key: Key,
    command: Command,
) -> Binding {
    Binding { context, label, describes, command, key }
}

/// The table, ordered as the help overlay groups it.
pub open spec fn table_spec() -> Seq<Binding> {
    seq![
        row_spec(Context::Global, "1-9", "focus panel by address", Key::Digit, Command::FocusAddress(0)),
        row_spec(Context::Global, "p", "cycle preset", Key::Char('p'), Command::CyclePreset),
        row_spec(Context::Global, "^w", "enter arrange mode", Key::Control('w'), Command::EnterArrange),
        row_spec(Context::Global, "^s", "save this layout", Key::Control('s'), Command::SaveLayout),
        row_spec(Context::Global, "?", "help overlay", Key::Char('?'), Command::Help),
        row_spec(Context::Global, "q", "quit", Key::Char('q'), Command::Quit),
        row_spec(Context::Focused, "\u{2191}\u{2193} jk", "move selection", Key::Display, Command::SelectUp),
        row_spec(Context::Focused, "\u{21b5}", "maximize, or open the row", Key::Code(KeyCode::Enter), Command::Open),
        row_spec(Context::Focused, "esc", "restore from maximized", Key::Code(KeyCode::Esc), Command::Restore),
        row_spec(Context::Focused, "/", "filter this panel", Key::Char('/'), Command::Filter),
        row_spec(Context::Focused, "s", "cycle sort column", Key::Char('s'), Command::Sort),
        row_spec(Context::Focused, "g G", "first row, last row", Key::Char('g'), Command::First),
        row_spec(Context::Focused, "e", "export", Key::Char('e'), Command::Export),
        row_spec(Context::Arrange, "h j k l", "move focus", Key::Char('h'), Command::ArrangeLeft),
        row_spec(Context::Arrange, "s v", "split horizontal, vertical", Key::Char('v'), Command::SplitVertical),
        row_spec(Context::Arrange, "x", "close focused panel", Key::Char('x'), Command::Close),
        row_spec(Context::Arrange, "a", "add a panel from the catalogue", Key::Char('a'), Command::Add),
        row_spec(Context::Arrange, "\u{2190} \u{2192}", "resize the active divider", Key::Display, Command::ShrinkDivider),
        row_spec(Context::Arrange, "=", "balance all splits", Key::Char('='), Command::Balance),
        row_spec(Context::Arrange, "esc", "leave arrange mode", Key::Code(KeyCode::Esc), Command::LeaveArrange),
    ]
}

/// The table every surface and the dispatcher read.
pub fn table() -> (r: Vec<Binding>)
    ensures
        r@ == table_spec(),
{
    let r = vec![
        row(Context::Global, "1-9", "focus panel by address", Key::Digit, Command::FocusAddress(0)),
        row(Context::Global, "p", "cycle preset", Key::Char('p'), Command::CyclePreset),
        row(Context::Global, "^w", "enter arrange mode", Key::Control('w'), Command::EnterArrange),
        row(Context::Global, "^s", "save this layout", Key::Control('s'), Command::SaveLayout),
        row(Context::Global, "?", "help overlay", Key::Char('?'), Command::Help),
        row(Context::Global, "q", "quit", Key::Char('q'), Command::Quit),
        row(Context::Focused, "\u{2191}\u{2193} jk", "move selection", Key::Display, Command::SelectUp),
        row(Context::Focused, "\u{21b5}", "maximize, or open the row", Key::Code(KeyCode::Enter), Command::Open),
        row(Context::Focused, "esc", "restore from maximized", Key::Code(KeyCode::Esc), Command::Restore),
        row(Context::Focused, "/", "filter this panel", Key::Char('/'), Command::Filter),
        row(Context::Focused, "s", "cycle sort column", Key::Char('s'), Command::Sort),
        row(Context::Focused, "g G", "first row, last row", Key::Char('g'), Command::First),
        row(Context::Focused, "e", "export", Key::Char('e'), Command::Export),
        row(Context::Arrange, "h j k l", "move focus", Key::Char('h'), Command::ArrangeLeft),
        row(Context::Arrange, "s v", "split horizontal, vertical", Key::Char('v'), Command::SplitVertical),
        row(Context::Arrange, "x", "close focused panel", Key::Char('x'), Command::Close),
        row(Context::Arrange, "a", "add a panel from the catalogue", Key::Char('a'), Command::Add),
        row(Context::Arrange, "\u{2190} \u{2192}", "resize the active divider", Key::Display, Command::ShrinkDivider),
        row(Context::Arrange, "=", "balance all splits", Key::Char('='), Command::Balance),
        row(Context::Arrange, "esc", "leave arrange mode", Key::Code(KeyCode::Esc), Command::LeaveArrange),
    ];
    assert(r@ =~= table_spec());
    r
}

pub open spec fn last_row_spec() -> Binding {
    row_spec(Context::Focused, "G", "last row", Key::ExactChar('G'), Command::Last)
}

/// The row the `g`/`G` pair needs that the table describes as one: the only
/// place case is significant.
pub fn last_row() -> (r: Binding)
    ensures
        r == last_row_spec(),
{
    row(Context::Focused, "G", "last row", Key::ExactChar('G'), Command::Last)
}

pub open spec fn selection_keys_spec() -> Seq<Binding> {
    seq![
        row_spec(Context::Focused, "j", "move selection down", Key::Char('j'), Command::SelectDown),
        row_spec(Context::Focused, "k", "move selection up", Key::Char('k'), Command::SelectUp),
        row_spec(Context::Focused, "\u{2193}", "move selection down", Key::Code(KeyCode::Down), Command::SelectDown),
        row_spec(Context::Focused, "\u{2191}", "move selection up", Key::Code(KeyCode::Up), Command::SelectUp),
    ]
}

pub open spec fn arrange_keys_spec() -> Seq<Binding> {
    seq![
        row_spec(Context::Arrange, "j", "move focus down", Key::Char('j'), Command::ArrangeDown),
        row_spec(Context::Arrange, "k", "move focus up", Key::Char('k'), Command::ArrangeUp),
        row_spec(Context::Arrange, "l", "move focus right", Key::Char('l'), Command::ArrangeRight),
        row_spec(Context::Arrange, "s", "split horizontal", Key::Char('s'), Command::SplitHorizontal),
        row_spec(Context::Arrange, "\u{2192}", "grow the divider", Key::Code(KeyCode::Right), Command::GrowDivider),
        row_spec(Context::Arrange, "\u{2190}", "shrink the divider", Key::Code(KeyCode::Left), Command::ShrinkDivider),
    ]
}

fn selection_keys() -> (r: Vec<Binding>)
    ensures
        r@ == selection_keys_spec(),
{
    let r = vec![
        row(Context::Focused, "j", "move selection down", Key::Char('j'), Command::SelectDown),
        row(Context::Focused, "k", "move selection up", Key::Char('k'), Command::SelectUp),
        row(Context::Focused, "\u{2193}", "move selection down", Key::Code(KeyCode::Down), Command::SelectDown),
        row(Context::Focused, "\u{2191}", "move selection up", Key::Code(KeyCode::Up), Command::SelectUp),
    ];
    assert(r@ =~= selection_keys_spec());
    r
}

fn arrange_keys() -> (r: Vec<Binding>)
    ensures
        r@ == arrange_keys_spec(),
{
    let r = vec![
        row(Context::Arrange, "j", "move focus down", Key::Char('j'), Command::ArrangeDown),
        row(Context::Arrange, "k", "move focus up", Key::Char('k'), Command::ArrangeUp),
        row(Context::Arrange, "l", "move focus right", Key::Char('l'), Command::ArrangeRight),
        row(Context::Arrange, "s", "split horizontal", Key::Char('s'), Command::SplitHorizontal),
        row(Context::Arrange, "\u{2192}", "grow the divider", Key::Code(KeyCode::Right), Command::GrowDivider),
        row(Context::Arrange, "\u{2190}", "shrink the divider", Key::Code(KeyCode::Left), Command::ShrinkDivider),
    ];
    assert(r@ =~= arrange_keys_spec());
    r
}

/// The rows of one context, in table order.
pub open spec fn in_context(s: Seq<Binding>, context: Context) -> Seq<Binding>
    decreases s.len(),
{
    if s.len() == 0 {
        Seq::empty()
    } else {
        let rest = in_context(s.drop_last(), context);
        if s.last().context == context {
            rest.push(s.last())
        } else {
            rest
        }
    }
}

/// Every row the dispatcher consults for a context, in precedence order.
pub open spec fn dispatchable_spec(context: Context) -> Seq<Binding> {
    let shown = in_context(table_spec(), context);
    match context {
        Context::Focused => shown.push(last_row_spec()) + selection_keys_spec(),
        Context::Arrange => shown + arrange_keys_spec(),
        _ => shown,
    }
}

/// The first row that claims an event, if any; with `exact`, only among the
/// case-sensitive rows.
pub open spec fn first_claim(s: Seq<Binding>, event: KeyEvent, exact: bool) -> Option<Binding>
    decreases s.len(),
{
    if s.len() == 0 {
        None
    } else if (!exact || s[0].key is ExactChar) && s[0].matches_spec(event) {
        Some(s[0])
    } else {
        first_claim(s.drop_first(), event, exact)
    }
}

/// What a key does in a context: a case-sensitive row wins over the general
/// rule, then the first row that claims the key.
pub open spec fn lookup_spec(context: Context, event: KeyEvent) -> Option<Command> {
    let rows = dispatchable_spec(context);
    let found = match first_claim(rows, event, true) {
        Some(b) => Some(b),
        None => first_claim(rows, event, false),
    };
    match found {
        Some(b) => Some(b.resolve_spec(event)),
        None => None,
    }
}

fn filter_context(s: &Vec<Binding>, context: Context) -> (r: Vec<Binding>)
    ensures
        r@ == in_context(s@, context),
{
    let mut r: Vec<Binding> = Vec::new();
    let mut i: usize = 0;
    assert(s@.take(0) =~= Seq::<Binding>::empty());
    while i < s.len()
        invariant
            0 <= i <= s.len(),
            r@ == in_context(s@.take(i as int), context),
        decreases s.len() - i,
    {
        assert(s@.take(i + 1).drop_last() =~= s@.take(i as int));
        assert(s@.take(i + 1).last() == s@[i as int]);
        if s[i].context == context {
            r.push(s[i]);
        }
        i = i + 1;
    }
    assert(s@.take(s@.len() as int) =~= s@);
    r
}

fn append(r: &mut Vec<Binding>, extra: Vec<Binding>)
    ensures
        final(r)@ == old(r)@ + extra@,
{
    let mut i: usize = 0;
    let ghost start = r@;
    while i < extra.len()
        invariant
            0 <= i <= extra.len(),
            r@ == start + extra@.take(i as int),
        decreases extra.len() - i,
    {
        r.push(extra[i]);
        i = i + 1;
        assert(r@ =~= start + extra@.take(i as int));
    }
    assert(extra@.take(extra@.len() as int) =~= extra@);
}

/// Every row the dispatcher consults, in precedence order.
fn dispatchable(context: Context) -> (r: Vec<Binding>)
    ensures
        r@ == dispatchable_spec(context),
{
    let mut rows = filter_context(&table(), context);
    match context {
        Context::Focused => {
            rows.push(last_row());
            append(&mut rows, selection_keys());
        },
        Context::Arrange => append(&mut rows, arrange_keys()),
        _ => {},
    }
    rows
}

fn find_claim(rows: &Vec<Binding>, event: KeyEvent, exact: bool) -> (r: Option<Binding>)
    ensures
        r == first_claim(rows@, event, exact),
{
    let mut i: usize = 0;
    assert(rows@.skip(0) =~= rows@);
    while i < rows.len()
        invariant
            0 <= i <= rows.len(),
            first_claim(rows@, event, exact) == first_claim(rows@.skip(i as int), event, exact),
        decreases rows.len() - i,
    {
        assert(rows@.skip(i as int)[0] == rows@[i as int]);
        let exact_key = match rows[i].key {
            Key::ExactChar(_) => true,
            _ => false,
        };
        if (!exact || exact_key) && rows[i].matches(event) {
            return Some(rows[i]);
        }
        assert(rows@.skip(i as int).drop_first() =~= rows@.skip(i + 1));
        i = i + 1;
    }
    None
}

/// Resolve a key in a context, or `None` if the table does not claim it.
/// `G` is tried before `g` because the one documented exception has to win
/// over the general rule.
pub fn lookup(context: Context, event: KeyEvent) -> (r: Option<Command>)
    ensures
        r == lookup_spec(context, event),
{
    let rows = dispatchable(context);
    let found = match find_claim(&rows, event, true) {
        Some(b) => Some(b),
        None => find_claim(&rows, event, false),
    };
    match found {
        Some(b) => Some(b.resolve(event)),
        None => None,
    }
}

/// The rows a surface shows for a context.
pub fn rows(context: Context) -> (r: Vec<Binding>)
    ensures
        r@ == in_context(table_spec(), context),
{
    filter_context(&table(), context)
}

/// How one character of a label is written at the ASCII tier.
pub open spec fn ascii_form(c: char) -> Seq<char> {
    if c == '\u{2191}' {
        seq!['^']
    } else if c == '\u{2193}' {
        seq!['v']
    } else if c == '\u{2190}' {
        seq!['<']
    } else if c == '\u{2192}' {
        seq!['>']
    } else if c == '\u{21b5}' {
        seq!['e', 'n', 't']
    } else {
        seq![c]
    }
}

/// A label with every arrow and the return mark written in ASCII.
pub open spec fn ascii_label(s: Seq<char>) -> Seq<char>
    decreases s.len(),
{
    if s.len() == 0 {
        Seq::empty()
    } else {
        ascii_label(s.drop_last()) + ascii_form(s.last())
    }
}

pub open spec fn label_spec(s: Seq<char>, tier: GlyphTier) -> Seq<char> {
    match tier {
        GlyphTier::Unicode => s,
        GlyphTier::Ascii => ascii_label(s),
    }
}

/// A label in the repertoire the terminal actually has: the arrows and the
/// return mark transliterate rather than the row disappearing.
pub fn label(binding: &Binding, tier: GlyphTier) -> (r: String)
    ensures
        r@ == label_spec(binding.label@, tier),
{
    if tier == GlyphTier::Unicode {
        return owned(binding.label);
    }
    let chars = crate::text::chars_of(binding.label);
    let mut out = String::new();
    let mut i: usize = 0;
    assert(chars@.take(0) =~= Seq::<char>::empty());
    while i < chars.len()
        invariant
            0 <= i <= chars.len(),
            chars@ == binding.label@,
            out@ == ascii_label(chars@.take(i as int)),
        decreases chars.len() - i,
    {
        let c = chars[i];
        let ghost before = out@;
        if c == '\u{2191}' {
            push_char(&mut out, '^');
        } else if c == '\u{2193}' {
            push_char(&mut out, 'v');
        } else if c == '\u{2190}' {
            push_char(&mut out, '<');
        } else if c == '\u{2192}' {
            push_char(&mut out, '>');
        } else if c == '\u{21b5}' {
            push_str(&mut out, "ent");
            proof {
                reveal_strlit("ent");
            }
        } else {
            push_char(&mut out, c);
        }
        assert(chars@.take(i + 1).drop_last() =~= chars@.take(i as int));
        assert(chars@.take(i + 1).last() == c);
        assert(out@ =~= before + ascii_form(c));
        i = i + 1;
    }
    assert(chars@.take(chars@.len() as int) =~= chars@);
    out
}

pub open spec fn panel_key_spec(word: Seq<char>) -> char {
    if word == "jump"@ {
        '\u{21b5}'
    } else if word == "group"@ {
        'o'
    } else if word.len() > 0 {
        word[0]
    } else {
        '?'
    }
}

/// The key that invokes a border menu word: its own first letter, except
/// where that letter is claimed above it. `jump` is return and `group` takes
/// `o`.
pub fn panel_key(word: &str) -> (c: char)
    ensures
        c == panel_key_spec(word@),
{
    let chars = crate::text::chars_of(word);
    if crate::text::same_chars(&chars, &crate::text::chars_of("jump")) {
        '\u{21b5}'
    } else if crate::text::same_chars(&chars, &crate::text::chars_of("group")) {
        'o'
    } else if chars.len() > 0 {
        chars[0]
    } else {
        '?'
    }
}

pub open spec fn panel_key_label_spec(word: Seq<char>, tier: GlyphTier) -> Seq<char> {
    if panel_key_spec(word) == '\u{21b5}' && tier == GlyphTier::Ascii {
        "ent"@
    } else {
        seq![panel_key_spec(word)]
    }
}

/// The same, in the repertoire the terminal has.
pub fn panel_key_label(word: &str, tier: GlyphTier) -> (r: String)
    ensures
        r@ == panel_key_label_spec(word@, tier),
{
    let key = panel_key(word);
    if key == '\u{21b5}' && tier == GlyphTier::Ascii {
        owned("ent")
    } else {
        let mut s = String::new();
        push_char(&mut s, key);
        assert(s@ =~= seq![key]);
        s
    }
}

/// The strip along the bottom: every global and focused row, then the
/// focused panel's own words with their keys.
pub open spec fn footer_spec(menu: Seq<Seq<char>>, tier: GlyphTier) -> Seq<(Seq<char>, Seq<char>)> {
    let shown = in_context(table_spec(), Context::Global) + in_context(table_spec(), Context::Focused);
    Seq::new(shown.len(), |i: int| (label_spec(shown[i].label@, tier), shown[i].describes@)) + Seq::new(
        menu.len(),
        |i: int| (panel_key_label_spec(menu[i], tier), menu[i]),
    )
}

/// The views of a list of string pairs.
pub open spec fn pair_views(s: Seq<(String, String)>) -> Seq<(Seq<char>, Seq<char>)> {
    Seq::new(s.len(), |i: int| (s[i].0@, s[i].1@))
}

pub open spec fn word_views(s: Seq<&'static str>) -> Seq<Seq<char>> {
    Seq::new(s.len(), |i: int| s[i]@)
}

/// A character that ends a word in a description.
pub open spec fn is_separator(c: char) -> bool {
    c == ',' || c == ' '
}

/// The first index at or after `i` that starts a word.
pub open spec fn word_start(s: Seq<char>, i: int) -> int
    decreases s.len() - i,
{
    if i >= s.len() {
        s.len() as int
    } else if !is_separator(s[i]) {
        i
    } else {
        word_start(s, i + 1)
    }
}

/// The first index at or after `i` that ends a word.
pub open spec fn word_end(s: Seq<char>, i: int) -> int
    decreases s.len() - i,
{
    if i >= s.len() {
        s.len() as int
    } else if is_separator(s[i]) {
        i
    } else {
        word_end(s, i + 1)
    }
}

/// The first word of a description, or the description itself when it has
/// no word.
pub open spec fn short_spec(s: Seq<char>) -> Seq<char> {
    let a = word_start(s, 0);
    if a >= s.len() {
        s
    } else {
        s.subrange(a, word_end(s, a))
    }
}

/// The first word of a description, because the footer has one row and the
/// help overlay has the whole sentence.
pub fn short(describes: &str) -> (r: String)
    ensures
        r@ == short_spec(describes@),
{
    let chars = crate::text::chars_of(describes);
    let n = chars.len();
    let mut a: usize = 0;
    while a < n && (chars[a] == ',' || chars[a] == ' ')
        invariant
            chars@ == describes@,
            n == chars.len(),
            a <= n,
            word_start(chars@, 0) == word_start(chars@, a as int),
        decreases n - a,
    {
        a = a + 1;
    }
    if a >= n {
        return owned(describes);
    }
    let mut b: usize = a;
    let mut word = String::new();
    while b < n && !(chars[b] == ',' || chars[b] == ' ')
        invariant
            chars@ == describes@,
            n == chars.len(),
            a <= b <= n,
            word_end(chars@, a as int) == word_end(chars@, b as int),
            word@ == chars@.subrange(a as int, b as int),
        decreases n - b,
    {
        push_char(&mut word, chars[b]);
        b = b + 1;
        assert(word@ =~= chars@.subrange(a as int, b as int));
    }
    word
}

/// The strip along the bottom, generated rather than written.
pub fn footer(panel_menu: &Vec<&'static str>, tier: GlyphTier) -> (r: Vec<(String, String)>)
    ensures
        pair_views(r@) == footer_spec(word_views(panel_menu@), tier),
{
    let mut shown = rows(Context::Global);
    append(&mut shown, rows(Context::Focused));
    let mut out: Vec<(String, String)> = Vec::new();
    let mut i: usize = 0;
    while i < shown.len()
        invariant
            0 <= i <= shown.len(),
            shown@ == in_context(table_spec(), Context::Global) + in_context(
                table_spec(),
                Context::Focused,
            ),
            out@.len() == i,
            forall|k: int|
                0 <= k < i ==> (#[trigger] out@[k]).0@ == label_spec(shown@[k].label@, tier)
                    && out@[k].1@ == shown@[k].describes@,
        decreases shown.len() - i,
    {
        let b = shown[i];
        out.push((label(&b, tier), owned(b.describes)));
        i = i + 1;
    }
    let mut j: usize = 0;
    while j < panel_menu.len()
        invariant
            0 <= j <= panel_menu.len(),
            shown@ == in_context(table_spec(), Context::Global) + in_context(
                table_spec(),
                Context::Focused,
            ),
            out@.len() == shown.len() + j,
            forall|k: int|
                0 <= k < shown.len() ==> (#[trigger] out@[k]).0@ == label_spec(
                    shown@[k].label@,
                    tier,
                ) && out@[k].1@ == shown@[k].describes@,
            forall|k: int|
                0 <= k < j ==> (#[trigger] out@[shown.len() + k]).0@ == panel_key_label_spec(
                    panel_menu@[k]@,
                    tier,
                ) && out@[shown.len() + k].1@ == panel_menu@[k]@,
        decreases panel_menu.len() - j,
    {
        let word = panel_menu[j];
        out.push((panel_key_label(word, tier), owned(word)));
        proof {
            assert(out@[shown.len() + j] == out@[out@.len() - 1]);
        }
        j = j + 1;
    }
    proof {
        let want = footer_spec(word_views(panel_menu@), tier);
        let got = pair_views(out@);
        assert(got.len() == want.len());
        assert forall|k: int| 0 <= k < got.len() implies got[k] == want[k] by {
            if k < shown.len() {
                assert(out@[k].0@ == label_spec(shown@[k].label@, tier));
            } else {
                let m = k - shown.len();
                assert(out@[shown.len() + m].0@ == panel_key_label_spec(panel_menu@[m]@, tier));
            }
        }
        assert(got =~= want);
    }
    out
}


/// A row that cannot tell a letter from its capital: no case-sensitive key
/// and no raw character code.
pub open spec fn case_blind(b: Binding, letter: char) -> bool {
    &&& !(b.key matches Key::ExactChar(w) && (w == letter || w == upper_of(letter)))
    &&& !(b.key matches Key::Code(KeyCode::Char(_)))
}

pub open spec fn upper_of(c: char) -> char {
    ((c as int) - 32) as char
}

proof fn lemma_in_context_keeps(s: Seq<Binding>, context: Context, letter: char)
    requires
        forall|i: int| 0 <= i < s.len() ==> case_blind(#[trigger] s[i], letter),
    ensures
        forall|i: int|
            0 <= i < in_context(s, context).len() ==> case_blind(#[trigger] in_context(s, context)[i], letter),
    decreases s.len(),
{
    if s.len() > 0 {
        assert forall|i: int| 0 <= i < s.drop_last().len() implies case_blind(
            #[trigger] s.drop_last()[i],
            letter,
        ) by {
            assert(s.drop_last()[i] == s[i]);
        }
        lemma_in_context_keeps(s.drop_last(), context, letter);
        assert(case_blind(s[s.len() - 1], letter));
        let rest = in_context(s.drop_last(), context);
        assert forall|i: int| 0 <= i < in_context(s, context).len() implies case_blind(
            #[trigger] in_context(s, context)[i],
            letter,
        ) by {
            if i < rest.len() {
                assert(in_context(s, context)[i] == rest[i]);
            }
        }
    }
}

proof fn lemma_claim_blind(s: Seq<Binding>, a: KeyEvent, b: KeyEvent, exact: bool)
    requires
        forall|i: int| 0 <= i < s.len() ==> #[trigger] s[i].matches_spec(a) == s[i].matches_spec(b),
    ensures
        first_claim(s, a, exact) == first_claim(s, b, exact),
    decreases s.len(),
{
    if s.len() > 0 {
        assert(s[0].matches_spec(a) == s[0].matches_spec(b));
        assert forall|i: int| 0 <= i < s.drop_first().len() implies #[trigger] s.drop_first()[i].matches_spec(a)
            == s.drop_first()[i].matches_spec(b) by {
            assert(s.drop_first()[i] == s[i + 1]);
        }
        lemma_claim_blind(s.drop_first(), a, b, exact);
    }
}

/// Every single-letter binding takes both cases, so a reader with caps lock
/// on is not locked out of their own tool; `g` and `G` are the one exception.
pub proof fn law_letters_ignore_case(context: Context, letter: char)
    requires
        'a' <= letter <= 'z',
        letter != 'g',
    ensures
        lookup_spec(context, KeyEvent { code: KeyCode::Char(letter), control: false })
            == lookup_spec(context, KeyEvent { code: KeyCode::Char(upper_of(letter)), control: false }),
{
    let lo = KeyEvent { code: KeyCode::Char(letter), control: false };
    let up = KeyEvent { code: KeyCode::Char(upper_of(letter)), control: false };
    let t = table_spec();
    assert(lower_spec(upper_of(letter)) == letter);
    assert forall|i: int| 0 <= i < t.len() implies case_blind(#[trigger] t[i], letter) by {}
    lemma_in_context_keeps(t, context, letter);
    let shown = in_context(t, context);
    let rows = dispatchable_spec(context);
    assert forall|i: int| 0 <= i < rows.len() implies case_blind(#[trigger] rows[i], letter) by {
        match context {
            Context::Focused => {
                if i < shown.len() {
                    assert(rows[i] == shown[i]);
                } else if i == shown.len() {
                    assert(rows[i] == last_row_spec());
                } else {
                    assert(rows[i] == selection_keys_spec()[i - shown.len() - 1]);
                }
            },
            Context::Arrange => {
                if i < shown.len() {
                    assert(rows[i] == shown[i]);
                } else {
                    assert(rows[i] == arrange_keys_spec()[i - shown.len()]);
                }
            },
            _ => {
                assert(rows[i] == shown[i]);
            },
        }
    }
    assert forall|i: int| 0 <= i < rows.len() implies #[trigger] rows[i].matches_spec(lo)
        == rows[i].matches_spec(up) by {
        assert(case_blind(rows[i], letter));
    }
    lemma_claim_blind(rows, lo, up, true);
    lemma_claim_blind(rows, lo, up, false);
}

/// A character a label may carry at the ASCII tier: ASCII itself, or one of
/// the marks that has an ASCII stand-in.
pub open spec fn transliterable(c: char) -> bool {
    (c as u32) < 128 || c == '\u{2191}' || c == '\u{2193}' || c == '\u{2190}' || c == '\u{2192}'
        || c == '\u{21b5}'
}

/// At the ASCII tier a label is drawn in ASCII alone: every arrow and the
/// return mark transliterate, and nothing else needs to.
pub proof fn law_ascii_labels_are_ascii(s: Seq<char>)
    requires
        forall|i: int| 0 <= i < s.len() ==> transliterable(#[trigger] s[i]),
    ensures
        forall|j: int|
            0 <= j < label_spec(s, GlyphTier::Ascii).len() ==> (#[trigger] label_spec(
                s,
                GlyphTier::Ascii,
            )[j] as u32) < 128,
    decreases s.len(),
{
    if s.len() > 0 {
        let rest = s.drop_last();
        assert forall|i: int| 0 <= i < rest.len() implies transliterable(#[trigger] rest[i]) by {
            assert(rest[i] == s[i]);
        }
        law_ascii_labels_are_ascii(rest);
        assert(transliterable(s[s.len() - 1]));
        let tail = ascii_form(s.last());
        assert(forall|k: int| 0 <= k < tail.len() ==> (#[trigger] tail[k] as u32) < 128);
        let whole = label_spec(s, GlyphTier::Ascii);
        let head = label_spec(rest, GlyphTier::Ascii);
        assert(whole == head + tail);
        assert forall|j: int| 0 <= j < whole.len() implies (#[trigger] whole[j] as u32) < 128 by {
            if j < head.len() {
                assert(whole[j] == head[j]);
            } else {
                assert(whole[j] == tail[j - head.len()]);
            }
        }
    }
}


/// A row keeps its word: an arrow moves the way its label points; a row
/// that grows or shrinks the divider, or moves the selection or the focus, is
/// the row whose text says so; and focus moves on `h j k l` and splits on
/// `s v`, as the table labels them.
pub open spec fn keeps_its_word(b: Binding) -> bool {
    &&& b.key == Key::Code(KeyCode::Right) ==> b.command == Command::GrowDivider && b.label@
        == "\u{2192}"@
    &&& b.key == Key::Code(KeyCode::Left) ==> b.command == Command::ShrinkDivider && b.label@
        == "\u{2190}"@
    &&& b.key == Key::Code(KeyCode::Down) ==> b.command == Command::SelectDown && b.label@
        == "\u{2193}"@
    &&& b.key == Key::Code(KeyCode::Up) ==> b.command == Command::SelectUp && b.label@ == "\u{2191}"@
    &&& b.key !is Display ==> {
        &&& b.command == Command::GrowDivider ==> b.describes@ == "grow the divider"@
        &&& b.command == Command::ShrinkDivider ==> b.describes@ == "shrink the divider"@
        &&& b.command == Command::SelectDown ==> b.describes@ == "move selection down"@
        &&& b.command == Command::SelectUp ==> b.describes@ == "move selection up"@
        &&& b.command == Command::ArrangeDown ==> b.describes@ == "move focus down"@
        &&& b.command == Command::ArrangeUp ==> b.describes@ == "move focus up"@
        &&& b.command == Command::ArrangeRight ==> b.describes@ == "move focus right"@
    }
    &&& b.command == Command::ArrangeLeft ==> b.key == Key::Char('h')
    &&& b.command == Command::ArrangeDown ==> b.key == Key::Char('j')
    &&& b.command == Command::ArrangeUp ==> b.key == Key::Char('k')
    &&& b.command == Command::ArrangeRight ==> b.key == Key::Char('l')
    &&& b.command == Command::SplitHorizontal ==> b.key == Key::Char('s')
    &&& b.command == Command::SplitVertical ==> b.key == Key::Char('v')
}

proof fn lemma_in_context_keeps_word(s: Seq<Binding>, context: Context)
    requires
        forall|i: int| 0 <= i < s.len() ==> keeps_its_word(#[trigger] s[i]),
    ensures
        forall|i: int|
            0 <= i < in_context(s, context).len() ==> keeps_its_word(#[trigger] in_context(s, context)[i]),
    decreases s.len(),
{
    if s.len() > 0 {
        assert forall|i: int| 0 <= i < s.drop_last().len() implies keeps_its_word(
            #[trigger] s.drop_last()[i],
        ) by {
            assert(s.drop_last()[i] == s[i]);
        }
        lemma_in_context_keeps_word(s.drop_last(), context);
        assert(keeps_its_word(s[s.len() - 1]));
        let rest = in_context(s.drop_last(), context);
        assert forall|i: int| 0 <= i < in_context(s, context).len() implies keeps_its_word(
            #[trigger] in_context(s, context)[i],
        ) by {
            if i < rest.len() {
                assert(in_context(s, context)[i] == rest[i]);
            }
        }
    }
}

/// Every row the dispatcher consults, in every context, keeps its word.
pub proof fn law_rows_do_what_they_say(context: Context)
    ensures
        forall|i: int|
            0 <= i < dispatchable_spec(context).len() ==> keeps_its_word(
                #[trigger] dispatchable_spec(context)[i],
            ),
{
    let t = table_spec();
    assert forall|i: int| 0 <= i < t.len() implies keeps_its_word(#[trigger] t[i]) by {}
    lemma_in_context_keeps_word(t, context);
    let shown = in_context(t, context);
    let rows = dispatchable_spec(context);
    assert forall|i: int| 0 <= i < rows.len() implies keeps_its_word(#[trigger] rows[i]) by {
        match context {
            Context::Focused => {
                if i < shown.len() {
                    assert(rows[i] == shown[i]);
                } else if i == shown.len() {
                    assert(rows[i] == last_row_spec());
                } else {
                    assert(rows[i] == selection_keys_spec()[i - shown.len() - 1]);
                }
            },
            Context::Arrange => {
                if i < shown.len() {
                    assert(rows[i] == shown[i]);
                } else {
                    assert(rows[i] == arrange_keys_spec()[i - shown.len()]);
                }
            },
            _ => {
                assert(rows[i] == shown[i]);
            },
        }
    }
}

proof fn lemma_first_claim_claims(s: Seq<Binding>, event: KeyEvent, exact: bool)
    ensures
        first_claim(s, event, exact) matches Some(b) ==> exists|i: int|
            0 <= i < s.len() && #[trigger] s[i] == b && b.matches_spec(event) && (exact
                ==> b.key is ExactChar),
        (!exact && exists|i: int| 0 <= i < s.len() && #[trigger] s[i].matches_spec(event))
            ==> first_claim(s, event, exact) is Some,
    decreases s.len(),
{
    if s.len() > 0 {
        lemma_first_claim_claims(s.drop_first(), event, exact);
        if first_claim(s, event, exact) is Some && !((!exact || s[0].key is ExactChar)
            && s[0].matches_spec(event)) {
            let b = first_claim(s, event, exact).unwrap();
            let j = choose|j: int|
                0 <= j < s.drop_first().len() && #[trigger] s.drop_first()[j] == b
                    && b.matches_spec(event) && (exact ==> b.key is ExactChar);
            assert(s[j + 1] == b);
        }
        if !exact && (exists|i: int| 0 <= i < s.len() && #[trigger] s[i].matches_spec(event))
            && !s[0].matches_spec(event) {
            let i = choose|i: int| 0 <= i < s.len() && #[trigger] s[i].matches_spec(event);
            assert(s.drop_first()[i - 1] == s[i]);
        }
    }
}

/// What a key does is what the first row that claims it says: every command
/// the dispatcher answers comes from a row that claims the key.
pub proof fn law_answers_come_from_a_claiming_row(context: Context, event: KeyEvent)
    ensures
        lookup_spec(context, event) matches Some(command) ==> exists|i: int|
            0 <= i < dispatchable_spec(context).len() && #[trigger] dispatchable_spec(
                context,
            )[i].matches_spec(event) && dispatchable_spec(context)[i].resolve_spec(event)
                == command,
{
    let rows = dispatchable_spec(context);
    lemma_first_claim_claims(rows, event, true);
    lemma_first_claim_claims(rows, event, false);
}

/// Wherever the arrows are bound, the right arrow grows the divider and the
/// left arrow shrinks it; in arrange mode both are bound.
pub proof fn law_arrows_move_the_divider(context: Context)
    ensures
        lookup_spec(context, KeyEvent { code: KeyCode::Right, control: false }) matches Some(c)
            ==> c == Command::GrowDivider,
        lookup_spec(context, KeyEvent { code: KeyCode::Left, control: false }) matches Some(c)
            ==> c == Command::ShrinkDivider,
        lookup_spec(Context::Arrange, KeyEvent { code: KeyCode::Right, control: false }) == Some(
            Command::GrowDivider,
        ),
        lookup_spec(Context::Arrange, KeyEvent { code: KeyCode::Left, control: false }) == Some(
            Command::ShrinkDivider,
        ),
{
    let right = KeyEvent { code: KeyCode::Right, control: false };
    let left = KeyEvent { code: KeyCode::Left, control: false };
    law_rows_do_what_they_say(context);
    law_rows_do_what_they_say(Context::Arrange);
    law_answers_come_from_a_claiming_row(context, right);
    law_answers_come_from_a_claiming_row(context, left);
    law_answers_come_from_a_claiming_row(Context::Arrange, right);
    law_answers_come_from_a_claiming_row(Context::Arrange, left);
    let rows = dispatchable_spec(Context::Arrange);
    let shown = in_context(table_spec(), Context::Arrange);
    let n = shown.len() as int;
    assert(rows[n + 4] == arrange_keys_spec()[4]);
    assert(rows[n + 5] == arrange_keys_spec()[5]);
    assert(rows[n + 4].matches_spec(right));
    assert(rows[n + 5].matches_spec(left));
    lemma_first_claim_claims(rows, right, false);
    lemma_first_claim_claims(rows, left, false);
}

} // verus!
