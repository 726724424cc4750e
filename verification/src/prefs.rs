//! The terminal shell's own state file, `tui.toml`.
//!
//! `last_layout` is overwritten on quit so a reader comes back to where they
//! were, and `saved_layout` is written only when they ask. A layout that does
//! not parse is refused when the file is read, so the reader is told once.

use vstd::prelude::*;
use crate::layout::{decode_spec, Layout, Node};
use crate::text::{owned, push_char, push_str};

verus! {

/// The file name, beside the desktop shell's `config.toml`.
pub const FILE_NAME: &'static str = "tui.toml";

/// What the terminal shell remembers between runs.
#[derive(Debug, PartialEq, Eq)]
pub struct TuiPrefs {
    /// The theme by name, or `None` to take the default.
    pub theme: Option<String>,
    /// The arrangement at the last quit.
    pub last_layout: Option<String>,
    /// The arrangement the reader explicitly saved.
    pub saved_layout: Option<String>,
}

impl Default for TuiPrefs {
    fn default() -> (r: TuiPrefs)
        ensures
            r.theme is None,
            r.last_layout is None,
            r.saved_layout is None,
    {
        TuiPrefs { theme: None, last_layout: None, saved_layout: None }
    }
}

/// The text of an optional string.
pub open spec fn opt_view(v: Option<String>) -> Option<Seq<char>> {
    match v {
        Some(s) => Some(s@),
        None => None,
    }
}

/// The legend the written file opens with.
pub open spec fn legend() -> Seq<char> {
    "# Written by solarxy-cli. Safe to edit by hand.\n#\n# A layout reads as splits and panel names: V is a vertical split,\n# whose children sit side by side, H stacks them, and the number is\n# the first child's share.\n\n[tui]\n"@
}

/// A value with every double quote escaped.
pub open spec fn escaped(s: Seq<char>) -> Seq<char>
    decreases s.len(),
{
    if s.len() == 0 {
        Seq::empty()
    } else {
        escaped(s.drop_last()) + (if s.last() == '"' {
            seq!['\\', '"']
        } else {
            seq![s.last()]
        })
    }
}

/// One `key = "value"` line, or nothing for an absent value.
pub open spec fn line_for(key: Seq<char>, value: Option<Seq<char>>) -> Seq<char> {
    match value {
        Some(v) => key + " = \""@ + escaped(v) + "\"\n"@,
        None => Seq::empty(),
    }
}

pub open spec fn to_toml_spec(p: TuiPrefs) -> Seq<char> {
    legend() + line_for("theme"@, opt_view(p.theme)) + line_for("last_layout"@, opt_view(p.last_layout))
        + line_for("saved_layout"@, opt_view(p.saved_layout))
}

fn push_escaped(out: &mut String, value: &str)
    ensures
        final(out)@ == old(out)@ + escaped(value@),
{
    let chars = crate::text::chars_of(value);
    let ghost start = out@;
    let mut i: usize = 0;
    assert(chars@.take(0) =~= Seq::<char>::empty());
    while i < chars.len()
        invariant
            0 <= i <= chars.len(),
            chars@ == value@,
            out@ == start + escaped(chars@.take(i as int)),
        decreases chars.len() - i,
    {
        let c = chars[i];
        if c == '"' {
            push_char(out, '\\');
            push_char(out, '"');
        } else {
            push_char(out, c);
        }
        assert(chars@.take(i + 1).drop_last() =~= chars@.take(i as int));
        assert(chars@.take(i + 1).last() == c);
        assert(out@ =~= start + escaped(chars@.take(i + 1)));
        i = i + 1;
    }
    assert(chars@.take(chars@.len() as int) =~= chars@);
}

fn push_line(out: &mut String, key: &str, value: &Option<String>)
    ensures
        final(out)@ == old(out)@ + line_for(key@, opt_view(*value)),
{
    match value {
        Some(v) => {
            push_str(out, key);
            push_str(out, " = \"");
            push_escaped(out, v.as_str());
            push_str(out, "\"\n");
            assert(out@ =~= old(out)@ + line_for(key@, opt_view(*value)));
        },
        None => {
            assert(out@ =~= old(out)@ + line_for(key@, opt_view(*value)));
        },
    }
}

/// A document as far as this file reads it: each top-level key, and, where
/// its value is a table, that table's keys with the text of each string
/// value.
pub type TomlDocument = Vec<(String, Option<Vec<(String, Option<String>)>>)>;

pub open spec fn section_view(t: Vec<(String, Option<String>)>) -> Seq<(Seq<char>, Option<Seq<char>>)> {
    Seq::new(t@.len(), |i: int| (t@[i].0@, opt_view(t@[i].1)))
}

pub open spec fn section_opt_view(t: Option<Vec<(String, Option<String>)>>) -> Option<
    Seq<(Seq<char>, Option<Seq<char>>)>,
> {
    match t {
        Some(v) => Some(section_view(v)),
        None => None,
    }
}

pub open spec fn document_view(d: TomlDocument) -> Seq<(Seq<char>, Option<Seq<(Seq<char>, Option<Seq<char>>)>>)> {
    Seq::new(d@.len(), |i: int| (d@[i].0@, section_opt_view(d@[i].1)))
}

pub open spec fn read_view(r: Result<TomlDocument, String>) -> Result<
    Seq<(Seq<char>, Option<Seq<(Seq<char>, Option<Seq<char>>)>>)>,
    Seq<char>,
> {
    match r {
        Ok(d) => Ok(document_view(d)),
        Err(e) => Err(e@),
    }
}

/// What the TOML library makes of a source text: its top-level keys with,
/// for each table value, that table's keys and string values; or the
/// library's message for a text it refuses.
pub uninterp spec fn toml_read(source: Seq<char>) -> Result<
    Seq<(Seq<char>, Option<Seq<(Seq<char>, Option<Seq<char>>)>>)>,
    Seq<char>,
>;

/// `toml::Table::from_str`, with the parsed table converted to the keys and
/// texts this file reads: the contract names the result and says nothing
/// more of it.
#[verifier::external_body]
fn read_toml(source: &str) -> (r: Result<TomlDocument, String>)
    ensures
        read_view(r) == toml_read(source@),
{
    match source.parse::<toml::Table>() {
        Err(e) => Err(e.to_string()),
        Ok(t) => Ok(t.into_iter().map(|(k, v)| (k, match v {
            toml::Value::Table(s) => Some(s.into_iter().map(|(a, b)| (a, match b {
                toml::Value::String(x) => Some(x),
                _ => None,
            })).collect()),
            _ => None,
        })).collect()),
    }
}

/// The first entry with a key, if any.
pub open spec fn lookup<V>(s: Seq<(Seq<char>, V)>, key: Seq<char>) -> Option<V>
    decreases s.len(),
{
    if s.len() == 0 {
        None
    } else if s[0].0 == key {
        Some(s[0].1)
    } else {
        lookup(s.drop_first(), key)
    }
}

/// One key of the section: absent, a string, or a refusal naming the key.
pub open spec fn string_at(section: Seq<(Seq<char>, Option<Seq<char>>)>, key: Seq<char>) -> Result<
    Option<Seq<char>>,
    Seq<char>,
> {
    match lookup(section, key) {
        None => Ok(None),
        Some(Some(s)) => Ok(Some(s)),
        Some(None) => Err("tui."@ + key + " is not a string"@),
    }
}

/// Whether a stored layout reads back, and if not, the refusal naming its
/// key.
///
/// A stored text of `u32::MAX` characters or more is refused as too long
/// without being read: leaf ids are 32-bit, and this bound is what lets the
/// reader prove its leaf counter cannot overflow. Shorter texts are judged
/// by what decoding them gives.
pub open spec fn layout_check(key: Seq<char>, value: Option<Seq<char>>) -> Option<Seq<char>> {
    match value {
        None => None,
        Some(text) => if text.len() >= u32::MAX {
            Some("tui."@ + key + ": too long to be a layout"@)
        } else {
            match decode_spec(text) {
                Ok(_) => None,
                Err(e) => Some("tui."@ + key + ": "@ + e),
            }
        },
    }
}

/// The preferences a document holds, as three texts, or why it is refused.
pub open spec fn prefs_spec(
    doc: Result<Seq<(Seq<char>, Option<Seq<(Seq<char>, Option<Seq<char>>)>>)>, Seq<char>>,
) -> Result<(Option<Seq<char>>, Option<Seq<char>>, Option<Seq<char>>), Seq<char>> {
    match doc {
        Err(e) => Err(e),
        Ok(top) => match lookup(top, "tui"@) {
            None => Ok((None, None, None)),
            Some(None) => Err("tui is not a table"@),
            Some(Some(section)) => match string_at(section, "theme"@) {
                Err(e) => Err(e),
                Ok(theme) => match string_at(section, "last_layout"@) {
                    Err(e) => Err(e),
                    Ok(last) => match string_at(section, "saved_layout"@) {
                        Err(e) => Err(e),
                        Ok(saved) => match layout_check("last_layout"@, last) {
                            Some(e) => Err(e),
                            None => match layout_check("saved_layout"@, saved) {
                                Some(e) => Err(e),
                                None => Ok((theme, last, saved)),
                            },
                        },
                    },
                },
            },
        },
    }
}

fn find_top(d: &TomlDocument, key: &str) -> (r: Option<usize>)
    ensures
        match r {
            Some(i) => i < d@.len() && lookup(document_view(*d), key@) == Some(
                section_opt_view(d@[i as int].1),
            ),
            None => lookup(document_view(*d), key@) is None,
        },
{
    let want = crate::text::chars_of(key);
    let ghost view = document_view(*d);
    let mut i: usize = 0;
    assert(view.skip(0) =~= view);
    while i < d.len()
        invariant
            0 <= i <= d.len(),
            view == document_view(*d),
            want@ == key@,
            lookup(view, key@) == lookup(view.skip(i as int), key@),
        decreases d.len() - i,
    {
        assert(view.skip(i as int)[0] == view[i as int]);
        let name = crate::text::chars_of(d[i].0.as_str());
        if crate::text::same_chars(&name, &want) {
            return Some(i);
        }
        assert(view.skip(i as int).drop_first() =~= view.skip(i + 1));
        i = i + 1;
    }
    None
}

fn find_key(s: &Vec<(String, Option<String>)>, key: &str) -> (r: Option<usize>)
    ensures
        match r {
            Some(i) => i < s@.len() && lookup(section_view(*s), key@) == Some(opt_view(s@[i as int].1)),
            None => lookup(section_view(*s), key@) is None,
        },
{
    let want = crate::text::chars_of(key);
    let ghost view = section_view(*s);
    let mut i: usize = 0;
    assert(view.skip(0) =~= view);
    while i < s.len()
        invariant
            0 <= i <= s.len(),
            view == section_view(*s),
            want@ == key@,
            lookup(view, key@) == lookup(view.skip(i as int), key@),
        decreases s.len() - i,
    {
        assert(view.skip(i as int)[0] == view[i as int]);
        let name = crate::text::chars_of(s[i].0.as_str());
        if crate::text::same_chars(&name, &want) {
            return Some(i);
        }
        assert(view.skip(i as int).drop_first() =~= view.skip(i + 1));
        i = i + 1;
    }
    None
}

fn copy_opt(v: &Option<String>) -> (r: Option<String>)
    ensures
        opt_view(r) == opt_view(*v),
{
    match v {
        Some(s) => Some(owned(s.as_str())),
        None => None,
    }
}

fn string_at_exec(section: &Vec<(String, Option<String>)>, key: &str) -> (r: Result<Option<String>, String>)
    ensures
        match (r, string_at(section_view(*section), key@)) {
            (Ok(v), Ok(w)) => opt_view(v) == w,
            (Err(m), Err(w)) => m@ == w,
            _ => false,
        },
{
    match find_key(section, key) {
        None => Ok(None),
        Some(i) => match &section[i].1 {
            Some(s) => Ok(Some(owned(s.as_str()))),
            None => {
                let mut m = owned("tui.");
                push_str(&mut m, key);
                push_str(&mut m, " is not a string");
                Err(m)
            },
        },
    }
}

fn layout_check_exec(key: &str, value: &Option<String>) -> (r: Option<String>)
    ensures
        match (r, layout_check(key@, opt_view(*value))) {
            (Some(m), Some(w)) => m@ == w,
            (None, None) => true,
            _ => false,
        },
{
    match value {
        None => None,
        Some(text) => {
            let chars = crate::text::chars_of(text.as_str());
            if chars.len() >= u32::MAX as usize {
                let mut m = owned("tui.");
                push_str(&mut m, key);
                push_str(&mut m, ": too long to be a layout");
                return Some(m);
            }
            match Layout::decode(text.as_str()) {
                Ok(_) => None,
                Err(e) => {
                    let mut m = owned("tui.");
                    push_str(&mut m, key);
                    push_str(&mut m, ": ");
                    push_str(&mut m, e.as_str());
                    Some(m)
                },
            }
        },
    }
}

/// The preferences a read document holds, or why it is refused: a `tui`
/// that is not a table, a key whose value is not a string, or a stored
/// layout that does not read back, each naming its key. A document without
/// a `tui` section is the defaults.
pub fn prefs_from_document(doc: &Result<TomlDocument, String>) -> (r: Result<TuiPrefs, String>)
    ensures
        match (r, prefs_spec(read_view(*doc))) {
            (Ok(p), Ok((theme, last, saved))) => opt_view(p.theme) == theme && opt_view(p.last_layout)
                == last && opt_view(p.saved_layout) == saved,
            (Err(m), Err(w)) => m@ == w,
            _ => false,
        },
{
    let top = match doc {
        Err(e) => {
            return Err(owned(e.as_str()));
        },
        Ok(top) => top,
    };
    let section = match find_top(top, "tui") {
        None => {
            return Ok(TuiPrefs::default());
        },
        Some(i) => match &top[i].1 {
            None => {
                return Err(owned("tui is not a table"));
            },
            Some(section) => section,
        },
    };
    let theme = match string_at_exec(section, "theme") {
        Err(e) => {
            return Err(e);
        },
        Ok(v) => v,
    };
    let last = match string_at_exec(section, "last_layout") {
        Err(e) => {
            return Err(e);
        },
        Ok(v) => v,
    };
    let saved = match string_at_exec(section, "saved_layout") {
        Err(e) => {
            return Err(e);
        },
        Ok(v) => v,
    };
    match layout_check_exec("last_layout", &last) {
        Some(e) => {
            return Err(e);
        },
        None => {},
    }
    match layout_check_exec("saved_layout", &saved) {
        Some(e) => {
            return Err(e);
        },
        None => {},
    }
    Ok(TuiPrefs { theme, last_layout: last, saved_layout: saved })
}

impl TuiPrefs {
    /// The file's text: a legend, then one line for each value that is set,
    /// with double quotes escaped.
    pub fn to_toml(&self) -> (r: String)
        ensures
            r@ == to_toml_spec(*self),
    {
        let mut out = owned(
            "# Written by solarxy-cli. Safe to edit by hand.\n#\n# A layout reads as splits and panel names: V is a vertical split,\n# whose children sit side by side, H stacks them, and the number is\n# the first child's share.\n\n[tui]\n",
        );
        push_line(&mut out, "theme", &self.theme);
        push_line(&mut out, "last_layout", &self.last_layout);
        push_line(&mut out, "saved_layout", &self.saved_layout);
        assert(out@ =~= to_toml_spec(*self));
        out
    }

    /// Read the file's text, naming the key of whatever is malformed.
    pub fn parse(source: &str) -> (r: Result<TuiPrefs, String>)
        ensures
            match (r, prefs_spec(toml_read(source@))) {
                (Ok(p), Ok((theme, last, saved))) => opt_view(p.theme) == theme && opt_view(
                    p.last_layout,
                ) == last && opt_view(p.saved_layout) == saved,
                (Err(m), Err(w)) => m@ == w,
                _ => false,
            },
    {
        let doc = read_toml(source);
        prefs_from_document(&doc)
    }

    /// The arrangement to open with: what the reader last had, if it reads
    /// back.
    pub fn opening_layout(&self) -> (r: Option<Layout>)
        requires
            self.last_layout matches Some(t) ==> t@.len() < u32::MAX,
        ensures
            match self.last_layout {
                None => r is None,
                Some(t) => match (r, decode_spec(t@)) {
                    (Some(l), Ok((node, count))) => l.tree() == node && l.next_id_spec() == count,
                    (None, Err(_)) => true,
                    _ => false,
                },
            },
    {
        match &self.last_layout {
            None => None,
            Some(text) => match Layout::decode(text.as_str()) {
                Ok(l) => Some(l),
                Err(_) => None,
            },
        }
    }
}

/// The text of an optional string.
pub open spec fn optional_text(o: Option<String>) -> Option<Seq<char>> {
    match o {
        Some(t) => Some(t@),
        None => None,
    }
}

pub open spec fn texts_of(v: Seq<String>) -> Seq<Seq<char>> {
    Seq::new(v.len(), |i: int| v[i]@)
}

impl TuiPrefs {
    /// The theme to open with: the one asked for on the command line wins
    /// over the one saved in the preferences.
    pub fn wanted_theme(&self, requested: &Option<String>) -> (r: Option<String>)
        ensures
            optional_text(r) == (match requested {
                Some(t) => Some(t@),
                None => optional_text(self.theme),
            }),
    {
        match requested {
            Some(t) => Some(t.clone()),
            None => match &self.theme {
                Some(t) => Some(t.clone()),
                None => None,
            },
        }
    }
}

/// What loading says before the surface opens: what reading the
/// preferences had to say first, then what resolving the theme did.
pub fn startup_notices(prefs: Vec<String>, theme: Vec<String>) -> (r: Vec<String>)
    ensures
        texts_of(r@) == texts_of(prefs@) + texts_of(theme@),
{
    let mut out = prefs;
    let ghost first = out@;
    let mut i: usize = 0;
    while i < theme.len()
        invariant
            i <= theme@.len(),
            texts_of(out@) == texts_of(first) + texts_of(theme@.take(i as int)),
        decreases theme@.len() - i,
    {
        let ghost before = out@;
        let c = theme[i].clone();
        assert(c@ == theme@[i as int]@);
        out.push(c);
        assert(texts_of(out@) =~= texts_of(before).push(c@));
        assert(texts_of(theme@.take(i + 1)) =~= texts_of(theme@.take(i as int)).push(theme@[i as int]@));
        i = i + 1;
        assert(texts_of(out@) =~= texts_of(first) + texts_of(theme@.take(i as int)));
    }
    assert(theme@.take(i as int) =~= theme@);
    out
}

} // verus!
