//! Text as the surfaces compose it: runs of text, each in a tone, which the
//! drawing side maps onto the theme.

use vstd::prelude::*;
use crate::text::{owned, push_char};

verus! {

/// How a piece of text is painted: the drawing side maps each tone to the
/// theme.
#[derive(Debug, Clone, Copy, PartialEq, Eq, Structural)]
pub enum Tone {
    /// Body text.
    Ink,
    /// Secondary text.
    Dim,
    /// A group's heading: secondary and bold.
    Heading,
    /// The accent, as the caret is drawn.
    Accent,
    /// A key or a choice: the accent, bold.
    Strong,
    /// Body text, bold.
    Emphasis,
    /// Something the reader should notice: the warning colour, bold.
    Warning,
    /// Something that finished well: the success colour, bold.
    Success,
    /// Something that failed: the error colour, bold.
    Failure,
    /// A count of warnings: the warning colour.
    Caution,
    /// A count of errors: the error colour.
    Fault,
    /// Something present or passing: the success colour.
    Sound,
}

/// A run of text in one tone.
#[derive(Debug, Clone, PartialEq, Eq)]
pub struct Segment {
    pub text: String,
    pub tone: Tone,
}

impl View for Segment {
    type V = (Seq<char>, Tone);

    open spec fn view(&self) -> (Seq<char>, Tone) {
        (self.text@, self.tone)
    }
}

/// A line as contracts read it.
pub open spec fn line_view(l: Seq<Segment>) -> Seq<(Seq<char>, Tone)> {
    Seq::new(l.len(), |i: int| l[i]@)
}

/// A body of lines as contracts read it.
pub open spec fn body_view(b: Seq<Vec<Segment>>) -> Seq<Seq<(Seq<char>, Tone)>> {
    Seq::new(b.len(), |i: int| line_view(b[i]@))
}

/// Text followed by spaces up to a width, as `{:<width}` lays it out.
pub open spec fn padded(s: Seq<char>, width: nat) -> Seq<char> {
    if s.len() >= width {
        s
    } else {
        s + Seq::new((width - s.len()) as nat, |i: int| ' ')
    }
}

/// Text followed by spaces up to a width.
pub fn pad(text: &str, width: usize) -> (r: String)
    ensures
        r@ == padded(text@, width as nat),
{
    let mut out = owned(text);
    let count = crate::text::chars_of(text).len();
    let mut n = count;
    while n < width
        invariant
            count == text@.len(),
            count <= n,
            n > width ==> n == count,
            out@ == text@ + Seq::new((n - count) as nat, |i: int| ' '),
        decreases width - n,
    {
        push_char(&mut out, ' ');
        n = n + 1;
        assert(out@ =~= text@ + Seq::new((n - count) as nat, |i: int| ' '));
    }
    assert(out@ =~= padded(text@, width as nat));
    out
}

/// A run of text in a tone.
pub fn segment(text: &str, tone: Tone) -> (r: Segment)
    ensures
        r@ == (text@, tone),
{
    Segment { text: owned(text), tone }
}

/// Add a line to a body.
pub fn push_line(out: &mut Vec<Vec<Segment>>, line: Vec<Segment>)
    ensures
        body_view(final(out)@) == body_view(old(out)@).push(line_view(line@)),
{
    let ghost before = out@;
    out.push(line);
    assert(body_view(out@) =~= body_view(before).push(line_view(line@)));
}

} // verus!
