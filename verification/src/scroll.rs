//! Scrolling that counts what the terminal draws, not what was written.
//!
//! One [`Extent`] describes the content, [`Scroll`] owns nothing but an
//! offset, and the clamp, the counter and the scrollbar are all derived from
//! that single value, so they cannot disagree. [`rendered_rows`] measures a
//! wrapping body with the same word wrapper the renderer runs.

use vstd::prelude::*;
use ratatui::text::{Line, Text};
use ratatui::widgets::{Paragraph, Wrap};

verus! {

/// How tall the content is and how much of it fits, both in rendered rows.
#[derive(Debug, Clone, Copy, PartialEq, Eq)]
pub struct Extent {
    /// Rows the content occupies once drawn.
    pub rendered_rows: u16,
    /// Rows visible at once, inside any border.
    pub viewport_rows: u16,
}

impl Default for Extent {
    fn default() -> (r: Extent)
        ensures
            r.rendered_rows == 0,
            r.viewport_rows == 0,
    {
        Extent { rendered_rows: 0, viewport_rows: 0 }
    }
}

impl Extent {
    pub fn new(rendered_rows: u16, viewport_rows: u16) -> (r: Extent)
        ensures
            r.rendered_rows == rendered_rows,
            r.viewport_rows == viewport_rows,
    {
        Extent { rendered_rows, viewport_rows }
    }

    pub open spec fn max_offset_spec(self) -> u16 {
        if self.rendered_rows > self.viewport_rows {
            (self.rendered_rows - self.viewport_rows) as u16
        } else {
            0
        }
    }

    /// The largest offset that still fills the viewport. Content shorter than
    /// the viewport pins to zero rather than allowing a scroll into blank
    /// space.
    pub fn max_offset(self) -> (r: u16)
        ensures
            r == self.max_offset_spec(),
    {
        self.rendered_rows.saturating_sub(self.viewport_rows)
    }

    /// Whether there is anything to scroll, and so whether a scrollbar earns
    /// its column.
    pub fn overflows(self) -> (b: bool)
        ensures
            b == (self.rendered_rows > self.viewport_rows),
    {
        self.rendered_rows > self.viewport_rows
    }
}

/// A scroll position, clamped against an [`Extent`] on every read, so a
/// position that was legal before a resize cannot survive it.
#[derive(Debug, Clone, Copy, PartialEq, Eq)]
pub struct Scroll {
    offset: u16,
}

impl Default for Scroll {
    fn default() -> (r: Scroll)
        ensures
            r.stored() == 0,
    {
        Scroll { offset: 0 }
    }
}

impl Scroll {
    /// The offset as last written, before any clamp.
    pub closed spec fn stored(self) -> u16 {
        self.offset
    }

    pub open spec fn offset_spec(self, extent: Extent) -> u16 {
        if self.stored() <= extent.max_offset_spec() {
            self.stored()
        } else {
            extent.max_offset_spec()
        }
    }

    pub open spec fn position_spec(self, extent: Extent) -> (u16, u16) {
        let next = self.offset_spec(extent) + 1;
        let first = if next <= extent.rendered_rows {
            next
        } else {
            extent.rendered_rows as int
        };
        (first as u16, extent.rendered_rows)
    }

    /// The first visible row, clamped to what the extent allows.
    pub fn offset(self, extent: Extent) -> (r: u16)
        ensures
            r == self.offset_spec(extent),
            r <= extent.max_offset_spec(),
    {
        let max = extent.max_offset();
        if self.offset <= max {
            self.offset
        } else {
            max
        }
    }

    /// Up by some rows; the top is a floor.
    pub fn up(&mut self, rows: u16)
        ensures
            final(self).stored() == (if old(self).stored() >= rows {
                old(self).stored() - rows
            } else {
                0
            }),
    {
        self.offset = self.offset.saturating_sub(rows);
    }

    /// Down by some rows; the last row that still fills the viewport is a
    /// ceiling.
    pub fn down(&mut self, rows: u16, extent: Extent)
        ensures
            final(self).stored() == (if old(self).stored() + rows <= extent.max_offset_spec() {
                old(self).stored() + rows
            } else {
                extent.max_offset_spec() as int
            }),
    {
        let moved = self.offset.saturating_add(rows);
        let max = extent.max_offset();
        self.offset = if moved <= max {
            moved
        } else {
            max
        };
    }

    pub fn first(&mut self)
        ensures
            final(self).stored() == 0,
    {
        self.offset = 0;
    }

    /// Jump to the true last row: the real maximum, not a sentinel left for
    /// the draw to clamp.
    pub fn last(&mut self, extent: Extent)
        ensures
            final(self).stored() == extent.max_offset_spec(),
    {
        self.offset = extent.max_offset();
    }

    /// The `[n/total]` readout: the first visible row, one based, over the
    /// total rendered rows.
    pub fn position(self, extent: Extent) -> (r: (u16, u16))
        ensures
            r == self.position_spec(extent),
    {
        let first = self.offset(extent).saturating_add(1);
        let first = if first <= extent.rendered_rows {
            first
        } else {
            extent.rendered_rows
        };
        (first, extent.rendered_rows)
    }

    /// What a scrollbar is built from: the content length, the position of
    /// its thumb and the viewport length, all in rendered rows.
    pub fn scrollbar(self, extent: Extent) -> (r: (usize, usize, usize))
        ensures
            r.0 == extent.rendered_rows,
            r.1 == self.offset_spec(extent),
            r.2 == extent.viewport_rows,
    {
        (extent.rendered_rows as usize, self.offset(extent) as usize, extent.viewport_rows as usize)
    }
}

/// The offset a reader sees never runs past the content, whatever was stored
/// before the extent changed, and the readout never counts past the total.
pub proof fn law_reads_are_clamped(scroll: Scroll, extent: Extent)
    ensures
        scroll.offset_spec(extent) <= extent.max_offset_spec(),
        scroll.position_spec(extent).0 <= scroll.position_spec(extent).1,
        scroll.position_spec(extent).1 == extent.rendered_rows,
        extent.rendered_rows > 0 ==> scroll.position_spec(extent).0 >= 1,
        !(extent.rendered_rows > extent.viewport_rows) ==> scroll.offset_spec(extent) == 0,
{
}

/// The number of rows a wrapping body of plain lines occupies at a width,
/// as the terminal library's word wrapper lays it out.
pub uninterp spec fn wrapped_rows(lines: Seq<Seq<char>>, width: u16) -> nat;

/// The views of a list of strings.
pub open spec fn views(lines: Seq<String>) -> Seq<Seq<char>> {
    Seq::new(lines.len(), |i: int| lines[i]@)
}

/// `Paragraph::line_count` with wrapping that keeps leading space: zero at
/// a width of zero, otherwise the rows its word wrapper lays the lines out
/// in.
#[verifier::external_body]
fn paragraph_line_count(lines: &Vec<String>, width: u16) -> (r: usize)
    ensures
        width == 0 ==> r == 0,
        width > 0 ==> r == wrapped_rows(views(lines@), width),
{
    let text = Text::from(lines.iter().map(|l| Line::from(l.as_str())).collect::<Vec<_>>());
    Paragraph::new(text).wrap(Wrap { trim: false }).line_count(width)
}

/// Rows a wrapping body occupies at an inner width, saturating at the
/// largest row count a terminal can address.
pub fn rendered_rows(lines: &Vec<String>, width: u16) -> (r: u16)
    ensures
        width == 0 ==> r == 0,
        width > 0 ==> r == (if wrapped_rows(views(lines@), width) <= u16::MAX {
            wrapped_rows(views(lines@), width) as int
        } else {
            u16::MAX as int
        }),
{
    let count = paragraph_line_count(lines, width);
    if count <= u16::MAX as usize {
        count as u16
    } else {
        u16::MAX
    }
}

} // verus!
