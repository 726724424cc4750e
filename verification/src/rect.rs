use vstd::prelude::*;

verus! {

/// A rectangle of terminal cells.
#[derive(Debug, Clone, Copy, PartialEq, Eq, Default)]
pub struct Rect {
    pub x: u16,
    pub y: u16,
    pub width: u16,
    pub height: u16,
}

impl Rect {
    /// A rect is well formed when its far edges are addressable cells.
    pub open spec fn wf(self) -> bool {
        &&& self.x + self.width <= u16::MAX
        &&& self.y + self.height <= u16::MAX
    }

    pub open spec fn area(self) -> int {
        self.width * self.height
    }

    /// A rect whose width and height are clamped so that its right and bottom
    /// edges stay addressable.
    pub fn new(x: u16, y: u16, width: u16, height: u16) -> (r: Rect)
        ensures
            r.x == x,
            r.y == y,
            r.width == (if x + width <= u16::MAX { width as int } else { u16::MAX - x }),
            r.height == (if y + height <= u16::MAX { height as int } else { u16::MAX - y }),
            r.wf(),
    {
        let max_width = u16::MAX - x;
        let max_height = u16::MAX - y;
        let width = if width > max_width { max_width } else { width };
        let height = if height > max_height { max_height } else { height };
        Rect { x, y, width, height }
    }

    /// The column just past the right edge, saturating.
    pub fn right(self) -> (r: u16)
        ensures
            r == (if self.x + self.width <= u16::MAX { self.x + self.width } else { u16::MAX as int }),
    {
        self.x.saturating_add(self.width)
    }

    /// The row just past the bottom edge, saturating.
    pub fn bottom(self) -> (r: u16)
        ensures
            r == (if self.y + self.height <= u16::MAX { self.y + self.height } else { u16::MAX as int }),
    {
        self.y.saturating_add(self.height)
    }
}

} // verus!
