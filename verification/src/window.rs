//! The size a window showing a render opens at.

use vstd::prelude::*;

verus! {

/// The longest edge a window opens with, so a large render still fits a
/// screen.
pub const MAX_EDGE: u32 = 1280;

pub open spec fn window_size_spec(width: u32, height: u32) -> (u32, u32) {
    let w: int = if width < 1 { 1 } else { width as int };
    let h: int = if height < 1 { 1 } else { height as int };
    if w <= MAX_EDGE && h <= MAX_EDGE {
        (w as u32, h as u32)
    } else if w >= h {
        let s = MAX_EDGE * h / w;
        (MAX_EDGE, (if s < 1 { 1 } else { s }) as u32)
    } else {
        let s = MAX_EDGE * w / h;
        ((if s < 1 { 1 } else { s }) as u32, MAX_EDGE)
    }
}

/// The window size a picture wants: its own proportions, bounded by
/// [`MAX_EDGE`] on the longer side, and never an empty edge.
pub fn window_size(width: u32, height: u32) -> (r: (u32, u32))
    requires
        width >= height ==> MAX_EDGE * height <= u32::MAX,
        width < height ==> MAX_EDGE * width <= u32::MAX,
    ensures
        r == window_size_spec(width, height),
        1 <= r.0 <= MAX_EDGE,
        1 <= r.1 <= MAX_EDGE,
{
    let w = if width < 1 {
        1
    } else {
        width
    };
    let h = if height < 1 {
        1
    } else {
        height
    };
    if w <= MAX_EDGE && h <= MAX_EDGE {
        return (w, h);
    }
    if w >= h {
        assert(MAX_EDGE * h / (w as int) <= MAX_EDGE) by (nonlinear_arith)
            requires
                h <= w,
                w >= 1,
        ;
        let s = MAX_EDGE * h / w;
        (MAX_EDGE, if s < 1 {
            1
        } else {
            s
        })
    } else {
        assert(MAX_EDGE * w / (h as int) <= MAX_EDGE) by (nonlinear_arith)
            requires
                w < h,
                h >= 1,
        ;
        let s = MAX_EDGE * w / h;
        (if s < 1 {
            1
        } else {
            s
        }, MAX_EDGE)
    }
}

/// A finished frame as the window receives it.
#[derive(Debug, PartialEq, Eq)]
pub struct Frame {
    pub width: u32,
    pub height: u32,
    pub rgba: Vec<u8>,
}

impl Frame {
    /// The window size this picture wants.
    pub fn window_size(&self) -> (r: (u32, u32))
        requires
            self.width >= self.height ==> MAX_EDGE * self.height <= u32::MAX,
            self.width < self.height ==> MAX_EDGE * self.width <= u32::MAX,
        ensures
            r == window_size_spec(self.width, self.height),
    {
        window_size(self.width, self.height)
    }
}

} // verus!
