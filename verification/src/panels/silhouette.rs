//! The silhouette panel's view state: which way it looks, and whether it
//! keeps the model's proportions.

use vstd::prelude::*;
use crate::geometry::Axis;
use crate::keymap::{KeyCode, KeyEvent};

verus! {

#[derive(Debug, Clone, Copy, PartialEq, Eq, Structural)]
pub struct Silhouette {
    pub axis: Axis,
    /// Whether the model fills the panel rather than keeping its
    /// proportions. Off by default: a cell is about twice as tall as it is
    /// wide, and stretching would distort every model without saying so.
    pub stretch: bool,
}

impl Default for Silhouette {
    fn default() -> (r: Silhouette)
        ensures
            r.axis == Axis::Front,
            !r.stretch,
    {
        Silhouette { axis: Axis::Front, stretch: false }
    }
}

impl Silhouette {
    /// The words this panel puts in its own top border.
    pub fn menu() -> (r: Vec<&'static str>)
        ensures
            r@.len() == 2,
            r@[0]@ == "axis"@,
            r@[1]@ == "fit"@,
    {
        vec!["axis", "fit"]
    }

    /// Handle a key while focused: `x` turns to the next view, `f` toggles
    /// stretching. Returns whether the view changed, which is what discards
    /// the cached projection.
    pub fn handle(&mut self, key: KeyEvent) -> (changed: bool)
        ensures
            changed <==> (key.code == KeyCode::Char('x') || key.code == KeyCode::Char('X')
                || key.code == KeyCode::Char('f') || key.code == KeyCode::Char('F')),
            (key.code == KeyCode::Char('x') || key.code == KeyCode::Char('X')) ==> final(self).axis
                == old(self).axis.next_spec() && final(self).stretch == old(self).stretch,
            (key.code == KeyCode::Char('f') || key.code == KeyCode::Char('F')) ==> final(self).axis
                == old(self).axis && final(self).stretch == !old(self).stretch,
            !changed ==> *final(self) == *old(self),
    {
        match key.code {
            KeyCode::Char('x') | KeyCode::Char('X') => {
                self.axis = self.axis.next();
                true
            },
            KeyCode::Char('f') | KeyCode::Char('F') => {
                self.stretch = !self.stretch;
                true
            },
            _ => false,
        }
    }
}

} // verus!
