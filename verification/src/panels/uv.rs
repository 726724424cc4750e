//! The texture-layout panel's view state.

use vstd::prelude::*;
use crate::keymap::{KeyCode, KeyEvent};

verus! {

#[derive(Debug, Clone, Copy, PartialEq, Eq, Structural)]
pub struct Uv {
    /// Whether the view frames just what is used rather than the whole
    /// square. The square by default, because how much of the layout is
    /// empty is one of the things this panel is for.
    pub zoomed: bool,
}

impl Default for Uv {
    fn default() -> (r: Uv)
        ensures
            !r.zoomed,
    {
        Uv { zoomed: false }
    }
}

impl Uv {
    /// The words this panel puts in its own top border.
    pub fn menu() -> (r: Vec<&'static str>)
        ensures
            r@.len() == 2,
            r@[0]@ == "set"@,
            r@[1]@ == "zoom"@,
    {
        vec!["set", "zoom"]
    }

    /// `z` toggles between the whole square and just what is used. Returns
    /// whether the view changed, which is what discards the cached plot.
    pub fn handle(&mut self, key: KeyEvent) -> (changed: bool)
        ensures
            changed <==> (key.code == KeyCode::Char('z') || key.code == KeyCode::Char('Z')),
            final(self).zoomed == (if changed {
                !old(self).zoomed
            } else {
                old(self).zoomed
            }),
    {
        match key.code {
            KeyCode::Char('z') | KeyCode::Char('Z') => {
                self.zoomed = !self.zoomed;
                true
            },
            _ => false,
        }
    }
}

} // verus!
