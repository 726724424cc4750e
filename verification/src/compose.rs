//! One frame of the analyze surface, composed: where each panel goes, what
//! its borders say, and which one is drawn focused. Rendering it is the
//! caller's.

use vstd::prelude::*;
use crate::chrome::{border_bottom, border_title, bottom_spec, title_spec};
use crate::frame::{count_focused, law_one_focused_panel};
use crate::glyphs::Glyphs;
use crate::keymap::word_views;
use crate::layout::{LeafId, PanelType, Placement};
use crate::lines::{line_view, Segment};
use crate::rect::Rect;
use crate::surface::{pane, pane_spec, App, AppView};

verus! {

/// One panel as this frame draws it.
#[derive(Debug)]
pub struct PanelFrame {
    pub id: LeafId,
    pub panel: PanelType,
    /// Where its bordered block goes.
    pub rect: Rect,
    /// Its top border's words.
    pub title: Vec<Segment>,
    /// Its bottom border's words, if it has any.
    pub bottom: Option<Segment>,
    /// Whether it is drawn with the focused border set.
    pub focused: bool,
}

/// Where the panels land this frame: the arrangement as elided for the
/// pane's width, solved in the pane with the maximized panel, if any.
pub open spec fn shown_spec(s: AppView, area: Rect) -> Seq<Placement> {
    let p = pane_spec(area);
    s.layout.elided_spec(p.width).solve_spec(p, s.maximized)
}

/// The frame the surface draws for one panel, given the focused panel's
/// menu words, its filter counts and its status.
pub open spec fn panel_frame_spec(
    s: AppView,
    p: Placement,
    menu: Seq<Seq<char>>,
    counts: Option<(usize, usize)>,
    status: Option<Seq<char>>,
    tier: crate::caps::GlyphTier,
    caret: Seq<char>,
    f: PanelFrame,
) -> bool {
    &&& f.id == p.id
    &&& f.panel == p.panel
    &&& f.rect == p.rect
    &&& f.focused == p.focused
    &&& line_view(f.title@) == title_spec(p, menu, s.filtering, tier, caret, s.arranging)
    &&& match f.bottom {
        Some(seg) => bottom_spec(p.focused, s.notice, s.filtering is Some, counts, status) == Some(
            seg@,
        ),
        None => bottom_spec(p.focused, s.notice, s.filtering is Some, counts, status) is None,
    }
}

/// The footer's row: the last row of the terminal.
pub fn footer_row(area: Rect) -> (r: Rect)
    requires
        area.wf(),
        area.height >= 1,
    ensures
        r == (Rect { x: area.x, y: (area.y + area.height - 1) as u16, width: area.width, height: 1 }),
{
    Rect { x: area.x, y: area.y + (area.height - 1), width: area.width, height: 1 }
}

impl App {
    /// Every panel of this frame, in the order the solve gives them: its
    /// place, its title and bottom line, and whether it takes the focused
    /// border set, which exactly one does. `menu`, `counts` and `status` are
    /// those of the panel whose placement holds focus.
    pub fn frames(
        &self,
        area: Rect,
        glyphs: &Glyphs,
        menu: &Vec<&'static str>,
        counts: Option<(usize, usize)>,
        status: &Option<String>,
    ) -> (r: Vec<PanelFrame>)
        requires
            area.wf(),
        ensures
            r@.len() == shown_spec(self@, area).len(),
            forall|i: int|
                0 <= i < r@.len() ==> panel_frame_spec(
                    self@,
                    shown_spec(self@, area)[i],
                    word_views(menu@),
                    counts,
                    match status {
                        Some(t) => Some(t@),
                        None => None,
                    },
                    glyphs.tier,
                    glyphs.caret@,
                    #[trigger] r@[i],
                ),
            count_focused(shown_spec(self@, area)) == 1,
    {
        let pane = pane(area);
        let shown = self.layout.elided(pane.width);
        proof {
            use_type_invariant(&shown);
            law_one_focused_panel(shown, pane, self.maximized);
        }
        let placements = shown.solve(pane, self.maximized);
        let ghost st = match status {
            Some(t) => Some(t@),
            None => None,
        };
        let mut out: Vec<PanelFrame> = Vec::new();
        let mut i: usize = 0;
        while i < placements.len()
            invariant
                placements@ == shown_spec(self@, area),
                i <= placements@.len(),
                out@.len() == i,
                st == (match status {
                    Some(t) => Some(t@),
                    None => None,
                }),
                forall|k: int|
                    0 <= k < i ==> panel_frame_spec(
                        self@,
                        placements@[k],
                        word_views(menu@),
                        counts,
                        st,
                        glyphs.tier,
                        glyphs.caret@,
                        #[trigger] out@[k],
                    ),
            decreases placements@.len() - i,
        {
            let p = placements[i];
            let title = border_title(&p, menu, &self.filtering, glyphs, self.arranging);
            let bottom = border_bottom(
                p.focused,
                &self.notice,
                self.filtering.is_some(),
                counts,
                status,
            );
            out.push(PanelFrame { id: p.id, panel: p.panel, rect: p.rect, title, bottom, focused: p.focused });
            i = i + 1;
        }
        out
    }
}

} // verus!
