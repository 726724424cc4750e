//! The render dashboard's readouts, and the decisions its chrome makes: which
//! keys stop the render, and what the bottom row says.

use vstd::prelude::*;
use crate::keymap::{KeyCode, KeyEvent};
use crate::render_state::{RenderView, Request, Stage};
use crate::shell::{Flow, Input};
use crate::text::{chars_of, owned};

verus! {

/// The six readouts.
#[derive(Debug, Clone, Copy, PartialEq, Eq, Structural)]
pub enum DashPanel {
    /// The grid of tiles, filled as each converges.
    Tiles,
    /// The bar, the counts, the elapsed time and the estimate.
    Progress,
    /// What each stage took.
    Stages,
    /// What was asked for.
    Subject,
    /// Samples a second over time.
    Throughput,
    /// The picture so far.
    Picture,
}

impl Default for DashPanel {
    fn default() -> (r: DashPanel)
        ensures
            r == DashPanel::Progress,
    {
        DashPanel::Progress
    }
}

impl DashPanel {
    /// Every readout a reader can choose, in catalogue order.
    pub fn choosable() -> (r: Vec<DashPanel>)
        ensures
            r@ == seq![
                DashPanel::Progress,
                DashPanel::Tiles,
                DashPanel::Stages,
                DashPanel::Picture,
                DashPanel::Throughput,
                DashPanel::Subject,
            ],
    {
        let r = vec![
            DashPanel::Progress,
            DashPanel::Tiles,
            DashPanel::Stages,
            DashPanel::Picture,
            DashPanel::Throughput,
            DashPanel::Subject,
        ];
        assert(r@ =~= seq![
            DashPanel::Progress,
            DashPanel::Tiles,
            DashPanel::Stages,
            DashPanel::Picture,
            DashPanel::Throughput,
            DashPanel::Subject,
        ]);
        r
    }

    /// The order readouts leave in when the terminal is too narrow.
    pub fn elision_order() -> (r: Vec<DashPanel>)
        ensures
            r@ == seq![DashPanel::Picture, DashPanel::Throughput, DashPanel::Subject],
    {
        let r = vec![DashPanel::Picture, DashPanel::Throughput, DashPanel::Subject];
        assert(r@ =~= seq![DashPanel::Picture, DashPanel::Throughput, DashPanel::Subject]);
        r
    }

    pub open spec fn name_spec(self) -> Seq<char> {
        match self {
            DashPanel::Tiles => "tiles"@,
            DashPanel::Progress => "progress"@,
            DashPanel::Stages => "stages"@,
            DashPanel::Subject => "render"@,
            DashPanel::Throughput => "throughput"@,
            DashPanel::Picture => "picture"@,
        }
    }

    /// The name in the readout's top border.
    pub fn name(self) -> (r: &'static str)
        ensures
            r@ == self.name_spec(),
    {
        match self {
            DashPanel::Tiles => "tiles",
            DashPanel::Progress => "progress",
            DashPanel::Stages => "stages",
            DashPanel::Subject => "render",
            DashPanel::Throughput => "throughput",
            DashPanel::Picture => "picture",
        }
    }

    /// The readout a leaf falls back to.
    pub fn fallback() -> (r: DashPanel)
        ensures
            r == DashPanel::Progress,
    {
        DashPanel::Progress
    }
}

/// A readout: which one it is, and nothing else.
#[derive(Debug, Clone, Copy, PartialEq, Eq, Structural)]
pub struct Readout(pub DashPanel);

/// How the run ended, in the words the held frame states.
#[derive(Debug, PartialEq, Eq)]
pub enum Ending {
    Rendered,
    Failed(String),
    Cancelled,
}

/// The dashboard's own state: the render it watches, whether the reader
/// asked to stop, and, once the render has returned and the frame is held,
/// how it ended.
#[derive(Debug)]
pub struct Dashboard {
    pub view: RenderView,
    pub quit: bool,
    pub ending: Option<Ending>,
}

impl Dashboard {
    /// The surface over what the reader asked for, at time `now`.
    pub fn new(request: Request, now: u64) -> (r: Dashboard)
        ensures
            r.view.request == request,
            r.view.stage == Stage::Loading,
            r.view.timings@ == Seq::<(Stage, u64)>::empty(),
            r.view.stage_elapsed == 0,
            r.view.cook is None,
            r.view.triangles is None,
            r.view.tiles == 0 && r.view.columns == 0 && r.view.rows == 0,
            r.view.tile == 0 && r.view.sample == 0 && r.view.tile_samples == 0,
            r.view.elapsed == 0,
            r.view.throughput@ == Seq::<u64>::empty(),
            r.view.picture is None,
            !r.view.cancelling,
            r.view.stage_began_spec() == now,
            r.view.last_rate_spec() is None,
            !r.quit,
            r.ending is None,
    {
        Dashboard { view: RenderView::new(request, now), quit: false, ending: None }
    }

    /// What the surface is showing, for a caller that drives it.
    pub fn view_mut(&mut self) -> (r: &mut RenderView)
        ensures
            *r == old(self).view,
            final(self).view == *final(r),
            final(self).quit == old(self).quit,
            final(self).ending == old(self).ending,
    {
        &mut self.view
    }

    /// A key that stops the render asks it to, and the loop goes on: the
    /// render is what ends, by being asked to, and quitting here would leave
    /// it running with nothing watching.
    pub fn handle(&mut self, input: Input) -> (r: Flow)
        ensures
            r == Flow::Continue,
            final(self).ending == old(self).ending,
            (if input matches Input::Key(key) && (key.code == KeyCode::Char('q') || key.code
                == KeyCode::Char('Q') || key.code == KeyCode::Esc) {
                &&& final(self).view == (RenderView { cancelling: true, ..old(self).view })
                &&& final(self).quit
            } else {
                &&& final(self).view == old(self).view
                &&& final(self).quit == old(self).quit
            }),
    {
        if let Input::Key(key) = input {
            if stops_the_render(key) {
                self.view.cancelling = true;
                self.quit = true;
            }
        }
        Flow::Continue
    }
}

/// Whether a key asks the render to stop: `q` in either case, or escape.
pub fn stops_the_render(key: KeyEvent) -> (b: bool)
    ensures
        b == (key.code == KeyCode::Char('q') || key.code == KeyCode::Char('Q') || key.code
            == KeyCode::Esc),
{
    match key.code {
        KeyCode::Char('q') | KeyCode::Char('Q') | KeyCode::Esc => true,
        _ => false,
    }
}

/// The first line of a text.
pub open spec fn first_line(s: Seq<char>) -> Seq<char> {
    if exists|i: int| 0 <= i < s.len() && #[trigger] s[i] == '\n' {
        s.take(
            choose|i: int|
                0 <= i < s.len() && s[i] == '\n' && forall|j: int| 0 <= j < i ==> #[trigger] s[j] != '\n',
        )
    } else {
        s
    }
}

/// What the bottom row says, word by word: the key and what it does, then,
/// once the frame is held, how the run ended; while it runs, the stage's
/// last word if it has one.
pub open spec fn footer_words_spec(stage: Stage, output: Seq<char>, ending: Option<&Ending>) -> Seq<Seq<char>> {
    match ending {
        Some(e) => match *e {
            Ending::Rendered => seq![" q"@, "  dismiss"@, "   rendered "@, output],
            Ending::Failed(reason) => seq![" q"@, "  dismiss"@, "   failed: "@, first_line(reason@)],
            Ending::Cancelled => seq![" q"@, "  dismiss"@, "   cancelled"@],
        },
        None => match stage {
            Stage::Done => seq![" q"@, "  cancel"@, "   rendered"@],
            Stage::Failed => seq![" q"@, "  cancel"@, "   failed"@],
            _ => seq![" q"@, "  cancel"@],
        },
    }
}

pub open spec fn strings_view(v: Seq<String>) -> Seq<Seq<char>> {
    Seq::new(v.len(), |i: int| v[i]@)
}

fn first_line_of(s: &str) -> (r: String)
    ensures
        r@ == first_line(s@),
{
    let chars = chars_of(s);
    let mut i: usize = 0;
    while i < chars.len() && chars[i] != '\n'
        invariant
            0 <= i <= chars.len(),
            chars@ == s@,
            forall|j: int| 0 <= j < i ==> #[trigger] s@[j] != '\n',
        decreases chars.len() - i,
    {
        i = i + 1;
    }
    let mut line: Vec<char> = Vec::new();
    let mut k: usize = 0;
    while k < i
        invariant
            0 <= k <= i <= chars.len(),
            chars@ == s@,
            line@ == s@.take(k as int),
        decreases i - k,
    {
        line.push(chars[k]);
        k = k + 1;
        assert(line@ =~= s@.take(k as int));
    }
    proof {
        if i < chars.len() {
            let c = choose|c: int|
                0 <= c < s@.len() && s@[c] == '\n' && forall|j: int|
                    0 <= j < c ==> #[trigger] s@[j] != '\n';
            assert(s@[i as int] == '\n');
            if c < i {
                assert(s@[c] != '\n');
            }
            if i < c {
                assert(s@[i as int] != '\n');
            }
            assert(c == i);
        } else {
            assert(s@.take(i as int) =~= s@);
        }
    }
    crate::text::string_of(&line)
}

/// The bottom row's words, in order.
pub fn footer_words(stage: Stage, output: &str, ending: Option<&Ending>) -> (r: Vec<String>)
    ensures
        strings_view(r@) == footer_words_spec(stage, output@, ending),
{
    let mut r: Vec<String> = Vec::new();
    r.push(owned(" q"));
    match ending {
        Some(e) => {
            r.push(owned("  dismiss"));
            match e {
                Ending::Rendered => {
                    r.push(owned("   rendered "));
                    r.push(owned(output));
                },
                Ending::Failed(reason) => {
                    r.push(owned("   failed: "));
                    r.push(first_line_of(reason.as_str()));
                },
                Ending::Cancelled => {
                    r.push(owned("   cancelled"));
                },
            }
        },
        None => {
            r.push(owned("  cancel"));
            match stage {
                Stage::Done => {
                    r.push(owned("   rendered"));
                },
                Stage::Failed => {
                    r.push(owned("   failed"));
                },
                _ => {},
            }
        },
    }
    assert(strings_view(r@) =~= footer_words_spec(stage, output@, ending));
    r
}

} // verus!
