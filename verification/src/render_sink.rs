//! The plain progress sink: one line on standard error, and the rules for
//! when to redraw it.
//!
//! On a terminal the line is rewritten in place as often as the render
//! reports. Anywhere else it is written once per step, where a step is a
//! stage or, while drawing, a tile, so a log keeps one line per step rather
//! than one per sample. This type decides what to write; the caller writes
//! it.

use vstd::prelude::*;
use crate::render_state::Progress;
use crate::text::{decimal, owned, push_char, push_decimal, push_str};

verus! {

/// What a step is, for deciding whether a log writes again.
#[derive(Debug, Clone, Copy, PartialEq, Eq, Structural)]
pub enum Step {
    Loading,
    Cooking,
    BuildingHierarchy,
    /// Carries the tile, so moving to the next one is a new step.
    Sampling(u32),
    Writing,
    Ended,
}

pub open spec fn step_spec(p: Progress) -> Step {
    match p {
        Progress::Loading => Step::Loading,
        Progress::Cooking { .. } => Step::Cooking,
        Progress::BuildingHierarchy { .. } => Step::BuildingHierarchy,
        Progress::Sampling { tile, .. } => Step::Sampling(tile),
        Progress::Writing { .. } => Step::Writing,
        Progress::Done { .. } | Progress::Failed { .. } => Step::Ended,
    }
}

fn step_of(p: &Progress) -> (s: Step)
    ensures
        s == step_spec(*p),
{
    match p {
        Progress::Loading => Step::Loading,
        Progress::Cooking { .. } => Step::Cooking,
        Progress::BuildingHierarchy { .. } => Step::BuildingHierarchy,
        Progress::Sampling { tile, .. } => Step::Sampling(*tile),
        Progress::Writing { .. } => Step::Writing,
        Progress::Done { .. } | Progress::Failed { .. } => Step::Ended,
    }
}

/// What one event says, in a line. `live` is whether the line will be
/// rewritten, which is when the sample count is worth showing; `took` is the
/// event's elapsed time in seconds as the caller writes it, which a drawing
/// or a finished event carries.
pub open spec fn line_spec(p: Progress, live: bool, took: Seq<char>) -> Seq<char> {
    match p {
        Progress::Loading => "loading"@,
        Progress::Cooking { pass, passes } => "cooking, pass "@ + decimal(pass as nat) + " of "@
            + decimal(passes as nat),
        Progress::BuildingHierarchy { triangles } => "building the ray hierarchy over "@ + decimal(
            triangles as nat,
        ) + " triangles"@,
        Progress::Sampling { tile, tiles, sample, samples, .. } => if live {
            "tile "@ + decimal((tile + 1) as nat) + " of "@ + decimal(tiles as nat) + ", sample "@
                + decimal(sample as nat) + " of "@ + decimal(samples as nat) + ", "@ + took
        } else {
            "tile "@ + decimal((tile + 1) as nat) + " of "@ + decimal(tiles as nat) + ", "@ + decimal(
                samples as nat,
            ) + " samples, "@ + took
        },
        Progress::Writing { output } => "writing "@ + output@,
        Progress::Done { .. } => "done in "@ + took,
        Progress::Failed { stage } => "failed while "@ + stage@,
    }
}

/// What one event says, in a line.
pub fn line(progress: &Progress, live: bool, took: &str) -> (r: String)
    ensures
        r@ == line_spec(*progress, live, took@),
{
    let mut out = String::new();
    match progress {
        Progress::Loading => {
            push_str(&mut out, "loading");
        },
        Progress::Cooking { pass, passes } => {
            push_str(&mut out, "cooking, pass ");
            push_decimal(&mut out, *pass as u64);
            push_str(&mut out, " of ");
            push_decimal(&mut out, *passes as u64);
        },
        Progress::BuildingHierarchy { triangles } => {
            push_str(&mut out, "building the ray hierarchy over ");
            push_decimal(&mut out, *triangles);
            push_str(&mut out, " triangles");
        },
        Progress::Sampling { tile, tiles, sample, samples, .. } => {
            push_str(&mut out, "tile ");
            push_decimal(&mut out, *tile as u64 + 1);
            push_str(&mut out, " of ");
            push_decimal(&mut out, *tiles as u64);
            if live {
                push_str(&mut out, ", sample ");
                push_decimal(&mut out, *sample as u64);
                push_str(&mut out, " of ");
                push_decimal(&mut out, *samples as u64);
                push_str(&mut out, ", ");
            } else {
                push_str(&mut out, ", ");
                push_decimal(&mut out, *samples as u64);
                push_str(&mut out, " samples, ");
            }
            push_str(&mut out, took);
        },
        Progress::Writing { output } => {
            push_str(&mut out, "writing ");
            push_str(&mut out, output.as_str());
        },
        Progress::Done { .. } => {
            push_str(&mut out, "done in ");
            push_str(&mut out, took);
        },
        Progress::Failed { stage } => {
            push_str(&mut out, "failed while ");
            push_str(&mut out, stage.as_str());
        },
    }
    assert(out@ =~= line_spec(*progress, live, took@));
    out
}

/// Progress as a line: rewritten in place on a terminal, one line per step
/// anywhere else.
#[derive(Debug, Clone, Copy, PartialEq, Eq, Structural)]
pub struct PlainSink {
    /// Whether to rewrite one line in place. False for a pipe or a file.
    pub interactive: bool,
    /// The step last reported.
    pub last: Option<Step>,
    /// How wide the line being overwritten was, so a shorter one following a
    /// longer one leaves nothing of the longer behind.
    pub painted: usize,
}

pub open spec fn spaces(n: nat) -> Seq<char> {
    Seq::new(n, |i: int| ' ')
}

impl PlainSink {
    pub fn new(interactive: bool) -> (r: PlainSink)
        ensures
            r.interactive == interactive,
            r.last is None,
            r.painted == 0,
    {
        PlainSink { interactive, last: None, painted: 0 }
    }

    /// The text one event writes, if any, and the sink after it.
    pub open spec fn report_spec(self, progress: Progress, took: Seq<char>) -> (Option<Seq<char>>, PlainSink) {
        let step = step_spec(progress);
        if !self.interactive {
            if self.last == Some(step) {
                (None, self)
            } else {
                (
                    Some(line_spec(progress, false, took) + seq!['\n']),
                    PlainSink { last: Some(step), ..self },
                )
            }
        } else {
            let text = line_spec(progress, true, took);
            let pad: nat = if self.painted >= text.len() {
                (self.painted - text.len()) as nat
            } else {
                0
            };
            let written = seq!['\r'] + text + spaces(pad);
            if step == Step::Ended {
                (Some(written + seq!['\n']), PlainSink { last: Some(step), painted: 0, ..self })
            } else {
                (Some(written), PlainSink { last: Some(step), painted: text.len() as usize, ..self })
            }
        }
    }

    /// Report one event: what to write, if anything. A log skips an event of
    /// the step it last wrote; a terminal returns to the start of the line,
    /// blanks what is left of a longer line, and ends the line when the run
    /// ends.
    pub fn report(&mut self, progress: &Progress, took: &str) -> (r: Option<String>)
        requires
            progress matches Progress::Sampling { tile, .. } ==> tile < u32::MAX,
        ensures
            match (r, old(self).report_spec(*progress, took@).0) {
                (Some(s), Some(w)) => s@ == w,
                (None, None) => true,
                _ => false,
            },
            *final(self) == old(self).report_spec(*progress, took@).1,
    {
        let step = step_of(progress);
        if !self.interactive {
            if self.last == Some(step) {
                return None;
            }
            self.last = Some(step);
            let mut out = line(progress, false, took);
            push_char(&mut out, '\n');
            return Some(out);
        }
        self.last = Some(step);
        let text = line(progress, true, took);
        let count = crate::text::chars_of(text.as_str()).len();
        let pad = self.painted.saturating_sub(count);
        self.painted = count;
        let mut out = owned("\r");
        push_str(&mut out, text.as_str());
        let ghost before = out@;
        let mut i: usize = 0;
        while i < pad
            invariant
                0 <= i <= pad,
                out@ == before + spaces(i as nat),
            decreases pad - i,
        {
            push_char(&mut out, ' ');
            i = i + 1;
            assert(out@ =~= before + spaces(i as nat));
        }
        if step == Step::Ended {
            push_char(&mut out, '\n');
            self.painted = 0;
        }
        proof {
            reveal_strlit("\r");
        }
        assert(out@ =~= old(self).report_spec(*progress, took@).0.unwrap());
        Some(out)
    }
}

/// A log never writes two lines for one step in a row, whatever times the
/// two events carry.
pub proof fn law_one_line_per_step(
    sink: PlainSink,
    a: Progress,
    ta: Seq<char>,
    b: Progress,
    tb: Seq<char>,
)
    requires
        !sink.interactive,
        step_spec(a) == step_spec(b),
    ensures
        sink.report_spec(a, ta).1.report_spec(b, tb).0 is None,
{
}

} // verus!
