//! What the render dashboard's readouts say: each is a body of lines about
//! one render, with the tone each piece is painted in. The bar and the
//! percentage above the progress readout are drawn by the caller, and so
//! are the times: a span is written in seconds from floating point, which
//! the caller does, and handed in as text.

use vstd::prelude::*;
use crate::caps::GlyphTier;
use crate::glyphs::Glyphs;
use crate::lines::{body_view, line_view, pad, padded, push_line, segment, Segment, Tone};
use crate::render_state::{fit_spec, shading_spec, RenderView, Stage};
use crate::text::{decimal, owned, push_char, push_decimal, push_str};

verus! {

pub open spec fn texts(v: Seq<String>) -> Seq<Seq<char>> {
    Seq::new(v.len(), |i: int| v[i]@)
}

/// A labelled value: the label in a column `width` wide and a space, in the
/// secondary tone, then the value.
pub open spec fn field_spec(label: Seq<char>, value: Seq<char>, width: nat) -> Seq<(Seq<char>, Tone)> {
    seq![(padded(label, width) + seq![' '], Tone::Dim), (value, Tone::Ink)]
}

/// A labelled value, as the readouts list them.
pub fn field(label: &str, value: String, width: usize) -> (r: Vec<Segment>)
    ensures
        line_view(r@) == field_spec(label@, value@, width as nat),
{
    let ghost v = value@;
    let mut text = pad(label, width);
    push_char(&mut text, ' ');
    assert(text@ =~= padded(label@, width as nat) + seq![' ']);
    let r = vec![Segment { text, tone: Tone::Dim }, Segment { text: value, tone: Tone::Ink }];
    assert(line_view(r@) =~~= field_spec(label@, v, width as nat));
    r
}

// ---------------------------------------------------------------------------
// Stages.
// ---------------------------------------------------------------------------

/// Whether a stage is still under way.
pub open spec fn running(stage: Stage) -> bool {
    stage != Stage::Done && stage != Stage::Failed
}

/// A line a finished stage: its name and what it took, as `took` writes
/// it.
pub open spec fn timing_lines(timings: Seq<(Stage, u64)>, took: Seq<Seq<char>>) -> Seq<
    Seq<(Seq<char>, Tone)>,
> {
    Seq::new(timings.len(), |i: int| field_spec(timings[i].0.name_spec(), took[i], 10))
}

/// The stages readout: each finished stage with its time, then the stage
/// still running with its own elapsed time in the accent; before anything
/// has happened, only that.
pub open spec fn stages_spec(view: RenderView, took: Seq<Seq<char>>, running_for: Seq<char>) -> Seq<
    Seq<(Seq<char>, Tone)>,
> {
    let finished = timing_lines(view.timings@, took);
    let lines = if running(view.stage) {
        finished.push(
            seq![
                (
                    padded(view.stage.name_spec(), 10) + seq![' '] + running_for,
                    Tone::Accent,
                ),
            ],
        )
    } else {
        finished
    };
    if lines.len() == 0 {
        seq![seq![("nothing has finished yet"@, Tone::Dim)]]
    } else {
        lines
    }
}

/// What each finished stage took, and what the one running has taken so
/// far: its own elapsed time rather than a mark, because that number is what
/// a reader wondering whether it has stalled is after. `took` holds each
/// finished stage's time as written, and `running_for` the running stage's.
pub fn stages(view: &RenderView, took: &Vec<String>, running_for: &str) -> (r: Vec<Vec<Segment>>)
    requires
        took@.len() == view.timings@.len(),
    ensures
        body_view(r@) == stages_spec(*view, texts(took@), running_for@),
{
    let ghost tk = texts(took@);
    let mut out: Vec<Vec<Segment>> = Vec::new();
    let mut i: usize = 0;
    while i < view.timings.len()
        invariant
            i <= view.timings@.len(),
            took@.len() == view.timings@.len(),
            tk == texts(took@),
            body_view(out@) == timing_lines(view.timings@, tk).take(i as int),
        decreases view.timings@.len() - i,
    {
        let (stage, _span) = view.timings[i];
        let line = field(stage.name(), took[i].clone(), 10);
        push_line(&mut out, line);
        assert(timing_lines(view.timings@, tk).take(i + 1) =~= timing_lines(view.timings@, tk).take(
            i as int,
        ).push(line_view(line@)));
        i = i + 1;
    }
    assert(timing_lines(view.timings@, tk).take(i as int) =~= timing_lines(view.timings@, tk));
    if view.stage != Stage::Done && view.stage != Stage::Failed {
        let mut text = pad(view.stage.name(), 10);
        push_char(&mut text, ' ');
        push_str(&mut text, running_for);
        assert(text@ =~= padded(view.stage.name_spec(), 10) + seq![' '] + running_for@);
        let line = vec![Segment { text, tone: Tone::Accent }];
        assert(line_view(line@) =~~= seq![
            (
                padded(view.stage.name_spec(), 10) + seq![' '] + running_for@,
                Tone::Accent,
            ),
        ]);
        push_line(&mut out, line);
    }
    if out.len() == 0 {
        let line = vec![segment("nothing has finished yet", Tone::Dim)];
        assert(line_view(line@) =~= seq![("nothing has finished yet"@, Tone::Dim)]);
        push_line(&mut out, line);
    }
    assert(body_view(out@) =~= stages_spec(*view, tk, running_for@));
    out
}

// ---------------------------------------------------------------------------
// What was asked for.
// ---------------------------------------------------------------------------

/// A size as `WIDTHxHEIGHT`, or where it comes from when none was asked for.
pub open spec fn size_text(size: Option<(u32, u32)>) -> Seq<char> {
    match size {
        Some((w, h)) => decimal(w as nat) + "x"@ + decimal(h as nat),
        None => "from the scene"@,
    }
}

/// A line for a setting that was given, and none for one that was not.
pub open spec fn given_field(label: Seq<char>, value: Option<u64>) -> Seq<Seq<(Seq<char>, Tone)>> {
    match value {
        Some(v) => seq![field_spec(label, decimal(v as nat), 9)],
        None => Seq::empty(),
    }
}

pub open spec fn widened(value: Option<u32>) -> Option<u64> {
    match value {
        Some(v) => Some(v as u64),
        None => None,
    }
}

/// The subject readout: input, output, engine and size always, then the
/// samples, bounces, seed and triangle count that are known.
pub open spec fn subject_spec(view: RenderView) -> Seq<Seq<(Seq<char>, Tone)>> {
    let r = view.request;
    seq![
        field_spec("input"@, r.input@, 9),
        field_spec("output"@, r.output@, 9),
        field_spec(
            "engine"@,
            match r.engine {
                Some(e) => e@,
                None => "from the scene"@,
            },
            9,
        ),
        field_spec("size"@, size_text(r.size), 9),
    ] + given_field("samples"@, widened(r.samples)) + given_field("bounces"@, widened(r.bounces))
        + given_field("seed"@, widened(r.seed)) + given_field("triangles"@, view.triangles)
}

fn push_given(out: &mut Vec<Vec<Segment>>, label: &str, value: Option<u64>)
    ensures
        body_view(final(out)@) == body_view(old(out)@) + given_field(label@, value),
{
    let ghost before = body_view(out@);
    if let Some(v) = value {
        let mut text = String::new();
        push_decimal(&mut text, v);
        assert(text@ =~= decimal(v as nat));
        push_line(out, field(label, text, 9));
    }
    assert(body_view(out@) =~= before + given_field(label@, value));
}

/// What was asked for, so a screenshot of the dashboard says what it is a
/// render of.
pub fn subject(view: &RenderView) -> (r: Vec<Vec<Segment>>)
    ensures
        body_view(r@) == subject_spec(*view),
{
    let r = &view.request;
    let mut out: Vec<Vec<Segment>> = Vec::new();
    push_line(&mut out, field("input", r.input.clone(), 9));
    push_line(&mut out, field("output", r.output.clone(), 9));
    let engine = match &r.engine {
        Some(e) => e.clone(),
        None => owned("from the scene"),
    };
    push_line(&mut out, field("engine", engine, 9));
    let size = match r.size {
        Some((w, h)) => {
            let mut text = String::new();
            push_decimal(&mut text, w as u64);
            push_char(&mut text, 'x');
            push_decimal(&mut text, h as u64);
            proof {
                reveal_strlit("x");
            }
            assert(text@ =~= size_text(r.size));
            text
        },
        None => owned("from the scene"),
    };
    push_line(&mut out, field("size", size, 9));
    let ghost head = body_view(out@);
    push_given(&mut out, "samples", widen(r.samples));
    push_given(&mut out, "bounces", widen(r.bounces));
    push_given(&mut out, "seed", widen(r.seed));
    push_given(&mut out, "triangles", view.triangles);
    assert(body_view(out@) =~= subject_spec(*view));
    out
}

fn widen(value: Option<u32>) -> (r: Option<u64>)
    ensures
        r == widened(value),
{
    match value {
        Some(v) => Some(v as u64),
        None => None,
    }
}

// ---------------------------------------------------------------------------
// Progress, below the bar.
// ---------------------------------------------------------------------------

/// The line that says what the render is doing: that it is stopping, once
/// asked to, or the stage, coloured by how it ended.
pub open spec fn status_spec(view: RenderView) -> Seq<(Seq<char>, Tone)> {
    if view.cancelling {
        seq![("stopping"@, Tone::Warning)]
    } else {
        seq![
            (
                view.stage.name_spec(),
                match view.stage {
                    Stage::Done => Tone::Success,
                    Stage::Failed => Tone::Failure,
                    _ => Tone::Emphasis,
                },
            ),
        ]
    }
}

/// `a of b`.
pub open spec fn of_text(a: nat, b: nat) -> Seq<char> {
    decimal(a) + " of "@ + decimal(b)
}

/// The progress readout below the bar: the status, the samples once there
/// is a plan, the cook's pass while cooking, the elapsed time and the
/// estimate, or `-` while there is none, each time as the caller wrote it.
pub open spec fn progress_spec(view: RenderView, elapsed: Seq<char>, remaining: Option<Seq<char>>) -> Seq<
    Seq<(Seq<char>, Tone)>,
> {
    let drawn = view.samples_drawn_spec();
    let total = view.samples_total_spec();
    let samples = if total > 0 {
        seq![field_spec("samples"@, of_text(drawn as nat, total as nat), 9)]
    } else {
        Seq::empty()
    };
    let pass = match (view.stage, view.cook) {
        (Stage::Cooking, Some((p, n))) => seq![field_spec("pass"@, of_text(p as nat, n as nat), 9)],
        _ => Seq::empty(),
    };
    seq![status_spec(view)] + samples + pass + seq![
        field_spec("elapsed"@, elapsed, 9),
        field_spec(
            "remaining"@,
            match remaining {
                Some(t) => t,
                None => "-"@,
            },
            9,
        ),
    ]
}

fn of_string(a: u64, b: u64) -> (r: String)
    ensures
        r@ == of_text(a as nat, b as nat),
{
    let mut text = String::new();
    push_decimal(&mut text, a);
    push_str(&mut text, " of ");
    push_decimal(&mut text, b);
    assert(text@ =~= of_text(a as nat, b as nat));
    text
}

/// The four numbers a reader watching the bar wants, under the line that
/// says what the render is doing. `elapsed` is the time so far as written,
/// and `remaining` the estimate, when there is one.
pub fn progress(view: &RenderView, elapsed: &str, remaining: &Option<String>) -> (r: Vec<Vec<Segment>>)
    ensures
        body_view(r@) == progress_spec(
            *view,
            elapsed@,
            match remaining {
                Some(t) => Some(t@),
                None => None,
            },
        ),
{
    let mut out: Vec<Vec<Segment>> = Vec::new();
    let status = if view.cancelling {
        vec![segment("stopping", Tone::Warning)]
    } else {
        let tone = match view.stage {
            Stage::Done => Tone::Success,
            Stage::Failed => Tone::Failure,
            _ => Tone::Emphasis,
        };
        vec![segment(view.stage.name(), tone)]
    };
    assert(line_view(status@) =~= status_spec(*view));
    push_line(&mut out, status);
    let total = view.samples_total();
    if total > 0 {
        let drawn = view.samples_drawn();
        push_line(&mut out, field("samples", of_string(drawn, total), 9));
    }
    match (view.stage, view.cook) {
        (Stage::Cooking, Some((pass, passes))) => {
            push_line(&mut out, field("pass", of_string(pass as u64, passes as u64), 9));
        },
        _ => {},
    }
    push_line(&mut out, field("elapsed", owned(elapsed), 9));
    let left = match remaining {
        Some(t) => t.clone(),
        None => owned("-"),
    };
    push_line(&mut out, field("remaining", left, 9));
    assert(body_view(out@) =~= progress_spec(
        *view,
        elapsed@,
        match remaining {
            Some(t) => Some(t@),
            None => None,
        },
    ));
    out
}

// ---------------------------------------------------------------------------
// Throughput and the picture.
// ---------------------------------------------------------------------------

/// The most recent readings, as many as fit across `width` cells.
pub open spec fn throughput_tail(series: Seq<u64>, width: u16) -> Seq<u64> {
    let w = if width == 0 {
        1int
    } else {
        width as int
    };
    let start = if series.len() > w {
        series.len() - w
    } else {
        0
    };
    series.subrange(start, series.len() as int)
}

/// What the throughput readout shows: the readings that fit across `width`
/// cells, oldest first, and the latest of them; nothing before the first
/// reading.
pub fn throughput(view: &RenderView, width: u16) -> (r: Option<(Vec<u64>, u64)>)
    ensures
        match r {
            None => view.throughput@.len() == 0,
            Some((tail, latest)) => {
                &&& view.throughput@.len() > 0
                &&& tail@ == throughput_tail(view.throughput@, width)
                &&& latest == view.throughput@.last()
            },
        },
{
    let len = view.throughput.len();
    if len == 0 {
        return None;
    }
    let w: usize = if width == 0 {
        1
    } else {
        width as usize
    };
    let start: usize = if len > w {
        len - w
    } else {
        0
    };
    let mut tail: Vec<u64> = Vec::new();
    let mut i: usize = start;
    while i < len
        invariant
            len == view.throughput@.len(),
            start <= i <= len,
            tail@ == view.throughput@.subrange(start as int, i as int),
        decreases len - i,
    {
        tail.push(view.throughput[i]);
        i = i + 1;
        assert(tail@ =~= view.throughput@.subrange(start as int, i as int));
    }
    let latest = view.throughput[len - 1];
    Some((tail, latest))
}

/// The picture readout: before a tile has finished, only that; then the
/// picture as rows of shading fitted into `columns` by `rows`, each to be
/// centred across the panel.
pub open spec fn picture_spec(view: RenderView, columns: u16, rows: u16, tier: GlyphTier) -> Seq<
    Seq<(Seq<char>, Tone)>,
> {
    match view.picture {
        None => seq![seq![("no tile has finished yet"@, Tone::Dim)]],
        Some(p) => {
            let fitted = fit_spec(p.width, p.height, columns, rows);
            let shading = shading_spec(p, fitted.0, fitted.1, tier);
            Seq::new(shading.len(), |i: int| seq![(shading[i], Tone::Ink)])
        },
    }
}

/// The picture so far, in shading.
pub fn picture(view: &RenderView, columns: u16, rows: u16, glyphs: &Glyphs) -> (r: Vec<Vec<Segment>>)
    requires
        view.picture matches Some(p) ==> {
            &&& p.width * 2 <= u32::MAX
            &&& p.height * p.width <= u32::MAX + 1
            &&& columns * p.height <= u32::MAX
            &&& columns * p.width <= u32::MAX
            &&& rows * p.width * 2 <= u32::MAX
            &&& rows * p.height <= u32::MAX
        },
    ensures
        body_view(r@) == picture_spec(*view, columns, rows, glyphs.tier),
{
    match &view.picture {
        None => {
            let line = vec![segment("no tile has finished yet", Tone::Dim)];
            assert(line_view(line@) =~~= seq![("no tile has finished yet"@, Tone::Dim)]);
            let r = vec![line];
            assert(body_view(r@) =~~= picture_spec(*view, columns, rows, glyphs.tier));
            r
        },
        Some(p) => {
            let (c, h) = p.fit(columns, rows);
            proof {
                if c > 0 && h > 0 {
                    assert((h - 1) * p.height <= rows * p.height) by (nonlinear_arith)
                        requires
                            h <= rows,
                    ;
                    assert((c - 1) * p.width <= columns * p.width) by (nonlinear_arith)
                        requires
                            c <= columns,
                    ;
                }
            }
            let shading = p.rows(c, h, glyphs);
            let ghost s = shading_spec(*p, c, h, glyphs.tier);
            let mut out: Vec<Vec<Segment>> = Vec::new();
            let mut i: usize = 0;
            while i < shading.len()
                invariant
                    i <= shading@.len(),
                    shading@.len() == s.len(),
                    forall|t: int| 0 <= t < shading@.len() ==> #[trigger] shading@[t]@ == s[t],
                    body_view(out@) == Seq::new(i as nat, |k: int| seq![(s[k], Tone::Ink)]),
                decreases shading@.len() - i,
            {
                let line = vec![Segment { text: shading[i].clone(), tone: Tone::Ink }];
                assert(line_view(line@) =~= seq![(s[i as int], Tone::Ink)]);
                push_line(&mut out, line);
                i = i + 1;
                assert(body_view(out@) =~= Seq::new(i as nat, |k: int| seq![(s[k], Tone::Ink)]));
            }
            assert(body_view(out@) =~= picture_spec(*view, columns, rows, glyphs.tier));
            out
        },
    }
}

} // verus!
