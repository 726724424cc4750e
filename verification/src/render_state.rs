//! What the render dashboard is about: one render, as its own stream
//! describes it.
//!
//! Every number here either arrives on a [`Progress`] event or is arithmetic
//! on numbers that did. Stage durations are the one thing measured rather
//! than reported: wall time between events, in milliseconds of a clock the
//! caller reads. Three things a dashboard shows are floating point and the
//! caller computes them: the estimate of the time left, a span written in
//! seconds, and the reduction of a colour picture to luminance.

use vstd::prelude::*;
use crate::caps::GlyphTier;
use crate::glyphs::{ramp_spec, rung_spec, Glyphs};
use crate::lines::{body_view, line_view, push_line, segment, Segment, Tone};
use crate::text::{owned, push_str};
use crate::text::{decimal, push_char, push_decimal};

verus! {

/// How many throughput readings the sparkline keeps.
pub const THROUGHPUT_HISTORY: usize = 96;

/// The least time between two throughput readings, in milliseconds.
pub const THROUGHPUT_INTERVAL_MS: u64 = 250;

/// A named step of a render, in the order they happen.
#[derive(Debug, Clone, Copy, PartialEq, Eq, Structural)]
pub enum Stage {
    Loading,
    Cooking,
    BuildingHierarchy,
    Drawing,
    Writing,
    Done,
    Failed,
}

impl Stage {
    pub open spec fn name_spec(self) -> Seq<char> {
        match self {
            Stage::Loading => "loading"@,
            Stage::Cooking => "cooking"@,
            Stage::BuildingHierarchy => "hierarchy"@,
            Stage::Drawing => "drawing"@,
            Stage::Writing => "writing"@,
            Stage::Done => "done"@,
            Stage::Failed => "failed"@,
        }
    }

    /// The word the timings panel puts in its left column.
    pub fn name(self) -> (r: &'static str)
        ensures
            r@ == self.name_spec(),
    {
        match self {
            Stage::Loading => "loading",
            Stage::Cooking => "cooking",
            Stage::BuildingHierarchy => "hierarchy",
            Stage::Drawing => "drawing",
            Stage::Writing => "writing",
            Stage::Done => "done",
            Stage::Failed => "failed",
        }
    }
}

/// One event of a render's progress stream, with the figures the surfaces
/// read.
#[derive(Debug, PartialEq, Eq)]
pub enum Progress {
    Loading,
    Cooking { pass: u32, passes: u32 },
    BuildingHierarchy { triangles: u64 },
    Sampling { tile: u32, tiles: u32, columns: u32, rows: u32, sample: u32, samples: u32, elapsed_ms: u64 },
    /// Writing the image to where it goes.
    Writing { output: String },
    Done { elapsed_ms: u64 },
    /// The render failed while in a stage, named as a person would say it.
    Failed { stage: String },
}

pub open spec fn stage_of(p: Progress) -> Stage {
    match p {
        Progress::Loading => Stage::Loading,
        Progress::Cooking { .. } => Stage::Cooking,
        Progress::BuildingHierarchy { .. } => Stage::BuildingHierarchy,
        Progress::Sampling { .. } => Stage::Drawing,
        Progress::Writing { .. } => Stage::Writing,
        Progress::Done { .. } => Stage::Done,
        Progress::Failed { .. } => Stage::Failed,
    }
}

impl Stage {
    /// The stage an event belongs to.
    fn of(p: &Progress) -> (s: Stage)
        ensures
            s == stage_of(*p),
    {
        match p {
            Progress::Loading => Stage::Loading,
            Progress::Cooking { .. } => Stage::Cooking,
            Progress::BuildingHierarchy { .. } => Stage::BuildingHierarchy,
            Progress::Sampling { .. } => Stage::Drawing,
            Progress::Writing { .. } => Stage::Writing,
            Progress::Done { .. } => Stage::Done,
            Progress::Failed { .. } => Stage::Failed,
        }
    }
}

/// The picture so far, reduced to one luminance byte a pixel.
#[derive(Debug, PartialEq, Eq)]
pub struct Picture {
    pub width: u32,
    pub height: u32,
    pub luma: Vec<u8>,
}

/// What the reader asked for, which does not change while it runs. Each
/// setting is optional because the scene decides what a flag does not.
#[derive(Debug, PartialEq, Eq)]
pub struct Request {
    pub input: String,
    pub output: String,
    pub engine: Option<String>,
    pub size: Option<(u32, u32)>,
    pub samples: Option<u32>,
    pub bounces: Option<u32>,
    pub seed: Option<u32>,
}

/// One render, as the dashboard reads it. Times are milliseconds.
#[derive(Debug)]
pub struct RenderView {
    pub request: Request,
    pub stage: Stage,
    /// Every stage that has finished, and how long it took.
    pub timings: Vec<(Stage, u64)>,
    /// How long the stage now running has been running.
    pub stage_elapsed: u64,
    /// The cook's own pass counter, while cooking.
    pub cook: Option<(u32, u32)>,
    pub triangles: Option<u64>,
    /// The plan: how many tiles, and the shape they are laid out in.
    pub tiles: u32,
    pub columns: u32,
    pub rows: u32,
    /// Which tile is being drawn and how far into it.
    pub tile: u32,
    pub sample: u32,
    pub tile_samples: u32,
    pub elapsed: u64,
    /// Samples a second, most recent last.
    pub throughput: Vec<u64>,
    pub picture: Option<Picture>,
    /// Set when the reader asked to stop.
    pub cancelling: bool,
    /// When the stage now running began.
    pub stage_began: u64,
    /// The last throughput reading: when, and how many samples had been drawn.
    pub last_rate: Option<(u64, u64)>,
}

/// `a - b`, or zero.
pub open spec fn since(a: u64, b: u64) -> u64 {
    if a >= b {
        (a - b) as u64
    } else {
        0
    }
}

/// A rate in samples a second, rounded to the nearest whole sample.
pub open spec fn rate_spec(drawn: u64, before: u64, span: u64) -> u64 {
    let d = since(drawn, before);
    let r = (2 * d * 1000 + span) / (2 * span);
    if r <= u64::MAX {
        r as u64
    } else {
        u64::MAX
    }
}

impl RenderView {
    pub open spec fn stage_began_spec(self) -> u64 {
        self.stage_began
    }

    pub open spec fn last_rate_spec(self) -> Option<(u64, u64)> {
        self.last_rate
    }

    pub open spec fn samples_drawn_spec(self) -> int {
        self.tile * self.tile_samples + self.sample
    }

    pub open spec fn samples_total_spec(self) -> int {
        self.tiles * self.tile_samples
    }

    /// A render that has just been asked for, at time `now`.
    pub fn new(request: Request, now: u64) -> (r: RenderView)
        ensures
            r.request == request,
            r.stage == Stage::Loading,
            r.timings@ == Seq::<(Stage, u64)>::empty(),
            r.stage_elapsed == 0,
            r.cook is None,
            r.triangles is None,
            r.tiles == 0 && r.columns == 0 && r.rows == 0,
            r.tile == 0 && r.sample == 0 && r.tile_samples == 0,
            r.elapsed == 0,
            r.throughput@ == Seq::<u64>::empty(),
            r.picture is None,
            !r.cancelling,
            r.stage_began_spec() == now,
            r.last_rate_spec() is None,
    {
        RenderView {
            request,
            stage: Stage::Loading,
            timings: Vec::new(),
            stage_elapsed: 0,
            cook: None,
            triangles: None,
            tiles: 0,
            columns: 0,
            rows: 0,
            tile: 0,
            sample: 0,
            tile_samples: 0,
            elapsed: 0,
            throughput: Vec::new(),
            picture: None,
            cancelling: false,
            stage_began: now,
            last_rate: None,
        }
    }

    /// How many samples of the whole picture have been drawn: the tiles
    /// behind this one whole, and this one as far as it says.
    pub fn samples_drawn(&self) -> (r: u64)
        ensures
            r == self.samples_drawn_spec(),
    {
        assert(self.tile * self.tile_samples <= 0xffff_ffff * 0xffff_ffff) by (nonlinear_arith)
            requires
                self.tile <= 0xffff_ffff,
                self.tile_samples <= 0xffff_ffff,
        ;
        self.tile as u64 * self.tile_samples as u64 + self.sample as u64
    }

    /// How many there will be in total, or zero before drawing starts.
    pub fn samples_total(&self) -> (r: u64)
        ensures
            r == self.samples_total_spec(),
    {
        assert(self.tiles * self.tile_samples <= 0xffff_ffff * 0xffff_ffff) by (nonlinear_arith)
            requires
                self.tiles <= 0xffff_ffff,
                self.tile_samples <= 0xffff_ffff,
        ;
        self.tiles as u64 * self.tile_samples as u64
    }

    /// Fold one event in, seen at time `now`. A stage that ends is timed
    /// once; a drawing event may add a throughput reading.
    pub fn observe(&mut self, progress: &Progress, now: u64)
        ensures
            ({
                let old_view = *old(self);
                let new_view = *final(self);
                let stage = stage_of(*progress);
                let changed = stage != old_view.stage;
                &&& new_view.stage == stage
                &&& new_view.timings@ == (if changed {
                    old_view.timings@.push((old_view.stage, since(now, old_view.stage_began_spec())))
                } else {
                    old_view.timings@
                })
                &&& new_view.stage_began_spec() == (if changed {
                    now
                } else {
                    old_view.stage_began_spec()
                })
                &&& new_view.stage_elapsed == since(now, new_view.stage_began_spec())
                &&& new_view.request == old_view.request
                &&& new_view.picture == old_view.picture
                &&& new_view.cancelling == old_view.cancelling
                &&& new_view.cook == (match *progress {
                    Progress::Cooking { pass, passes } => Some((pass, passes)),
                    _ => old_view.cook,
                })
                &&& new_view.triangles == (match *progress {
                    Progress::BuildingHierarchy { triangles } => Some(triangles),
                    _ => old_view.triangles,
                })
                &&& new_view.elapsed == (match *progress {
                    Progress::Sampling { elapsed_ms, .. } => elapsed_ms,
                    Progress::Done { elapsed_ms } => elapsed_ms,
                    _ => old_view.elapsed,
                })
                &&& match *progress {
                    Progress::Sampling { tile, tiles, columns, rows, sample, samples, .. } => {
                        &&& new_view.tile == tile && new_view.tiles == tiles
                        &&& new_view.columns == columns && new_view.rows == rows
                        &&& new_view.sample == sample && new_view.tile_samples == samples
                        &&& new_view.took_rate(old_view, now)
                    },
                    _ => {
                        &&& new_view.tile == old_view.tile && new_view.tiles == old_view.tiles
                        &&& new_view.columns == old_view.columns && new_view.rows == old_view.rows
                        &&& new_view.sample == old_view.sample
                        &&& new_view.tile_samples == old_view.tile_samples
                        &&& new_view.throughput@ == old_view.throughput@
                        &&& new_view.last_rate_spec() == old_view.last_rate_spec()
                    },
                }
            }),
    {
        let stage = Stage::of(progress);
        if stage != self.stage {
            let took = now.saturating_sub(self.stage_began);
            self.timings.push((self.stage, took));
            self.stage = stage;
            self.stage_began = now;
        }
        self.stage_elapsed = now.saturating_sub(self.stage_began);
        match progress {
            Progress::Cooking { pass, passes } => {
                self.cook = Some((*pass, *passes));
            },
            Progress::BuildingHierarchy { triangles } => {
                self.triangles = Some(*triangles);
            },
            Progress::Sampling { tile, tiles, columns, rows, sample, samples, elapsed_ms } => {
                self.tile = *tile;
                self.tiles = *tiles;
                self.columns = *columns;
                self.rows = *rows;
                self.sample = *sample;
                self.tile_samples = *samples;
                self.elapsed = *elapsed_ms;
                self.take_rate(now);
            },
            Progress::Done { elapsed_ms } => {
                self.elapsed = *elapsed_ms;
            },
            Progress::Loading | Progress::Writing { .. } | Progress::Failed { .. } => {},
        }
    }

    /// What a throughput reading at `now` does, starting from `before` with
    /// this view's plan and position: the first reading only starts the
    /// clock, and a later one counts only once enough time has passed.
    pub open spec fn took_rate(self, before: RenderView, now: u64) -> bool {
        let drawn = self.samples_drawn_spec() as u64;
        match before.last_rate_spec() {
            None => {
                &&& self.last_rate_spec() == Some((now, drawn))
                &&& self.throughput@ == before.throughput@
            },
            Some((then, counted)) => {
                let span = since(now, then);
                if span < THROUGHPUT_INTERVAL_MS {
                    &&& self.last_rate_spec() == before.last_rate_spec()
                    &&& self.throughput@ == before.throughput@
                } else {
                    let pushed = before.throughput@.push(rate_spec(drawn, counted, span));
                    &&& self.last_rate_spec() == Some((now, drawn))
                    &&& self.throughput@ == (if pushed.len() > THROUGHPUT_HISTORY {
                        pushed.drop_first()
                    } else {
                        pushed
                    })
                }
            },
        }
    }

    fn take_rate(&mut self, now: u64)
        ensures
            final(self).took_rate(*old(self), now),
            final(self).stage == old(self).stage,
            final(self).timings == old(self).timings,
            final(self).stage_elapsed == old(self).stage_elapsed,
            final(self).cook == old(self).cook,
            final(self).triangles == old(self).triangles,
            final(self).tile == old(self).tile,
            final(self).tiles == old(self).tiles,
            final(self).columns == old(self).columns,
            final(self).rows == old(self).rows,
            final(self).sample == old(self).sample,
            final(self).tile_samples == old(self).tile_samples,
            final(self).elapsed == old(self).elapsed,
            final(self).request == old(self).request,
            final(self).picture == old(self).picture,
            final(self).cancelling == old(self).cancelling,
            final(self).stage_began_spec() == old(self).stage_began_spec(),
    {
        let drawn = self.samples_drawn();
        match self.last_rate {
            None => {
                self.last_rate = Some((now, drawn));
            },
            Some((then, before)) => {
                let span = now.saturating_sub(then);
                if span < THROUGHPUT_INTERVAL_MS {
                    return;
                }
                let d: u128 = drawn.saturating_sub(before) as u128;
                let r: u128 = (2 * d * 1000 + span as u128) / (2 * span as u128);
                let rate: u64 = if r <= u64::MAX as u128 {
                    r as u64
                } else {
                    u64::MAX
                };
                self.throughput.push(rate);
                if self.throughput.len() > THROUGHPUT_HISTORY {
                    self.throughput.remove(0);
                }
                self.last_rate = Some((now, drawn));
            },
        }
    }
}

/// How much taller a terminal cell is than it is wide.
pub const CELL_ASPECT: u32 = 2;

pub open spec fn fit_spec(width: u32, height: u32, columns: u16, rows: u16) -> (u16, u16) {
    if width == 0 || height == 0 || columns == 0 || rows == 0 {
        (0, 0)
    } else {
        let wanted_rows = (columns * height) / ((width * CELL_ASPECT) as int);
        if wanted_rows <= rows {
            (columns, (if wanted_rows < 1 { 1 } else { wanted_rows }) as u16)
        } else {
            let wanted_columns = (rows * width * CELL_ASPECT) / (height as int);
            let c = if wanted_columns < 1 { 1 } else { wanted_columns };
            ((if c > columns { columns as int } else { c }) as u16, rows)
        }
    }
}

impl Picture {
    /// The largest cell rectangle inside `columns` by `rows` that keeps the
    /// picture's own proportions, given that a cell is twice as tall as it
    /// is wide; nothing for an empty picture or an empty area.
    pub fn fit(&self, columns: u16, rows: u16) -> (r: (u16, u16))
        requires
            self.width * CELL_ASPECT <= u32::MAX,
            columns * self.height <= u32::MAX,
            rows * self.width * CELL_ASPECT <= u32::MAX,
        ensures
            r == fit_spec(self.width, self.height, columns, rows),
            r.0 <= columns && r.1 <= rows,
    {
        if self.width == 0 || self.height == 0 || columns == 0 || rows == 0 {
            return (0, 0);
        }
        let wanted_rows = (columns as u32 * self.height) / (self.width * CELL_ASPECT);
        if wanted_rows <= rows as u32 {
            let r = if wanted_rows < 1 {
                1
            } else {
                wanted_rows
            };
            (columns, r as u16)
        } else {
            assert(rows * self.width <= rows * self.width * CELL_ASPECT) by (nonlinear_arith);
            let wanted_columns = (rows as u32 * self.width * CELL_ASPECT) / self.height;
            let c = if wanted_columns < 1 {
                1
            } else {
                wanted_columns
            };
            let c = if c > columns as u32 {
                columns as u32
            } else {
                c
            };
            (c as u16, rows)
        }
    }
}

/// A luminance span narrower than this is not stretched: a genuinely flat
/// picture stretched to the whole ramp is noise made to look like an image.
pub const FLAT: u8 = 8;

/// The darkest value in a picture, or zero for an empty one.
pub open spec fn darkest(s: Seq<u8>) -> u8
    decreases s.len(),
{
    if s.len() == 0 {
        0
    } else if s.len() == 1 || s.last() <= darkest(s.drop_last()) {
        s.last()
    } else {
        darkest(s.drop_last())
    }
}

/// The brightest value in a picture, or zero for an empty one.
pub open spec fn brightest(s: Seq<u8>) -> u8
    decreases s.len(),
{
    if s.len() == 0 {
        0
    } else if s.len() == 1 || s.last() >= brightest(s.drop_last()) {
        s.last()
    } else {
        brightest(s.drop_last())
    }
}

/// The sample a cell shows: the nearest pixel to the cell's top left corner,
/// or black where the picture holds none.
pub open spec fn cell_spec(p: Picture, row: int, column: int, rows: int, columns: int) -> u8 {
    let down = row * p.height / rows;
    let across = column * p.width / columns;
    let y = if down > p.height - 1 {
        p.height - 1
    } else {
        down
    };
    let x = if across > p.width - 1 {
        p.width - 1
    } else {
        across
    };
    let at = y * p.width + x;
    if 0 <= at < p.luma@.len() {
        p.luma@[at]
    } else {
        0
    }
}

/// The rung a sample takes: stretched over the picture's own range when it
/// spans enough of it, over the whole byte otherwise.
pub open spec fn tone_rung(value: u8, lo: u8, hi: u8) -> nat {
    if hi - lo >= FLAT {
        rung_spec(
            if value >= lo {
                (value - lo) as nat
            } else {
                0
            },
            (hi - lo) as nat,
        )
    } else {
        rung_spec(value as nat, 255)
    }
}

/// The picture as rows of shading, one character a cell.
pub open spec fn shading_spec(p: Picture, columns: u16, rows: u16, tier: GlyphTier) -> Seq<Seq<char>> {
    if columns == 0 || rows == 0 || p.luma@.len() == 0 {
        Seq::empty()
    } else {
        Seq::new(
            rows as nat,
            |r: int|
                Seq::new(
                    columns as nat,
                    |c: int|
                        ramp_spec(tier)[tone_rung(
                            cell_spec(p, r, c, rows as int, columns as int),
                            darkest(p.luma@),
                            brightest(p.luma@),
                        ) as int],
                ),
        )
    }
}

impl Picture {
    /// The narrowest span of luminance the picture actually uses.
    pub fn range(&self) -> (r: (u8, u8))
        ensures
            r == (darkest(self.luma@), brightest(self.luma@)),
    {
        let mut lo: u8 = 0;
        let mut hi: u8 = 0;
        let mut i: usize = 0;
        while i < self.luma.len()
            invariant
                i <= self.luma@.len(),
                lo == darkest(self.luma@.take(i as int)),
                hi == brightest(self.luma@.take(i as int)),
            decreases self.luma@.len() - i,
        {
            let v = self.luma[i];
            assert(self.luma@.take(i + 1).drop_last() =~= self.luma@.take(i as int));
            if i == 0 || v <= lo {
                lo = v;
            }
            if i == 0 || v >= hi {
                hi = v;
            }
            i = i + 1;
        }
        assert(self.luma@.take(self.luma@.len() as int) =~= self.luma@);
        (lo, hi)
    }

    /// The picture as rows of shading, one string a row, sampled nearest
    /// and with contrast stretched to the picture's own range.
    pub fn rows(&self, columns: u16, rows: u16, glyphs: &Glyphs) -> (r: Vec<String>)
        requires
            columns > 0 && rows > 0 && self.luma@.len() > 0 ==> {
                &&& self.width > 0
                &&& self.height > 0
                &&& (rows - 1) * self.height <= u32::MAX
                &&& (columns - 1) * self.width <= u32::MAX
                &&& self.height * self.width <= u32::MAX + 1
            },
        ensures
            r@.len() == shading_spec(*self, columns, rows, glyphs.tier).len(),
            forall|t: int|
                0 <= t < r@.len() ==> #[trigger] r@[t]@ == shading_spec(
                    *self,
                    columns,
                    rows,
                    glyphs.tier,
                )[t],
    {
        if columns == 0 || rows == 0 || self.luma.len() == 0 {
            return Vec::new();
        }
        let (lo, hi) = self.range();
        let stretch = hi >= lo && hi - lo >= FLAT;
        let h = self.height as u64;
        let w = self.width as u64;
        let rs = rows as u64;
        let cs = columns as u64;
        let ghost p = *self;
        let mut out: Vec<String> = Vec::new();
        let mut row: u16 = 0;
        while row < rows
            invariant
                p == *self,
                h == self.height,
                w == self.width,
                rs == rows,
                cs == columns,
                rows > 0 && columns > 0 && self.luma@.len() > 0,
                self.width > 0 && self.height > 0,
                (rows - 1) * self.height <= u32::MAX,
                (columns - 1) * self.width <= u32::MAX,
                self.height * self.width <= u32::MAX + 1,
                lo == darkest(self.luma@),
                hi == brightest(self.luma@),
                stretch == (hi - lo >= FLAT),
                row <= rows,
                out@.len() == row,
                forall|t: int|
                    0 <= t < row ==> #[trigger] out@[t]@ == shading_spec(
                        p,
                        columns,
                        rows,
                        glyphs.tier,
                    )[t],
            decreases rows - row,
        {
            assert((row as u64) * h <= (rows as u64 - 1) * h) by (nonlinear_arith)
                requires
                    row < rows,
            ;
            let down = (row as u64 * h) / rs;
            let y = if down > h - 1 {
                h - 1
            } else {
                down
            };
            let mut line = String::new();
            let mut column: u16 = 0;
            while column < columns
                invariant
                    p == *self,
                    h == self.height,
                    w == self.width,
                    rs == rows,
                    cs == columns,
                    rows > 0 && columns > 0 && self.luma@.len() > 0,
                    self.width > 0 && self.height > 0,
                    (columns - 1) * self.width <= u32::MAX,
                    self.height * self.width <= u32::MAX + 1,
                    lo == darkest(self.luma@),
                    hi == brightest(self.luma@),
                    stretch == (hi - lo >= FLAT),
                    row < rows,
                    y < h,
                    y == (if (row * h) / (rows as int) > h - 1 {
                        h - 1
                    } else {
                        (row * h) / (rows as int)
                    }),
                    column <= columns,
                    line@.len() == column,
                    forall|c: int|
                        0 <= c < column ==> #[trigger] line@[c] == shading_spec(
                            p,
                            columns,
                            rows,
                            glyphs.tier,
                        )[row as int][c],
                decreases columns - column,
            {
                assert((column as u64) * w <= (columns as u64 - 1) * w) by (nonlinear_arith)
                    requires
                        column < columns,
                ;
                let across = (column as u64 * w) / cs;
                let x = if across > w - 1 {
                    w - 1
                } else {
                    across
                };
                assert(y * w + x < h * w) by (nonlinear_arith)
                    requires
                        y < h,
                        x < w,
                ;
                let at = y * w + x;
                let value: u8 = if at < self.luma.len() as u64 {
                    self.luma[at as usize]
                } else {
                    0
                };
                assert(value == cell_spec(p, row as int, column as int, rows as int, columns as int));
                let mark = if stretch {
                    let part: u8 = if value >= lo {
                        value - lo
                    } else {
                        0
                    };
                    glyphs.shade(part as u64, (hi - lo) as u64)
                } else {
                    glyphs.shade(value as u64, 255)
                };
                assert(mark == ramp_spec(glyphs.tier)[tone_rung(value, lo, hi) as int]);
                let ghost before = line@;
                push_char(&mut line, mark);
                assert(shading_spec(p, columns, rows, glyphs.tier)[row as int][column as int] == mark);
                assert forall|c: int| 0 <= c <= column implies #[trigger] line@[c] == shading_spec(
                    p,
                    columns,
                    rows,
                    glyphs.tier,
                )[row as int][c] by {
                    if c < column {
                        assert(line@[c] == before[c]);
                    }
                }
                column = column + 1;
            }
            assert(line@ =~= shading_spec(p, columns, rows, glyphs.tier)[row as int]);
            out.push(line);
            row = row + 1;
        }
        out
    }
}

/// How far the tile at `index` has come, as a rung of the ramp: finished
/// tiles full, the one being drawn by its own samples, the rest empty.
pub open spec fn tile_rung(view: RenderView, index: int) -> nat {
    if index < view.tile {
        4
    } else if index == view.tile {
        if view.tile_samples == 0 {
            0
        } else {
            rung_spec(view.sample as nat, view.tile_samples as nat)
        }
    } else {
        0
    }
}

/// How many cells a tile takes across: two or three where there is room,
/// so the grid is nearer square than a terminal cell is.
pub open spec fn tile_scale(width: u16, columns: u32) -> int {
    let w = if width == 0 {
        1int
    } else {
        width as int
    };
    let c = if columns == 0 {
        1int
    } else {
        columns as int
    };
    let s = w / c;
    if s < 1 {
        1
    } else if s > 3 {
        3
    } else {
        s
    }
}

/// How many tiles one row of the grid holds.
pub open spec fn tiles_in_row(view: RenderView, row: int) -> int {
    let left = view.tiles - row * view.columns;
    if left <= 0 {
        0
    } else if left > view.columns {
        view.columns as int
    } else {
        left
    }
}

/// One row of the grid, each tile shaded by how far it has come.
pub open spec fn tile_row(view: RenderView, row: int, scale: int, tier: GlyphTier) -> Seq<char> {
    Seq::new(
        (tiles_in_row(view, row) * scale) as nat,
        |i: int| ramp_spec(tier)[tile_rung(view, row * view.columns + i / scale) as int],
    )
}

/// The tiles readout: the grid a row a line, then which tile is being drawn;
/// before the plan arrives, only that it has not.
pub open spec fn tiles_spec(view: RenderView, width: u16, tier: GlyphTier) -> Seq<Seq<(Seq<char>, Tone)>> {
    if view.tiles == 0 || view.columns == 0 {
        seq![seq![("waiting for the plan"@, Tone::Dim)]]
    } else {
        Seq::new(
            view.rows as nat,
            |r: int| seq![(tile_row(view, r, tile_scale(width, view.columns), tier), Tone::Ink)],
        ) + seq![
            Seq::empty(),
            seq![
                (
                    "tile "@ + decimal((view.tile + 1) as nat) + " of "@ + decimal(view.tiles as nat),
                    Tone::Dim,
                ),
            ],
        ]
    }
}

/// The grid, one cell a tile, shaded by how far that tile has come: the
/// tile being drawn is the one moving, and a grid that showed it as pending
/// would look stalled for as long as it took.
pub fn tiles(view: &RenderView, width: u16, glyphs: &Glyphs) -> (r: Vec<Vec<Segment>>)
    requires
        view.tiles > 0 && view.columns > 0 ==> {
            &&& view.rows * view.columns <= u32::MAX + 1
            &&& view.tile < u32::MAX
        },
    ensures
        body_view(r@) == tiles_spec(*view, width, glyphs.tier),
{
    if view.tiles == 0 || view.columns == 0 {
        let line = vec![segment("waiting for the plan", Tone::Dim)];
        assert(line_view(line@) =~= seq![("waiting for the plan"@, Tone::Dim)]);
        let r = vec![line];
        assert(body_view(r@) =~= tiles_spec(*view, width, glyphs.tier));
        return r;
    }
    let w: u32 = if width == 0 {
        1
    } else {
        width as u32
    };
    let ratio = w / view.columns;
    let scale: u32 = if ratio < 1 {
        1
    } else if ratio > 3 {
        3
    } else {
        ratio
    };
    let ghost sc = tile_scale(width, view.columns);
    assert(scale == sc);
    let mut out: Vec<Vec<Segment>> = Vec::new();
    let mut row: u32 = 0;
    assert(body_view(out@) =~= Seq::<Seq<(Seq<char>, Tone)>>::empty());
    while row < view.rows
        invariant
            view.tiles > 0 && view.columns > 0,
            view.rows * view.columns <= u32::MAX + 1,
            1 <= scale <= 3,
            scale == sc,
            sc == tile_scale(width, view.columns),
            row <= view.rows,
            body_view(out@) == Seq::new(
                row as nat,
                |r: int| seq![(tile_row(*view, r, sc, glyphs.tier), Tone::Ink)],
            ),
        decreases view.rows - row,
    {
        let mut cells = String::new();
        let mut column: u32 = 0;
        let mut stop = false;
        while column < view.columns && !stop
            invariant
                view.tiles > 0 && view.columns > 0,
                view.rows * view.columns <= u32::MAX + 1,
                row < view.rows,
                1 <= scale <= 3,
                scale == sc,
                column <= view.columns,
                stop ==> column == tiles_in_row(*view, row as int),
                !stop ==> column <= tiles_in_row(*view, row as int),
                cells@ =~= tile_row(*view, row as int, sc, glyphs.tier).take(column * scale),
            decreases view.columns - column + (if stop { 0int } else { 1int }),
        {
            assert(row * view.columns + column < view.rows * view.columns) by (nonlinear_arith)
                requires
                    row < view.rows,
                    column < view.columns,
            ;
            let index = row * view.columns + column;
            if index >= view.tiles {
                stop = true;
            } else {
                let part: u64 = if index < view.tile {
                    1
                } else if index == view.tile && view.tile_samples > 0 {
                    view.sample as u64
                } else {
                    0
                };
                let whole: u64 = if index < view.tile {
                    1
                } else if index == view.tile && view.tile_samples > 0 {
                    view.tile_samples as u64
                } else {
                    1
                };
                let mark = glyphs.shade(part, whole);
                assert(mark == ramp_spec(glyphs.tier)[tile_rung(*view, index as int) as int]) by {
                    if index < view.tile {
                        assert((8 * 1 + 1) / (2 * 1) == 4nat) by (nonlinear_arith);
                        assert(rung_spec(1, 1) == 4);
                    } else if index > view.tile || view.tile_samples == 0 {
                        assert((8 * 0 + 1) / (2 * 1) == 0nat) by (nonlinear_arith);
                        assert(rung_spec(0, 1) == 0);
                    }
                }
                let mut k: u32 = 0;
                while k < scale
                    invariant
                        1 <= scale <= 3,
                        scale == sc,
                        k <= scale,
                        column < tiles_in_row(*view, row as int),
                        index == row * view.columns + column,
                        mark == ramp_spec(glyphs.tier)[tile_rung(*view, index as int) as int],
                        cells@ =~= tile_row(*view, row as int, sc, glyphs.tier).take(column * scale + k),
                    decreases scale - k,
                {
                    let ghost before = cells@;
                    push_char(&mut cells, mark);
                    proof {
                        let i = column * scale + k;
                        assert(i / (scale as int) == column) by (nonlinear_arith)
                            requires
                                i == column * scale + k,
                                k < scale,
                                scale >= 1,
                        ;
                        assert(i < tiles_in_row(*view, row as int) * sc) by (nonlinear_arith)
                            requires
                                i == column * scale + k,
                                k < scale,
                                column < tiles_in_row(*view, row as int),
                                scale == sc,
                        ;
                        assert(tile_row(*view, row as int, sc, glyphs.tier)[i] == mark);
                        assert(tile_row(*view, row as int, sc, glyphs.tier).take(i + 1) =~= before.push(mark));
                    }
                    k = k + 1;
                }
                assert(column * scale + scale == (column + 1) * scale) by (nonlinear_arith);
                column = column + 1;
            }
        }
        proof {
            let full = tile_row(*view, row as int, sc, glyphs.tier);
            assert(column == tiles_in_row(*view, row as int));
            assert(full.len() == column * scale);
            assert(full.take(column * scale) =~= full);
        }
        let line = vec![Segment { text: cells, tone: Tone::Ink }];
        assert(line_view(line@) =~= seq![(tile_row(*view, row as int, sc, glyphs.tier), Tone::Ink)]);
        push_line(&mut out, line);
        row = row + 1;
        assert(body_view(out@) =~= Seq::new(
            row as nat,
            |r: int| seq![(tile_row(*view, r, sc, glyphs.tier), Tone::Ink)],
        ));
    }
    let ghost grid = body_view(out@);
    push_line(&mut out, Vec::new());
    let mut text = owned("tile ");
    push_decimal(&mut text, view.tile as u64 + 1);
    push_str(&mut text, " of ");
    push_decimal(&mut text, view.tiles as u64);
    let last = vec![Segment { text, tone: Tone::Dim }];
    assert(line_view(last@) =~= seq![
        (
            "tile "@ + decimal((view.tile + 1) as nat) + " of "@ + decimal(view.tiles as nat),
            Tone::Dim,
        ),
    ]);
    push_line(&mut out, last);
    proof {
        assert(line_view(Seq::<Segment>::empty()) =~= Seq::<(Seq<char>, Tone)>::empty());
        assert(body_view(out@) =~= tiles_spec(*view, width, glyphs.tier));
    }
    out
}

} // verus!
