//! The decisions the command line makes: how a resolution is spelled, which
//! exit code a failure earns, what the dashboard is told was asked for, and
//! where an analysis report goes.

use vstd::prelude::*;
use crate::parser::{OutputFormat, RenderArgs, RenderEngineArg};
use crate::ratio::digit_value;
use crate::render_state::Request;
use crate::text::{
    chars_of, is_digit, is_digit_spec, owned, push_chars, push_str, string_of, trim, trim_spec,
};

verus! {

/// The value of a run of decimal digits.
pub open spec fn digits_value(s: Seq<char>) -> nat
    decreases s.len(),
{
    if s.len() == 0 {
        0
    } else {
        digits_value(s.drop_last()) * 10 + digit_value(s.last()) as nat
    }
}

pub open spec fn all_digits(s: Seq<char>) -> bool {
    forall|i: int| 0 <= i < s.len() ==> is_digit_spec(#[trigger] s[i])
}

/// An unsigned 32-bit number as the standard library reads one: an optional
/// `+`, then at least one decimal digit, with a value that fits.
pub open spec fn parse_u32_spec(s: Seq<char>) -> Option<u32> {
    let body = if s.len() > 0 && s[0] == '+' {
        s.drop_first()
    } else {
        s
    };
    if body.len() == 0 || !all_digits(body) || digits_value(body) > u32::MAX {
        None
    } else {
        Some(digits_value(body) as u32)
    }
}

proof fn lemma_digits_grow(s: Seq<char>, i: int)
    requires
        0 <= i < s.len(),
        is_digit_spec(s[i]),
    ensures
        digits_value(s.take(i + 1)) == digits_value(s.take(i)) * 10 + digit_value(s[i]),
        digits_value(s.take(i + 1)) >= digits_value(s.take(i)),
{
    assert(s.take(i + 1).drop_last() =~= s.take(i));
}

/// An unsigned 32-bit number, or `None`.
pub fn parse_u32(text: &Vec<char>) -> (r: Option<u32>)
    ensures
        r == parse_u32_spec(text@),
{
    let start: usize = if text.len() > 0 && text[0] == '+' {
        1
    } else {
        0
    };
    let ghost body = if text@.len() > 0 && text@[0] == '+' {
        text@.drop_first()
    } else {
        text@
    };
    assert(body =~= text@.skip(start as int));
    if start >= text.len() {
        return None;
    }
    let mut value: u64 = 0;
    let mut over: bool = false;
    let mut i: usize = start;
    assert(body.take(0) =~= Seq::<char>::empty());
    while i < text.len()
        invariant
            start <= i <= text.len(),
            start < text.len(),
            body == text@.skip(start as int),
            body == (if text@.len() > 0 && text@[0] == '+' {
                text@.drop_first()
            } else {
                text@
            }),
            all_digits(body.take(i - start)),
            over <==> digits_value(body.take(i - start)) > u32::MAX,
            !over ==> value == digits_value(body.take(i - start)),
        decreases text.len() - i,
    {
        let c = text[i];
        if !is_digit(c) {
            assert(body[i - start] == c);
            assert(!is_digit_spec(body[i - start]));
            assert(!all_digits(body));
            return None;
        }
        let ghost k: int = i - start;
        assert(body[k] == c);
        proof {
            lemma_digits_grow(body, k);
            assert forall|j: int| 0 <= j < body.take(k + 1).len() implies is_digit_spec(
                #[trigger] body.take(k + 1)[j],
            ) by {
                if j < k {
                    assert(body.take(k + 1)[j] == body.take(k)[j]);
                }
            }
        }
        if !over {
            let d: u64 = (c as u32 - 48) as u64;
            value = value * 10 + d;
            if value > u32::MAX as u64 {
                over = true;
            }
        }
        i = i + 1;
    }
    assert(body.take(body.len() as int) =~= body);
    if over {
        None
    } else {
        Some(value as u32)
    }
}

/// Where a resolution's two numbers split: the first `x` or `X`.
pub open spec fn split_at(s: Seq<char>) -> Option<int> {
    if exists|i: int| 0 <= i < s.len() && (#[trigger] s[i] == 'x' || s[i] == 'X') {
        Some(
            choose|i: int|
                0 <= i < s.len() && (s[i] == 'x' || s[i] == 'X') && forall|j: int|
                    0 <= j < i ==> !(#[trigger] s[j] == 'x' || s[j] == 'X'),
        )
    } else {
        None
    }
}

pub open spec fn parse_resolution_spec(text: Seq<char>) -> Result<(u32, u32), Seq<char>> {
    match split_at(text) {
        None => Err("--res wants WIDTHxHEIGHT, got '"@ + text + "'"@),
        Some(i) => {
            let w = text.take(i);
            let h = text.skip(i + 1);
            match parse_u32_spec(trim_spec(w)) {
                None => Err("--res width is not a number: '"@ + w + "'"@),
                Some(width) => match parse_u32_spec(trim_spec(h)) {
                    None => Err("--res height is not a number: '"@ + h + "'"@),
                    Some(height) => Ok((width, height)),
                },
            }
        },
    }
}

fn find_split(text: &Vec<char>) -> (r: Option<usize>)
    ensures
        match r {
            Some(i) => i < text.len() && (text@[i as int] == 'x' || text@[i as int] == 'X')
                && forall|j: int| 0 <= j < i ==> !(#[trigger] text@[j] == 'x' || text@[j] == 'X'),
            None => forall|j: int| 0 <= j < text.len() ==> !(#[trigger] text@[j] == 'x' || text@[j]
                == 'X'),
        },
{
    let mut i: usize = 0;
    while i < text.len()
        invariant
            0 <= i <= text.len(),
            forall|j: int| 0 <= j < i ==> !(#[trigger] text@[j] == 'x' || text@[j] == 'X'),
        decreases text.len() - i,
    {
        if text[i] == 'x' || text[i] == 'X' {
            return Some(i);
        }
        i = i + 1;
    }
    None
}

fn slice(text: &Vec<char>, from: usize, to: usize) -> (r: Vec<char>)
    requires
        from <= to <= text.len(),
    ensures
        r@ == text@.subrange(from as int, to as int),
{
    let mut r: Vec<char> = Vec::new();
    let mut i: usize = from;
    while i < to
        invariant
            from <= i <= to,
            to <= text.len(),
            r@ == text@.subrange(from as int, i as int),
        decreases to - i,
    {
        r.push(text[i]);
        i = i + 1;
        assert(r@ =~= text@.subrange(from as int, i as int));
    }
    r
}

fn quoted(prefix: &str, middle: &Vec<char>) -> (m: String)
    ensures
        m@ == prefix@ + middle@ + "'"@,
{
    let mut m = owned(prefix);
    push_chars(&mut m, middle);
    push_str(&mut m, "'");
    m
}

/// `WIDTHxHEIGHT`, as a command line spells a resolution, with space allowed
/// around either number.
pub fn parse_resolution(text: &str) -> (r: Result<(u32, u32), String>)
    ensures
        match (r, parse_resolution_spec(text@)) {
            (Ok(a), Ok(b)) => a == b,
            (Err(m), Err(w)) => m@ == w,
            _ => false,
        },
{
    let chars = chars_of(text);
    match find_split(&chars) {
        None => {
            assert(!(exists|i: int|
                0 <= i < text@.len() && (#[trigger] text@[i] == 'x' || text@[i] == 'X')));
            Err(quoted("--res wants WIDTHxHEIGHT, got '", &chars))
        },
        Some(i) => {
            proof {
                let k = split_at(text@).unwrap();
                assert(text@[i as int] == 'x' || text@[i as int] == 'X');
                assert(split_at(text@) is Some);
                if k < i {
                    assert(!(text@[k] == 'x' || text@[k] == 'X'));
                }
                if i < k {
                    assert(!(text@[i as int] == 'x' || text@[i as int] == 'X'));
                }
                assert(k == i);
            }
            let w = slice(&chars, 0, i);
            let h = slice(&chars, i + 1, chars.len());
            assert(w@ =~= text@.take(i as int));
            assert(h@ =~= text@.skip(i + 1));
            match parse_u32(&trim(&w)) {
                None => Err(quoted("--res width is not a number: '", &w)),
                Some(width) => match parse_u32(&trim(&h)) {
                    None => Err(quoted("--res height is not a number: '", &h)),
                    Some(height) => Ok((width, height)),
                },
            }
        },
    }
}

/// Why a render failed, by class.
#[derive(Debug, Clone, Copy, PartialEq, Eq, Structural)]
pub enum RenderFailure {
    InputMissing,
    InputUnreadable,
    InputInvalid,
    InputUnsupported,
    OptionIneffective,
    Cook,
    NoRenderNode,
    AmbiguousRenderNode,
    RenderNode,
    NoAdapter,
    Device,
    DeviceLost,
    Cancelled,
    Encode,
    OutputUnwritable,
}

pub open spec fn exit_code_spec(f: RenderFailure) -> u8 {
    match f {
        RenderFailure::InputMissing | RenderFailure::InputUnreadable | RenderFailure::InputInvalid
        | RenderFailure::InputUnsupported => 2,
        RenderFailure::OptionIneffective => 1,
        RenderFailure::Cook | RenderFailure::NoRenderNode | RenderFailure::AmbiguousRenderNode
        | RenderFailure::RenderNode => 3,
        RenderFailure::NoAdapter => 4,
        RenderFailure::Device | RenderFailure::DeviceLost => 5,
        RenderFailure::Cancelled => 6,
        RenderFailure::Encode | RenderFailure::OutputUnwritable => 7,
    }
}

/// The exit taxonomy: each code names a failure class rather than a place
/// in the code. One is a mistake in the invocation; two an input that could
/// not be loaded; three the scene; four and five the device; six a
/// cancellation; seven the output.
pub fn exit_code_for(failure: RenderFailure) -> (code: u8)
    ensures
        code == exit_code_spec(failure),
        1 <= code <= 7,
{
    match failure {
        RenderFailure::InputMissing | RenderFailure::InputUnreadable | RenderFailure::InputInvalid
        | RenderFailure::InputUnsupported => 2,
        RenderFailure::OptionIneffective => 1,
        RenderFailure::Cook | RenderFailure::NoRenderNode | RenderFailure::AmbiguousRenderNode
        | RenderFailure::RenderNode => 3,
        RenderFailure::NoAdapter => 4,
        RenderFailure::Device | RenderFailure::DeviceLost => 5,
        RenderFailure::Cancelled => 6,
        RenderFailure::Encode | RenderFailure::OutputUnwritable => 7,
    }
}

pub open spec fn engine_name(e: RenderEngineArg) -> Seq<char> {
    match e {
        RenderEngineArg::PathTraced => "path traced"@,
        RenderEngineArg::Raster => "rasterized"@,
    }
}

/// What the reader asked for, in the words the dashboard shows. The size is
/// not known until the first tile arrives.
pub fn dashboard_request(args: &RenderArgs) -> (r: Request)
    ensures
        r.input@ == args.input@,
        r.output@ == args.out@,
        match (r.engine, args.engine) {
            (Some(name), Some(e)) => name@ == engine_name(e),
            (None, None) => true,
            _ => false,
        },
        r.size is None,
        r.samples == args.spp,
        r.bounces == args.bounces,
        r.seed == args.seed,
{
    let engine = match args.engine {
        Some(RenderEngineArg::PathTraced) => Some(owned("path traced")),
        Some(RenderEngineArg::Raster) => Some(owned("rasterized")),
        None => None,
    };
    Request {
        input: owned(args.input.as_str()),
        output: owned(args.out.as_str()),
        engine,
        size: None,
        samples: args.spp,
        bounces: args.bounces,
        seed: args.seed,
    }
}

/// Where an analysis report goes.
#[derive(Debug, Clone, Copy, PartialEq, Eq, Structural)]
pub enum ReportRoute {
    /// To the file the reader named.
    WriteToOutput,
    /// Beside the model, as JSON, because standard output is a terminal.
    WriteBesideModel,
    /// Printed on standard output.
    Print,
    /// Printed, after a notice that the terminal is too small for the
    /// surface.
    PrintWithNotice,
    /// Shown on the analyze surface.
    Surface,
}

pub open spec fn report_route_spec(format: OutputFormat, has_output: bool, stdout_is_terminal: bool, too_small: bool) -> ReportRoute {
    if has_output {
        ReportRoute::WriteToOutput
    } else if format == OutputFormat::Json && stdout_is_terminal {
        ReportRoute::WriteBesideModel
    } else if format == OutputFormat::Json || !stdout_is_terminal {
        ReportRoute::Print
    } else if too_small {
        ReportRoute::PrintWithNotice
    } else {
        ReportRoute::Surface
    }
}

/// Where an analysis report goes: a named file wins; JSON never lands on a
/// terminal; anything not bound for a terminal is printed; and the surface
/// opens only on a terminal big enough for it.
pub fn report_route(format: OutputFormat, has_output: bool, stdout_is_terminal: bool, too_small: bool) -> (r: ReportRoute)
    ensures
        has_output ==> r == ReportRoute::WriteToOutput,
        r == report_route_spec(format, has_output, stdout_is_terminal, too_small),
{
    if has_output {
        ReportRoute::WriteToOutput
    } else if format == OutputFormat::Json && stdout_is_terminal {
        ReportRoute::WriteBesideModel
    } else if format == OutputFormat::Json || !stdout_is_terminal {
        ReportRoute::Print
    } else if too_small {
        ReportRoute::PrintWithNotice
    } else {
        ReportRoute::Surface
    }
}

/// The surface opens only for a text report on a terminal with room for it,
/// and JSON is never printed onto a terminal.
pub proof fn law_surface_only_on_a_roomy_terminal(
    format: OutputFormat,
    has_output: bool,
    stdout_is_terminal: bool,
    too_small: bool,
)
    ensures
        report_route_spec(format, has_output, stdout_is_terminal, too_small) == ReportRoute::Surface
            ==> format == OutputFormat::Text && stdout_is_terminal && !too_small && !has_output,
        report_route_spec(format, has_output, stdout_is_terminal, too_small) == ReportRoute::Print
            ==> !(format == OutputFormat::Json && stdout_is_terminal),
{
}

/// A named output file wins over every other route, whatever the format and
/// whatever standard output is; the report lands beside the model exactly
/// when there is no named file and JSON would otherwise reach a terminal.
pub proof fn law_named_file_wins(
    format: OutputFormat,
    has_output: bool,
    stdout_is_terminal: bool,
    too_small: bool,
)
    ensures
        has_output ==> report_route_spec(format, has_output, stdout_is_terminal, too_small)
            == ReportRoute::WriteToOutput,
        (report_route_spec(format, has_output, stdout_is_terminal, too_small)
            == ReportRoute::WriteToOutput) == has_output,
        (report_route_spec(format, has_output, stdout_is_terminal, too_small)
            == ReportRoute::WriteBesideModel) == (!has_output && format == OutputFormat::Json
            && stdout_is_terminal),
        has_output ==> report_route_spec(format, has_output, stdout_is_terminal, too_small)
            == report_route_spec(OutputFormat::Text, has_output, !stdout_is_terminal, !too_small),
{
}

/// Without a named file, a report bound anywhere but a terminal is printed
/// as it is, and on a terminal a text report opens the surface unless the
/// terminal is too small, when it is printed after a notice.
pub proof fn law_unnamed_reports_follow_the_terminal(
    format: OutputFormat,
    stdout_is_terminal: bool,
    too_small: bool,
)
    ensures
        (report_route_spec(format, false, stdout_is_terminal, too_small) == ReportRoute::Print)
            == !stdout_is_terminal,
        (report_route_spec(format, false, stdout_is_terminal, too_small)
            == ReportRoute::PrintWithNotice) == (stdout_is_terminal && format == OutputFormat::Text
            && too_small),
        (report_route_spec(format, false, stdout_is_terminal, too_small) == ReportRoute::Surface)
            == (stdout_is_terminal && format == OutputFormat::Text && !too_small),
{
}

/// Whether the flags want two things on standard output at once: the
/// machine-readable result, and the image written to `-`.
pub fn streams_clash(args: &RenderArgs) -> (b: bool)
    ensures
        b == (args.json && args.out@ == "-"@),
{
    let out = chars_of(args.out.as_str());
    proof {
        reveal_strlit("-");
    }
    let dash = out.len() == 1 && out[0] == '-';
    proof {
        if dash {
            assert(args.out@ =~= "-"@);
        } else if args.out@ == "-"@ {
            assert(out@[0] == '-');
        }
    }
    args.json && dash
}

/// What the denoise flags ask for: on, off, or whatever the scene says.
pub fn denoise_choice(args: &RenderArgs) -> (r: Option<bool>)
    ensures
        r == (if args.denoise {
            Some(true)
        } else if args.no_denoise {
            Some(false)
        } else {
            None
        }),
{
    if args.denoise {
        Some(true)
    } else if args.no_denoise {
        Some(false)
    } else {
        None
    }
}

/// Which progress surfaces a render reports to, once it is known which of
/// the dashboard and the window opened.
#[derive(Debug, Clone, Copy, PartialEq, Eq, Structural)]
pub struct SinkPlan {
    /// The one plain line on standard error: present exactly when the
    /// dashboard, which owns that screen, is not.
    pub plain: bool,
    /// Whether a surface shows the picture as it converges, which is what
    /// asks the renderer for small tiles: pixels reach a surface only when
    /// a tile finishes.
    pub wants_pixels: bool,
}

/// The surfaces a render reports to.
pub fn sink_plan(dashboard_open: bool, window_open: bool) -> (r: SinkPlan)
    ensures
        r.plain == !dashboard_open,
        r.wants_pixels == (dashboard_open || window_open),
{
    SinkPlan { plain: !dashboard_open, wants_pixels: dashboard_open || window_open }
}

} // verus!
