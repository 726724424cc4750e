use solarxy_cli::dashboard::DashPanel;
use solarxy_cli::render_state::tiles;
use solarxy_cli::caps::GlyphTier;
use solarxy_cli::glyphs::Glyphs;
use solarxy_cli::lines::{Segment, Tone};
use solarxy_cli::readouts::{field, picture, progress, stages, subject, throughput};
use solarxy_cli::render_state::{Picture, Progress, RenderView, Request, Stage};

fn request() -> Request {
    Request {
        input: "scene.slxy".into(),
        output: "out.png".into(),
        engine: None,
        size: Some((320, 240)),
        samples: Some(64),
        bounces: None,
        seed: Some(7),
    }
}

/// A span written in seconds the way the dashboard's caller writes it.
fn secs(ms: u64) -> String {
    format!("{:.1}s", ms as f64 / 1000.0)
}

fn stages_of(view: &RenderView) -> Vec<Vec<Segment>> {
    let took: Vec<String> = view.timings.iter().map(|(_, ms)| secs(*ms)).collect();
    stages(view, &took, &secs(view.stage_elapsed))
}

fn progress_of(view: &RenderView, remaining: Option<&str>) -> Vec<Vec<Segment>> {
    progress(view, &secs(view.elapsed), &remaining.map(str::to_string))
}

fn text(line: &[Segment]) -> String {
    line.iter().map(|s| s.text.as_str()).collect()
}

fn texts(body: &[Vec<Segment>]) -> Vec<String> {
    body.iter().map(|l| text(l)).collect()
}

#[test]
fn a_field_pads_its_label_into_a_column() {
    let line = field("seed", "7".to_string(), 9);
    assert_eq!(line[0].text, "seed      ");
    assert_eq!(line[0].tone, Tone::Dim);
    assert_eq!(line[1].text, "7");
    assert_eq!(line[1].tone, Tone::Ink);
    let long = field("remaining", "-".to_string(), 4);
    assert_eq!(text(&long), "remaining -");
}

#[test]
fn before_anything_happens_the_running_stage_is_the_only_row() {
    let view = RenderView::new(request(), 0);
    let body = stages_of(&view);
    assert_eq!(texts(&body), vec!["loading    0.0s".to_string()]);
    assert_eq!(body[0][0].tone, Tone::Accent);
}

#[test]
fn finished_stages_are_listed_with_their_times_and_the_live_one_last() {
    let mut view = RenderView::new(request(), 0);
    view.observe(&Progress::Loading, 0);
    view.observe(&Progress::Cooking { pass: 1, passes: 4 }, 1_500);
    let body = stages_of(&view);
    assert_eq!(
        texts(&body),
        vec!["loading    1.5s".to_string(), "cooking    0.0s".to_string()]
    );
    assert_eq!(body[0][0].tone, Tone::Dim);
    assert_eq!(body[1][0].tone, Tone::Accent);
}

#[test]
fn a_finished_render_with_no_timings_says_so() {
    let mut view = RenderView::new(request(), 0);
    view.stage = Stage::Done;
    let body = stages_of(&view);
    assert_eq!(texts(&body), vec!["nothing has finished yet".to_string()]);
}

#[test]
fn the_subject_names_what_was_asked_for_and_leaves_out_what_was_not() {
    let mut view = RenderView::new(request(), 0);
    view.triangles = Some(1200);
    assert_eq!(
        texts(&subject(&view)),
        vec![
            "input     scene.slxy".to_string(),
            "output    out.png".to_string(),
            "engine    from the scene".to_string(),
            "size      320x240".to_string(),
            "samples   64".to_string(),
            "seed      7".to_string(),
            "triangles 1200".to_string(),
        ]
    );
}

#[test]
fn progress_reports_samples_time_and_estimate() {
    let mut view = RenderView::new(request(), 0);
    view.tiles = 4;
    view.tile_samples = 64;
    view.tile = 1;
    view.sample = 0;
    view.elapsed = 2_000;
    view.stage = Stage::Drawing;
    let body = progress_of(&view, Some("6.0s"));
    assert_eq!(
        texts(&body),
        vec![
            "drawing".to_string(),
            "samples   64 of 256".to_string(),
            "elapsed   2.0s".to_string(),
            "remaining 6.0s".to_string(),
        ]
    );
    assert_eq!(body[0][0].tone, Tone::Emphasis);
}

#[test]
fn progress_while_cooking_shows_the_pass_and_no_estimate() {
    let mut view = RenderView::new(request(), 0);
    view.observe(&Progress::Cooking { pass: 2, passes: 12 }, 0);
    assert_eq!(
        texts(&progress_of(&view, None)),
        vec![
            "cooking".to_string(),
            "pass      2 of 12".to_string(),
            "elapsed   0.0s".to_string(),
            "remaining -".to_string(),
        ]
    );
}

#[test]
fn a_stop_request_is_the_status_in_the_warning_tone() {
    let mut view = RenderView::new(request(), 0);
    view.cancelling = true;
    let body = progress_of(&view, None);
    assert_eq!(body[0][0].text, "stopping");
    assert_eq!(body[0][0].tone, Tone::Warning);
    view.cancelling = false;
    view.stage = Stage::Failed;
    assert_eq!(progress_of(&view, None)[0][0].tone, Tone::Failure);
    view.stage = Stage::Done;
    assert_eq!(progress_of(&view, None)[0][0].tone, Tone::Success);
}

#[test]
fn throughput_keeps_what_fits_and_the_latest() {
    let mut view = RenderView::new(request(), 0);
    assert_eq!(throughput(&view, 10), None);
    view.throughput = vec![1, 2, 3, 4, 5];
    assert_eq!(throughput(&view, 3), Some((vec![3, 4, 5], 5)));
    assert_eq!(throughput(&view, 80), Some((vec![1, 2, 3, 4, 5], 5)));
}

#[test]
fn the_picture_waits_for_its_first_tile_then_shades() {
    let glyphs = Glyphs::for_tier(GlyphTier::Ascii);
    let mut view = RenderView::new(request(), 0);
    assert_eq!(
        texts(&picture(&view, 20, 10, &glyphs)),
        vec!["no tile has finished yet".to_string()]
    );
    view.picture = Some(Picture {
        width: 4,
        height: 2,
        luma: vec![0, 0, 255, 255, 0, 0, 255, 255],
    });
    let body = picture(&view, 4, 4, &glyphs);
    assert_eq!(body.len(), 1);
    assert_eq!(body[0][0].tone, Tone::Ink);
    assert_eq!(body[0][0].text.chars().count(), 4);
}

fn sampling(tile: u32, sample: u32) -> Progress {
    Progress::Sampling {
        tile,
        tiles: 12,
        columns: 4,
        rows: 3,
        sample,
        samples: 64,
        elapsed_ms: 4200,
    }
}

/// Every readout's text, under its panel's name, for a render part way
/// through.
fn every_readout() -> String {
    let glyphs = Glyphs::for_tier(GlyphTier::Unicode);
    let mut view = RenderView::new(
        Request {
            input: "scene.slxy".into(),
            output: "render.png".into(),
            engine: Some("path traced".into()),
            size: Some((1920, 1080)),
            samples: Some(64),
            bounces: Some(6),
            seed: Some(11),
        },
        0,
    );
    view.observe(&Progress::Loading, 0);
    view.observe(&Progress::BuildingHierarchy { triangles: 345_678 }, 80);
    view.observe(&sampling(5, 32), 400);
    view.observe(&sampling(5, 48), 900);
    view.picture = Some(Picture {
        width: 64,
        height: 48,
        luma: (0..64 * 48).map(|i| (i % 256) as u8).collect(),
    });
    let mut out = Vec::new();
    for panel in DashPanel::choosable() {
        out.push(panel.name().to_string());
        let body = match panel {
            DashPanel::Tiles => tiles(&view, 40, &glyphs),
            DashPanel::Progress => progress_of(&view, None),
            DashPanel::Stages => stages_of(&view),
            DashPanel::Subject => subject(&view),
            DashPanel::Throughput => match throughput(&view, 40) {
                Some((_, latest)) => vec![field("samples/s", latest.to_string(), 10)],
                None => vec![],
            },
            DashPanel::Picture => picture(&view, 40, 12, &glyphs),
        };
        out.extend(texts(&body));
    }
    out.join("\n")
}

#[test]
fn the_six_readouts_put_their_facts_on_the_screen() {
    let text = every_readout();
    for want in ["progress", "tiles", "stages", "render", "throughput", "picture"] {
        assert!(text.contains(want), "no {want} panel:\n{text}");
    }
    for want in [
        "tile 6 of 12",
        "elapsed",
        "remaining",
        "hierarchy",
        "scene.slxy",
        "path traced",
        "1920x1080",
    ] {
        assert!(text.contains(want), "missing {want}:\n{text}");
    }
}
