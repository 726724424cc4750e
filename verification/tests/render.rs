use solarxy_cli::caps::GlyphTier;
use solarxy_cli::glyphs::Glyphs;
use solarxy_cli::render_state::{tiles, Picture, Progress, RenderView, Request, Stage};
use solarxy_cli::window::{window_size, Frame, MAX_EDGE};

fn sampling(tile: u32, sample: u32, elapsed_ms: u64) -> Progress {
    Progress::Sampling {
        tile,
        tiles: 4,
        columns: 2,
        rows: 2,
        sample,
        samples: 64,
        elapsed_ms,
    }
}

fn view(now: u64) -> RenderView {
    RenderView::new(
        Request {
            input: "scene.slxy".into(),
            output: "out.png".into(),
            engine: Some("path traced".into()),
            size: Some((320, 240)),
            samples: Some(64),
            bounces: None,
            seed: None,
        },
        now,
    )
}

fn flat(width: u32, height: u32, value: u8) -> Picture {
    Picture {
        width,
        height,
        luma: vec![value; (width * height) as usize],
    }
}

#[test]
fn the_bar_measures_the_picture_and_not_the_tile() {
    let mut view = view(0);
    view.observe(&sampling(0, 32, 100), 0);
    assert_eq!((view.samples_drawn(), view.samples_total()), (32, 256));
    view.observe(&sampling(3, 64, 800), 0);
    assert_eq!(view.samples_drawn(), view.samples_total());
}

#[test]
fn each_stage_is_recorded_once_as_it_ends() {
    let start = 1_000;
    let mut view = view(start);
    view.observe(&Progress::Loading, start);
    view.observe(&Progress::Cooking { pass: 1, passes: 12 }, start + 40);
    view.observe(&Progress::Cooking { pass: 2, passes: 12 }, start + 90);
    view.observe(&sampling(0, 0, 100), start + 120);
    view.observe(
        &Progress::Writing {
            output: "out.png".to_string(),
        },
        start + 500,
    );
    let names: Vec<&str> = view.timings.iter().map(|(s, _)| s.name()).collect();
    assert_eq!(names, ["loading", "cooking", "drawing"]);
    assert_eq!(view.stage, Stage::Writing);
    assert!(view.timings[1].1 >= 80, "{}", view.timings[1].1);
    assert_eq!(view.cook, Some((2, 12)));
}


#[test]
fn throughput_ignores_readings_too_close_together() {
    let start = 0;
    let mut view = view(start);
    for i in 0..50u64 {
        view.observe(&sampling(0, i as u32, i), start + i);
    }
    assert!(view.throughput.is_empty(), "a rate was taken over fifty milliseconds");
    view.observe(&sampling(0, 50, 400), start + 400);
    assert_eq!(view.throughput.len(), 1);
    assert_eq!(view.throughput[0], 125, "fifty samples in four tenths of a second");
}



#[test]
fn the_fit_keeps_the_pictures_proportions() {
    let square = flat(100, 100, 0);
    assert_eq!(square.fit(40, 40), (40, 20));
    assert_eq!(square.fit(40, 10), (20, 10));
}

#[test]
fn a_picture_wider_than_the_panel_is_bounded_by_it() {
    let wide = flat(400, 100, 0);
    let (columns, rows) = wide.fit(40, 40);
    assert!(columns <= 40 && rows <= 40, "{columns}x{rows}");
    assert_eq!((columns, rows), (40, 5));
    assert_eq!(flat(0, 10, 0).fit(40, 40), (0, 0));
}

#[test]
fn render_watch_a_large_render_opens_at_a_size_that_fits_a_screen() {
    let huge = Frame {
        width: 8192,
        height: 4608,
        rgba: Vec::new(),
    };
    let (w, h) = huge.window_size();
    assert_eq!(w, MAX_EDGE);
    assert_eq!(h, 720, "the shape did not survive the bound");
    let small = Frame {
        width: 640,
        height: 480,
        rgba: Vec::new(),
    };
    assert_eq!(small.window_size(), (640, 480));
}

#[test]
fn mod_a_large_render_opens_at_a_size_that_fits_a_screen() {
    let (w, h) = window_size(8192, 4608);
    assert_eq!(w, MAX_EDGE);
    assert_eq!(h, 720, "the shape did not survive the bound");
    assert_eq!(window_size(640, 480), (640, 480));
}

#[test]
fn a_tall_or_empty_picture_still_opens_a_window() {
    assert_eq!(window_size(100, 10_000), (12, MAX_EDGE));
    assert_eq!(window_size(0, 0), (1, 1));
    assert_eq!(window_size(1, 100_000), (1, MAX_EDGE));
}

#[test]
fn the_tile_grid_fills_as_each_tile_converges() {
    let glyphs = Glyphs::for_tier(GlyphTier::Ascii);
    let mut view = view(0);
    let waiting = tiles(&view, 40, &glyphs);
    assert_eq!(waiting.len(), 1);
    assert_eq!(waiting[0][0].text, "waiting for the plan");

    view.tiles = 6;
    view.columns = 3;
    view.rows = 2;
    view.tile = 4;
    view.sample = 16;
    view.tile_samples = 64;
    let lines = tiles(&view, 12, &glyphs);
    let text: Vec<String> = lines
        .iter()
        .map(|line| line.iter().map(|s| s.text.clone()).collect())
        .collect();
    assert_eq!(text, ["#########", "###...   ", "", "tile 5 of 6"]);

    let narrow: Vec<String> = tiles(&view, 2, &glyphs)
        .iter()
        .map(|line| line.iter().map(|s| s.text.clone()).collect())
        .collect();
    assert_eq!(narrow[1], "#. ", "a narrow panel still gives each tile a cell");
}
