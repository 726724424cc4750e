use solarxy_cli::cli::{denoise_choice, streams_clash};
use solarxy_cli::parser::RenderArgs;

fn args(out: &str, json: bool, denoise: bool, no_denoise: bool) -> RenderArgs {
    RenderArgs {
        input: "scene.slxy".to_string(),
        out: out.to_string(),
        render_node: None,
        res: None,
        spp: None,
        bounces: None,
        engine: None,
        denoise,
        no_denoise,
        seed: None,
        aov: Vec::new(),
        exr_space: None,
        json,
        tui: false,
        watch: false,
    }
}

#[test]
fn json_and_an_image_on_standard_output_clash() {
    assert!(streams_clash(&args("-", true, false, false)));
    assert!(!streams_clash(&args("-", false, false, false)));
    assert!(!streams_clash(&args("out.png", true, false, false)));
    assert!(!streams_clash(&args("--", true, false, false)));
}

#[test]
fn the_denoise_flags_say_on_off_or_nothing() {
    assert_eq!(denoise_choice(&args("x.png", false, true, false)), Some(true));
    assert_eq!(denoise_choice(&args("x.png", false, false, true)), Some(false));
    assert_eq!(denoise_choice(&args("x.png", false, false, false)), None);
}

#[test]
fn the_plain_line_stands_aside_for_the_dashboard() {
    let plan = solarxy_cli::cli::sink_plan(true, false);
    assert!(!plan.plain && plan.wants_pixels);
    let plan = solarxy_cli::cli::sink_plan(false, true);
    assert!(plan.plain && plan.wants_pixels);
    let plan = solarxy_cli::cli::sink_plan(false, false);
    assert!(plan.plain && !plan.wants_pixels);
}
