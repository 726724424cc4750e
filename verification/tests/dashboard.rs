use solarxy_cli::dashboard::{footer_words, stops_the_render, DashPanel, Dashboard, Ending};
use solarxy_cli::keymap::{KeyCode, KeyEvent};
use solarxy_cli::render_state::{Request, Stage};
use solarxy_cli::shell::{Flow, Input};

fn request() -> Request {
    Request {
        input: "scene.slxy".into(),
        output: "render.png".into(),
        engine: Some("path traced".into()),
        size: Some((1920, 1080)),
        samples: Some(64),
        bounces: Some(6),
        seed: Some(11),
    }
}

fn key(code: KeyCode) -> KeyEvent {
    KeyEvent { code, control: false }
}

#[test]
fn the_quit_key_asks_the_render_to_stop() {
    let mut dashboard = Dashboard::new(request(), 0);
    assert!(!dashboard.view.cancelling);
    assert_eq!(
        dashboard.handle(Input::Key(key(KeyCode::Char('q')))),
        Flow::Continue,
        "the surface ended the loop instead of asking the render to"
    );
    assert!(dashboard.view.cancelling, "the key did not reach the render");
    assert!(dashboard.quit);
}

#[test]
fn other_input_leaves_the_render_running() {
    let mut dashboard = Dashboard::new(request(), 0);
    assert_eq!(dashboard.handle(Input::Key(key(KeyCode::Char('x')))), Flow::Continue);
    assert_eq!(dashboard.handle(Input::Tick), Flow::Continue);
    assert!(!dashboard.view.cancelling);
    assert!(!dashboard.quit);
    assert!(stops_the_render(key(KeyCode::Esc)));
    assert!(stops_the_render(key(KeyCode::Char('Q'))));
}

/// The held frame states how the run ended, the way out, and on success the
/// output path, because a static bar at one hundred percent cannot tell
/// success from a failure that happened at the end.
#[test]
fn the_held_frame_states_the_outcome_and_the_way_out() {
    let cases: [(Ending, Vec<&str>, Vec<&str>); 3] = [
        (Ending::Rendered, vec!["dismiss", "rendered", "render.png"], vec![]),
        (
            Ending::Failed("the device fell off\nand the detail follows".into()),
            vec!["dismiss", "failed", "the device fell off"],
            vec!["and the detail follows"],
        ),
        (Ending::Cancelled, vec!["dismiss", "cancelled"], vec![]),
    ];
    for (ending, wants, spurns) in cases {
        let mut dashboard = Dashboard::new(request(), 0);
        dashboard.ending = Some(ending);
        let text: String = footer_words(
            dashboard.view.stage,
            &dashboard.view.request.output,
            dashboard.ending.as_ref(),
        )
        .concat();
        for want in wants {
            assert!(text.contains(want), "missing {want}: {text}");
        }
        for spurn in spurns {
            assert!(!text.contains(spurn), "{spurn} leaked into the footer");
        }
    }
}

#[test]
fn while_running_the_footer_offers_cancel_and_the_last_word() {
    assert_eq!(footer_words(Stage::Drawing, "x.png", None).concat(), " q  cancel");
    assert_eq!(
        footer_words(Stage::Failed, "x.png", None).concat(),
        " q  cancel   failed"
    );
    assert_eq!(DashPanel::fallback(), DashPanel::Progress);
}
