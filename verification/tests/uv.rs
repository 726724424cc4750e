use solarxy_cli::keymap::{KeyCode, KeyEvent};
use solarxy_cli::panels::uv::Uv;

fn key(c: char) -> KeyEvent {
    KeyEvent { code: KeyCode::Char(c), control: false }
}

#[test]
fn z_toggles_the_zoom_and_nothing_else_does() {
    let mut uv = Uv::default();
    assert!(!uv.zoomed);
    assert!(uv.handle(key('z')));
    assert!(uv.zoomed);
    assert!(uv.handle(key('Z')));
    assert!(!uv.zoomed);
    assert!(!uv.handle(key('x')));
    assert!(!uv.zoomed);
    assert_eq!(Uv::menu(), vec!["set", "zoom"]);
}
