use w2m::error::W2mError;
use w2m::renderer::{config_error, launch_error, RenderOpts};

#[test]
fn missing_chrome_is_recognized() {
    assert!(matches!(launch_error("Could not find Chrome executable"), W2mError::ChromeNotFound));
    assert!(matches!(launch_error("spawn: No such file or directory"), W2mError::ChromeNotFound));
    assert!(matches!(launch_error("crashed"), W2mError::Render(ref m) if m == "crashed"));
}

#[test]
fn config_error_message() {
    assert!(matches!(config_error("bad"), W2mError::Render(ref m) if m == "config: bad"));
}

#[test]
fn render_opts_default() {
    let o = RenderOpts::default();
    assert_eq!(o.timeout_ms, 30_000);
    assert_eq!(o.settle_ms, 2000);
}
