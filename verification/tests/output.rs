use w2m::error::W2mError;
use w2m::output::{bundle_text, prepare_output_dir, yaml_escape, DirState, Meta, RenderMode, Timestamp};

fn meta(mode: RenderMode) -> Meta {
    Meta {
        title: "Hello".to_string(),
        source_url: "https://example.com/x".to_string(),
        fetched_at: Timestamp::from_unix(1777154400, 0).unwrap(),
        render_mode: mode,
    }
}

#[test]
fn writes_index_with_frontmatter() {
    let content = bundle_text("# Body\n", &meta(RenderMode::Static));
    assert!(content.starts_with("---\n"));
    assert!(content.contains("title: \"Hello\""));
    assert!(content.contains("render_mode: static"));
    assert!(content.ends_with("# Body\n"));
}

#[test]
fn bundle_text_is_exact() {
    let content = bundle_text("body", &meta(RenderMode::Headless));
    assert_eq!(
        content,
        "---\ntitle: \"Hello\"\nsource_url: \"https://example.com/x\"\nfetched_at: 2026-04-25T22:00:00+00:00\nrender_mode: headless\n---\n\nbody"
    );
}

#[test]
fn errors_when_dir_non_empty() {
    let err = prepare_output_dir("out", DirState::NonEmpty).unwrap_err();
    assert!(matches!(err, W2mError::OutputExists(ref d) if d == "out"));
}

#[test]
fn missing_dir_is_created_and_empty_dir_reused() {
    assert!(prepare_output_dir("out", DirState::Missing).unwrap());
    assert!(!prepare_output_dir("out", DirState::Empty).unwrap());
}

#[test]
fn dir_holding_only_downloaded_assets_is_written() {
    assert!(!prepare_output_dir("out", DirState::OnlyAssets).unwrap());
}

#[test]
fn source_url_is_quoted() {
    let mut m = meta(RenderMode::Static);
    m.source_url = "https://example.com/?q=\"x\"".to_string();
    let content = bundle_text("", &m);
    assert!(content.contains("source_url: \"https://example.com/?q=\\\"x\\\"\"\n"), "got: {content}");
}

#[test]
fn yaml_escape_handles_quotes() {
    assert_eq!(yaml_escape(r#"a"b\c"#), r#""a\"b\\c""#);
}

#[test]
fn yaml_escape_plain_and_empty() {
    assert_eq!(yaml_escape("plain title"), "\"plain title\"");
    assert_eq!(yaml_escape(""), "\"\"");
}

#[test]
fn render_mode_names() {
    assert_eq!(RenderMode::Static.as_str(), "static");
    assert_eq!(RenderMode::Headless.as_str(), "headless");
}

#[test]
fn timestamp_rfc3339_text() {
    let t = Timestamp::from_unix(1431648000, 0).unwrap();
    assert_eq!(t.to_rfc3339(), "2015-05-15T00:00:00+00:00");
    let t = Timestamp::from_unix(1431648000, 500_000_000).unwrap();
    assert_eq!(t.to_rfc3339(), "2015-05-15T00:00:00.500+00:00");
}

#[test]
fn timestamp_out_of_range_is_rejected() {
    assert!(Timestamp::from_unix(i64::MAX, 0).is_none());
    assert!(Timestamp::from_unix(0, 2_000_000_000).is_none());
}
