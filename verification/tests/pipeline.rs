use w2m::converter::AssetMap;
use w2m::error::W2mError;
use w2m::output::RenderMode;
use w2m::pipeline::{looks_like_empty_spa, render_opts, step, Action, Event, Opts, Stage};
use w2m::web_url::WebUrl;

const ARTICLE: &str = r#"<!doctype html>
<html><head><title>Test Article</title></head>
<body>
  <nav><a href="/">Home</a></nav>
  <article>
    <h1>Test Article</h1>
    <p>This is the first paragraph of real content. It has enough words in it to look like
       an actual article, with sentences, commas, and a sense of purpose, so that readability
       scores it well above the navigation and the footer of the page.</p>
    <p>This is the second paragraph of real content. It goes on for a while as well, talking
       about the subject at hand, adding detail after detail, so that the article body is long
       enough to be chosen as the main content of the page by the heuristic.</p>
    <p><img src="/img.png" alt="x"></p>
  </article>
  <footer>Site footer</footer>
</body></html>"#;

const EMPTY_SPA: &str = r#"<!doctype html><html><head><title>App</title></head>
<body><div id="root"></div><script src="/bundle.js"></script></body></html>"#;

fn nextjs_shell() -> String {
    let filler = "Loading the application shell ".repeat(10);
    format!(r#"<html><body><div id="__next"><p>{filler}</p></div></body></html>"#)
}

fn opts() -> Opts {
    Opts {
        out_dir: "out".to_string(),
        force_render: false,
        no_render: false,
        selector: None,
        no_assets: false,
        concurrency: 2,
        wait_ms: 0,
    }
}

fn url() -> WebUrl {
    WebUrl::parse("https://example.com/page").unwrap()
}

#[test]
fn detects_empty_spa() {
    assert!(looks_like_empty_spa(EMPTY_SPA));
}

#[test]
fn detects_nextjs_shell() {
    let html = nextjs_shell();
    assert!(looks_like_empty_spa(&html));
    // the same amount of text without a mount point is not a shell
    assert!(!looks_like_empty_spa(&html.replace("id=\"__next\"", "id=\"main\"")));
}

#[test]
fn does_not_flag_real_article() {
    assert!(!looks_like_empty_spa(ARTICLE));
}

#[test]
fn render_opts_uses_wait() {
    let o = render_opts(1500);
    assert_eq!(o.timeout_ms, 30_000);
    assert_eq!(o.settle_ms, 1500);
}

#[test]
fn static_page_flows_to_download_and_write() {
    let o = opts();
    let u = url();
    let (stage, action) = step(&o, &u, Stage::Start, Event::Begin);
    assert!(matches!(action, Action::FetchStatic));
    let (stage, action) = step(&o, &u, stage, Event::StaticFetched(Ok(ARTICLE.to_string())));
    let urls = match action {
        Action::DownloadAssets(urls) => urls,
        _ => panic!("expected a download"),
    };
    assert_eq!(urls.len(), 1);
    assert_eq!(urls[0].as_str(), "https://example.com/img.png");
    let mut map = AssetMap::new();
    map.insert("https://example.com/img.png".into(), "assets/0-img.png".into());
    let (stage, action) = step(&o, &u, stage, Event::AssetsDownloaded(Ok(map)));
    match action {
        Action::WriteBundle(b) => {
            assert_eq!(b.render_mode, RenderMode::Static);
            assert!(b.markdown.contains("assets/0-img.png"));
            assert!(b.markdown.contains("paragraph of real content"));
        }
        _ => panic!("expected a write"),
    }
    let (stage, action) = step(&o, &u, stage, Event::BundleWritten(Ok(())));
    assert!(matches!(stage, Stage::Done));
    assert!(matches!(action, Action::Finish(Ok(()))));
}

#[test]
fn forced_render_skips_static_fetch() {
    let mut o = opts();
    o.force_render = true;
    o.no_assets = true;
    let u = url();
    let (stage, action) = step(&o, &u, Stage::Start, Event::Begin);
    assert!(matches!(action, Action::Render));
    let (_, action) = step(&o, &u, stage, Event::Rendered(Ok(ARTICLE.to_string())));
    match action {
        Action::WriteBundle(b) => {
            assert_eq!(b.render_mode, RenderMode::Headless);
            assert!(b.markdown.contains("/img.png"));
        }
        _ => panic!("expected a write"),
    }
}

#[test]
fn spa_shell_falls_back_to_render() {
    let o = opts();
    let u = url();
    let (stage, action) = step(&o, &u, Stage::FetchingStatic, Event::StaticFetched(Ok(EMPTY_SPA.to_string())));
    assert!(matches!(action, Action::Render));
    assert!(matches!(stage, Stage::Rendering));
}

#[test]
fn no_render_keeps_the_shell_and_fails_extraction() {
    let mut o = opts();
    o.no_render = true;
    let u = url();
    let (stage, action) = step(&o, &u, Stage::FetchingStatic, Event::StaticFetched(Ok(EMPTY_SPA.to_string())));
    assert!(matches!(stage, Stage::Done));
    match action {
        Action::Finish(Err(e)) => {
            assert!(matches!(e, W2mError::EmptySpaWithoutRender | W2mError::ExtractionFailed(_)));
            assert_eq!(e.exit_code(), 4);
        }
        _ => panic!("expected a failure"),
    }
}

#[test]
fn unrendered_shell_with_selector_miss_is_reported() {
    let mut o = opts();
    o.no_render = true;
    o.selector = Some("article".to_string());
    let u = url();
    let (_, action) = step(&o, &u, Stage::FetchingStatic, Event::StaticFetched(Ok(EMPTY_SPA.to_string())));
    assert!(matches!(action, Action::Finish(Err(W2mError::EmptySpaWithoutRender))));
}

#[test]
fn static_extraction_miss_is_retried_and_marked_headless() {
    let mut o = opts();
    o.selector = Some("article".to_string());
    o.no_assets = true;
    let u = url();
    let page = format!("<html><body><main>{}</main></body></html>", "Plenty of static text here. ".repeat(20));
    let (stage, action) = step(&o, &u, Stage::FetchingStatic, Event::StaticFetched(Ok(page)));
    assert!(matches!(stage, Stage::RetryRendering));
    assert!(matches!(action, Action::Render));
    let (_, action) = step(&o, &u, stage, Event::Rendered(Ok(ARTICLE.to_string())));
    match action {
        Action::WriteBundle(b) => assert_eq!(b.render_mode, RenderMode::Headless),
        _ => panic!("expected a write"),
    }
}

#[test]
fn empty_extraction_after_render_is_retried_once() {
    let o = opts();
    let u = url();
    let (stage, action) = step(&o, &u, Stage::Rendering, Event::Rendered(Ok(EMPTY_SPA.to_string())));
    match (&stage, &action) {
        (Stage::RetryRendering, Action::Render) => {}
        (Stage::Done, Action::Finish(Err(W2mError::ExtractionFailed(_)))) => return,
        _ => panic!("unexpected step"),
    }
    let (stage, action) = step(&o, &u, stage, Event::Rendered(Ok(EMPTY_SPA.to_string())));
    assert!(matches!(stage, Stage::Done));
    assert!(matches!(action, Action::Finish(Err(_))));
}

#[test]
fn fetch_failure_ends_the_run() {
    let o = opts();
    let u = url();
    let (stage, action) = step(&o, &u, Stage::FetchingStatic, Event::StaticFetched(Err(W2mError::Http("404".into()))));
    assert!(matches!(stage, Stage::Done));
    assert!(matches!(action, Action::Finish(Err(W2mError::Http(_)))));
}

#[test]
fn stage_accepts_only_its_event() {
    assert!(Stage::Start.accepts(&Event::Begin));
    assert!(!Stage::Start.accepts(&Event::Rendered(Ok(String::new()))));
    assert!(Stage::Writing.accepts(&Event::BundleWritten(Ok(()))));
    assert!(!Stage::Done.accepts(&Event::Begin));
}
