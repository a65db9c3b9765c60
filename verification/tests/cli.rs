use w2m::cli::{default_out_dir, resolve_opts, resolve_render, sanitize_slug, Cli, RenderStrategy};
use w2m::config::HostRules;
use w2m::web_url::WebUrl;

fn cli(url: &str) -> Cli {
    Cli {
        url: url.to_string(),
        out: None,
        render: false,
        no_render: false,
        selector: None,
        no_assets: false,
        concurrency: None,
        wait_ms: None,
        config: None,
        verbose: 0,
    }
}

fn url(s: &str) -> WebUrl {
    WebUrl::parse(s).unwrap()
}

fn strategy(opts: &w2m::pipeline::Opts) -> RenderStrategy {
    if opts.force_render {
        RenderStrategy::Force
    } else if opts.no_render {
        RenderStrategy::Disabled
    } else {
        RenderStrategy::Auto
    }
}

#[test]
fn cli_no_render_overrides_host_render_true() {
    let rules = HostRules { render: Some(true), ..Default::default() };
    let u = url("https://example.com/x");
    let mut c = cli("https://example.com/x");
    c.no_render = true;
    let opts = resolve_opts(&c, &rules, &u);
    assert_eq!(strategy(&opts), RenderStrategy::Disabled);
    assert!(!opts.force_render);
}

#[test]
fn cli_render_overrides_host_no_render() {
    let rules = HostRules { no_render: Some(true), ..Default::default() };
    let u = url("https://example.com/x");
    let mut c = cli("https://example.com/x");
    c.render = true;
    let opts = resolve_opts(&c, &rules, &u);
    assert_eq!(strategy(&opts), RenderStrategy::Force);
    assert!(!opts.no_render);
}

#[test]
fn host_render_applies_when_cli_silent() {
    let rules = HostRules { render: Some(true), ..Default::default() };
    let u = url("https://example.com/x");
    let opts = resolve_opts(&cli("https://example.com/x"), &rules, &u);
    assert_eq!(strategy(&opts), RenderStrategy::Force);
}

#[test]
fn neither_set_means_auto() {
    let rules = HostRules::default();
    let u = url("https://example.com/x");
    let opts = resolve_opts(&cli("https://example.com/x"), &rules, &u);
    assert_eq!(strategy(&opts), RenderStrategy::Auto);
}

#[test]
fn host_no_render_applies_when_cli_silent() {
    let rules = HostRules { no_render: Some(true), ..Default::default() };
    assert_eq!(resolve_render(&cli("https://e.com"), &rules), RenderStrategy::Disabled);
    let rules = HostRules { render: Some(false), no_render: Some(true), ..Default::default() };
    assert_eq!(resolve_render(&cli("https://e.com"), &rules), RenderStrategy::Disabled);
}

#[test]
fn slug_distinguishes_query_strings() {
    let a = url("https://example.com/article?id=1");
    let b = url("https://example.com/article?id=2");
    assert_ne!(default_out_dir(&a), default_out_dir(&b));
}

#[test]
fn slug_omits_empty_query() {
    let a = url("https://example.com/article");
    let b = url("https://example.com/article?");
    assert_eq!(default_out_dir(&a), default_out_dir(&b));
}

#[test]
fn slug_exact_values() {
    assert_eq!(default_out_dir(&url("https://example.com")), "example.com");
    assert_eq!(default_out_dir(&url("https://example.com/a/b/")), "example.com-a-b");
    assert_eq!(default_out_dir(&url("https://example.com/article?id=1&x=y z")), "example.com-article-id_1_x_y_20z");
    assert_eq!(default_out_dir(&url("file:///tmp/x.html")), "page-tmp-x.html");
}

#[test]
fn sanitize_slug_keeps_safe_chars() {
    assert_eq!(sanitize_slug("id=1&b.c-d_e"), "id_1_b.c-d_e");
}

#[test]
fn cli_values_win_over_config_over_defaults() {
    let rules = HostRules {
        selector: Some("main".to_string()),
        no_assets: Some(true),
        concurrency: Some(3),
        wait_ms: Some(5000),
        ..Default::default()
    };
    let u = url("https://example.com/p");
    let opts = resolve_opts(&cli("https://example.com/p"), &rules, &u);
    assert_eq!(opts.selector.as_deref(), Some("main"));
    assert!(opts.no_assets);
    assert_eq!(opts.concurrency, 3);
    assert_eq!(opts.wait_ms, 5000);
    assert_eq!(opts.out_dir, "example.com-p");

    let mut c = cli("https://example.com/p");
    c.selector = Some("article".to_string());
    c.concurrency = Some(1);
    c.wait_ms = Some(10);
    c.out = Some("dest".to_string());
    let opts = resolve_opts(&c, &rules, &u);
    assert_eq!(opts.selector.as_deref(), Some("article"));
    assert_eq!(opts.concurrency, 1);
    assert_eq!(opts.wait_ms, 10);
    assert_eq!(opts.out_dir, "dest");

    let opts = resolve_opts(&cli("https://example.com/p"), &HostRules::default(), &u);
    assert_eq!(opts.selector, None);
    assert!(!opts.no_assets);
    assert_eq!(opts.concurrency, 8);
    assert_eq!(opts.wait_ms, 2000);
}
