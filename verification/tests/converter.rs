use w2m::converter::{collect_image_urls, local_src_for, to_markdown, AssetMap};
use w2m::extractor::Article;
use w2m::web_url::WebUrl;

fn url() -> WebUrl {
    WebUrl::parse("https://example.com/page").unwrap()
}

fn article(html: &str) -> Article {
    Article { title: "T".into(), content_html: html.into() }
}

#[test]
fn collects_unique_absolute_image_urls() {
    let a = article(r#"<p><img src="/a.png"><img src="/a.png"><img src="https://cdn/x.jpg"></p>"#);
    let urls = collect_image_urls(&a, &url());
    assert_eq!(urls.len(), 2);
    assert!(urls.iter().any(|u| u.as_str() == "https://example.com/a.png"));
    assert!(urls.iter().any(|u| u.as_str() == "https://cdn/x.jpg"));
}

#[test]
fn collected_urls_keep_first_appearance_order() {
    let a = article(r#"<img src="b.png"><img src="/a.png"><img src="b.png"><img>"#);
    let urls: Vec<String> = collect_image_urls(&a, &url()).iter().map(|u| u.as_str().to_string()).collect();
    assert_eq!(urls, vec!["https://example.com/b.png".to_string(), "https://example.com/a.png".to_string()]);
}

#[test]
fn skips_data_uri_images() {
    let a = article(r#"<p><img src="data:image/png;base64,AAAA"></p>"#);
    let urls = collect_image_urls(&a, &url());
    assert!(urls.is_empty());
}

#[test]
fn rewrites_known_assets_in_markdown() {
    let a = article(r#"<p><img src="/a.png" alt="A"></p>"#);
    let mut map = AssetMap::new();
    map.insert("https://example.com/a.png".into(), "assets/a.png".into());
    let md = to_markdown(&a, &url(), &map);
    assert!(md.contains("assets/a.png"), "got: {md}");
    assert!(!md.contains("/a.png\""));
}

#[test]
fn leaves_unmapped_images_alone() {
    let a = article(r#"<p><img src="https://cdn/y.jpg"></p>"#);
    let md = to_markdown(&a, &url(), &AssetMap::new());
    assert!(md.contains("cdn/y.jpg"));
}

#[test]
fn does_not_rewrite_src_inside_code_samples() {
    let html = r#"<p><img src="/a.png" alt="real"></p><pre><code>&lt;img src=&quot;/a.png&quot;&gt;</code></pre>"#;
    let mut map = AssetMap::new();
    map.insert("https://example.com/a.png".into(), "assets/0-a.png".into());
    let md = to_markdown(&article(html), &url(), &map);
    assert!(md.contains("assets/0-a.png"), "got: {md}");
    assert!(md.contains(r#"<img src="/a.png">"#), "code sample was mangled; got: {md}");
}

#[test]
fn does_not_rewrite_other_attributes_with_same_url() {
    let html = r#"<p><img src="/a.png" alt="real"></p><p><a href="/a.png">link</a></p>"#;
    let mut map = AssetMap::new();
    map.insert("https://example.com/a.png".into(), "assets/0-a.png".into());
    let md = to_markdown(&article(html), &url(), &map);
    assert!(md.contains("assets/0-a.png"));
    assert!(md.contains("/a.png)"), "got: {md}");
}

#[test]
fn local_src_resolves_against_the_page() {
    let mut map = AssetMap::new();
    map.insert("https://example.com/img/a.png".into(), "assets/0-a.png".into());
    assert_eq!(local_src_for("img/a.png", &url(), &map).as_deref(), Some("assets/0-a.png"));
    assert_eq!(local_src_for("/img/a.png", &url(), &map).as_deref(), Some("assets/0-a.png"));
    assert_eq!(local_src_for("/img/b.png", &url(), &map), None);
    assert_eq!(local_src_for("data:image/png;base64,AAAA", &url(), &map), None);
}

#[test]
fn asset_map_insert_replaces() {
    let mut map = AssetMap::new();
    assert!(map.is_empty());
    map.insert("k".into(), "v1".into());
    map.insert("j".into(), "w".into());
    map.insert("k".into(), "v2".into());
    assert_eq!(map.len(), 2);
    assert_eq!(map.get("k").map(|s| s.as_str()), Some("v2"));
    assert_eq!(map.get("j").map(|s| s.as_str()), Some("w"));
    assert!(map.get("x").is_none());
}

#[test]
fn markdown_of_plain_paragraph() {
    let md = to_markdown(&article("<p>Hello <b>world</b></p>"), &url(), &AssetMap::new());
    assert_eq!(md.trim(), "Hello **world**");
}
