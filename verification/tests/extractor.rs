use w2m::error::W2mError;
use w2m::extractor::extract;
use w2m::web_url::WebUrl;

fn url() -> WebUrl {
    WebUrl::parse("https://example.com/page").unwrap()
}

const ARTICLE: &str = r#"<!doctype html>
<html><head><title>  Test Article </title></head>
<body>
  <nav><a href="/">Home</a> <a href="/about">About</a> <a href="/blog">Blog</a></nav>
  <article>
    <h1>Test Article</h1>
    <p>This is the first paragraph of real content. It has enough words in it to look like
       an actual article, with sentences, commas, and a sense of purpose, so that readability
       scores it well above the navigation and the footer of the page.</p>
    <p>This is the second paragraph of real content. It goes on for a while as well, talking
       about the subject at hand, adding detail after detail, so that the article body is long
       enough to be chosen as the main content of the page by the heuristic.</p>
    <p>A third paragraph of real content closes the article with a few more sentences, because
       articles with several paragraphs are what the extraction expects to find.</p>
  </article>
  <footer>Site footer &copy; 2024</footer>
</body></html>"#;

const EMPTY_SPA: &str = r#"<!doctype html><html><head><title>App</title></head>
<body><div id="root"></div><script src="/bundle.js"></script></body></html>"#;

#[test]
fn readability_finds_article_body() {
    let a = extract(ARTICLE, &url(), None).unwrap();
    assert!(a.content_html.contains("paragraph of real content"));
    // navigation and footer should not appear
    assert!(!a.content_html.contains("Site footer"));
}

#[test]
fn selector_override_picks_chosen_node() {
    let a = extract(ARTICLE, &url(), Some("article")).unwrap();
    assert!(a.content_html.contains("paragraph of real content"));
    assert_eq!(a.title, "Test Article");
}

#[test]
fn empty_spa_returns_extraction_empty() {
    let err = extract(EMPTY_SPA, &url(), None).unwrap_err();
    assert!(matches!(err, W2mError::ExtractionEmpty | W2mError::ExtractionFailed(_)));
}

#[test]
fn selector_without_match_is_extraction_empty() {
    let err = extract(ARTICLE, &url(), Some("table.missing")).unwrap_err();
    assert!(matches!(err, W2mError::ExtractionEmpty));
}

#[test]
fn invalid_selector_is_reported() {
    let err = extract(ARTICLE, &url(), Some("[[")).unwrap_err();
    assert!(matches!(err, W2mError::InvalidSelector(_)));
}

#[test]
fn selector_match_keeps_its_tags() {
    let a = extract("<html><body><main>   </main></body></html>", &url(), Some("main")).unwrap();
    assert_eq!(a.content_html, "<main>   </main>");
}

#[test]
fn missing_title_is_empty() {
    let a = extract("<html><body><main>x</main></body></html>", &url(), Some("main")).unwrap();
    assert_eq!(a.title, "");
    assert_eq!(a.content_html, "<main>x</main>");
}
