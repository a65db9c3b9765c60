//! Readings of an HTML document made by the HTML crates (`scraper`,
//! `readability`, `htmd`). Each is a function of its arguments alone and is
//! named here; the converter's logic is stated over these names.

use vstd::prelude::*;
use crate::web_url::WebUrl;

verus! {

/// The text (all descendant text nodes, concatenated) of the first element
/// that the CSS selector `selector` matches in `html` parsed as a document by
/// `scraper`, or `None` where nothing matches or the selector does not parse.
pub uninterp spec fn first_text(html: Seq<char>, selector: Seq<char>) -> Option<Seq<char>>;

/// The values of the attribute `attr` of the elements that the CSS selector
/// `selector` matches in `html` parsed as a fragment by `scraper`, in
/// document order (the empty text for a match without that attribute), or
/// nothing where the selector does not parse.
pub uninterp spec fn fragment_attr_values(
    html: Seq<char>,
    selector: Seq<char>,
    attr: Seq<char>,
) -> Seq<Seq<char>>;

/// The text of the first `<title>` of the document, if any.
pub open spec fn document_title_text(html: Seq<char>) -> Option<Seq<char>> {
    first_text(html, "title"@)
}

/// `scraper`'s reading of `html` as a document, queried with the CSS
/// selector `selector`: the outer HTML of the first match (`None` where
/// nothing matches), or, where the selector does not parse, the `Debug`
/// text of the selector error.
pub uninterp spec fn first_match(html: Seq<char>, selector: Seq<char>) -> Result<
    Option<Seq<char>>,
    Seq<char>,
>;

/// The text of the document's `<body>`, if it has one.
pub open spec fn document_body_text(html: Seq<char>) -> Option<Seq<char>> {
    first_text(html, "body"@)
}

/// The `src` of every `<img src>` of the fragment, in document order.
pub open spec fn fragment_img_srcs(html: Seq<char>) -> Seq<Seq<char>> {
    fragment_attr_values(html, "img[src]"@, "src"@)
}

/// `readability::extractor::extract` run on `html` with the URL serialized as
/// `base`: the article's title and content, or the error's message.
pub uninterp spec fn readability_output(html: Seq<char>, base: Seq<char>) -> Result<
    (Seq<char>, Seq<char>),
    Seq<char>,
>;

/// `htmd::convert` of `html`: the Markdown, or the error's message.
pub uninterp spec fn htmd_output(html: Seq<char>) -> Result<Seq<char>, Seq<char>>;

/// The view of a result of two strings or an error text.
pub open spec fn pair_result_view(r: Result<(String, String), String>) -> Result<
    (Seq<char>, Seq<char>),
    Seq<char>,
> {
    match r {
        Ok((a, b)) => Ok((a@, b@)),
        Err(e) => Err(e@),
    }
}

/// The view of a result of a string or an error text.
pub open spec fn text_result_view(r: Result<String, String>) -> Result<Seq<char>, Seq<char>> {
    match r {
        Ok(a) => Ok(a@),
        Err(e) => Err(e@),
    }
}

/// The views of a vector of strings.
pub open spec fn strings_view(v: Seq<String>) -> Seq<Seq<char>> {
    v.map_values(|s: String| s@)
}

/// `scraper`: the text of the first element that `selector` matches
/// (`Selector::parse`, `Html::parse_document`, `select`, `ElementRef::text`).
#[verifier::external_body]
pub fn first_match_text(html: &str, selector: &str) -> (res: Option<String>)
    ensures
        crate::text::opt_view(res) == first_text(html@, selector@),
{
    let doc = scraper::Html::parse_document(html);
    match scraper::Selector::parse(selector) {
        Ok(sel) => doc.select(&sel).next().map(|t| t.text().collect::<String>()),
        Err(_) => None,
    }
}

/// `scraper`: the value of `attr` on every element of a fragment that
/// `selector` matches, in order (`Selector::parse`, `Html::parse_fragment`,
/// `select`, `Element::attr`).
#[verifier::external_body]
pub fn fragment_attrs(html: &str, selector: &str, attr: &str) -> (res: Vec<String>)
    ensures
        strings_view(res@) == fragment_attr_values(html@, selector@, attr@),
{
    let doc = scraper::Html::parse_fragment(html);
    match scraper::Selector::parse(selector) {
        Ok(sel) => doc.select(&sel).map(|e| e.value().attr(attr).unwrap_or_default().to_string()).collect(),
        Err(_) => Vec::new(),
    }
}

/// The text of the document's first `<title>`.
pub fn title_text(html: &str) -> (res: Option<String>)
    ensures
        crate::text::opt_view(res) == document_title_text(html@),
{
    first_match_text(html, "title")
}

/// `scraper`: the outer HTML of the first element that `selector` matches
/// (`Selector::parse`, `Html::parse_document`, `select`, `ElementRef::html`).
#[verifier::external_body]
pub fn first_match_html(html: &str, selector: &str) -> (res: Result<Option<String>, String>)
    ensures
        match (res, first_match(html@, selector@)) {
            (Ok(a), Ok(b)) => crate::text::opt_view(a) == b,
            (Err(e), Err(f)) => e@ == f,
            _ => false,
        },
{
    let doc = scraper::Html::parse_document(html);
    match scraper::Selector::parse(selector) {
        Ok(sel) => Ok(doc.select(&sel).next().map(|n| n.html())),
        Err(e) => Err(format!("{e:?}")),
    }
}

/// The text of the document's `<body>`.
pub fn body_text(html: &str) -> (res: Option<String>)
    ensures
        crate::text::opt_view(res) == document_body_text(html@),
{
    first_match_text(html, "body")
}

/// The `src` of every `<img src>` of a fragment, in order.
pub fn img_srcs(html: &str) -> (res: Vec<String>)
    ensures
        strings_view(res@) == fragment_img_srcs(html@),
{
    fragment_attrs(html, "img[src]", "src")
}

/// `readability::extractor::extract`: the article's title and content.
#[verifier::external_body]
pub fn readability_extract(html: &str, base: &WebUrl) -> (res: Result<(String, String), String>)
    ensures
        pair_result_view(res) == readability_output(html@, base@),
{
    let mut input = std::io::Cursor::new(html.as_bytes().to_vec());
    match readability::extractor::extract(&mut input, base.url()) {
        Ok(p) => Ok((p.title, p.content)),
        Err(e) => Err(e.to_string()),
    }
}

/// `htmd::convert`: HTML to Markdown.
#[verifier::external_body]
pub fn html_to_markdown(html: &str) -> (res: Result<String, String>)
    ensures
        text_result_view(res) == htmd_output(html@),
{
    match htmd::convert(html) {
        Ok(md) => Ok(md),
        Err(e) => Err(e.to_string()),
    }
}

} // verus!
