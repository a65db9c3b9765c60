//! Picking the main content of a page: by a CSS selector the user gave, or
//! by the readability heuristic.

use vstd::prelude::*;
use crate::error::{ErrorKind, W2mError, result_view};
use crate::html::{
    body_text, document_body_text, document_title_text, first_match, first_match_html,
    readability_extract, readability_output, title_text,
};
use crate::text::{concat_str, is_blank, is_blank_seq, trim, trim_ws};
use crate::web_url::WebUrl;

verus! {

/// The extracted article: its title and the HTML of its content.
#[derive(Debug)]
pub struct Article {
    pub title: String,
    pub content_html: String,
}

impl View for Article {
    type V = (Seq<char>, Seq<char>);

    open spec fn view(&self) -> (Seq<char>, Seq<char>) {
        (self.title@, self.content_html@)
    }
}

/// The outcome of extracting with the CSS selector `selector`: the trimmed
/// text of the document's `<title>` (empty without one) and the outer HTML of
/// the first match; `InvalidSelector` where the selector does not parse;
/// `ExtractionEmpty` where nothing matches or the match is only whitespace.
pub open spec fn selector_extraction(html: Seq<char>, selector: Seq<char>) -> Result<
    (Seq<char>, Seq<char>),
    ErrorKind,
> {
    let title = match document_title_text(html) {
        Some(t) => trim_ws(t),
        None => Seq::empty(),
    };
    match first_match(html, selector) {
        Err(e) => Err(ErrorKind::InvalidSelector(e)),
        Ok(None) => Err(ErrorKind::ExtractionEmpty),
        Ok(Some(content)) => if is_blank_seq(content) {
            Err(ErrorKind::ExtractionEmpty)
        } else {
            Ok((title, content))
        },
    }
}

/// The outcome of extracting with readability: its title and content;
/// `ExtractionFailed` with the message prefixed by `readability: ` where it
/// fails; `ExtractionEmpty` where the content, or the text of the body of the
/// content read as a document, is only whitespace.
pub open spec fn readability_extraction(html: Seq<char>, base: Seq<char>) -> Result<
    (Seq<char>, Seq<char>),
    ErrorKind,
> {
    match readability_output(html, base) {
        Err(e) => Err(ErrorKind::ExtractionFailed("readability: "@ + e)),
        Ok((title, content)) => if is_blank_seq(content) {
            Err(ErrorKind::ExtractionEmpty)
        } else {
            match document_body_text(content) {
                Some(text) => if is_blank_seq(text) {
                    Err(ErrorKind::ExtractionEmpty)
                } else {
                    Ok((title, content))
                },
                None => Ok((title, content)),
            }
        },
    }
}

/// The outcome of `extract`: by the selector where one is given, else by
/// readability.
pub open spec fn extraction(html: Seq<char>, base: Seq<char>, selector: Option<Seq<char>>) -> Result<
    (Seq<char>, Seq<char>),
    ErrorKind,
> {
    match selector {
        Some(s) => selector_extraction(html, s),
        None => readability_extraction(html, base),
    }
}

/// The view of an optional string slice.
pub open spec fn opt_str_view(o: Option<&str>) -> Option<Seq<char>> {
    match o {
        Some(s) => Some(s@),
        None => None,
    }
}

/// Extract the main content of `html`, with `selector` when it is given and
/// with readability otherwise.
pub fn extract(html: &str, base_url: &WebUrl, selector: Option<&str>) -> (res: Result<
    Article,
    W2mError,
>)
    ensures
        result_view(res) == extraction(html@, base_url@, opt_str_view(selector)),
{
    if let Some(sel) = selector {
        return extract_with_selector(html, sel);
    }
    extract_with_readability(html, base_url)
}

fn extract_with_selector(html: &str, sel: &str) -> (res: Result<Article, W2mError>)
    ensures
        result_view(res) == selector_extraction(html@, sel@),
{
    let title = match title_text(html) {
        Some(t) => trim(&t),
        None => String::new(),
    };
    let node = match first_match_html(html, sel) {
        Err(e) => return Err(W2mError::InvalidSelector(e)),
        Ok(None) => return Err(W2mError::ExtractionEmpty),
        Ok(Some(n)) => n,
    };
    if is_blank(&node) {
        return Err(W2mError::ExtractionEmpty);
    }
    Ok(Article { title, content_html: node })
}

fn extract_with_readability(html: &str, base_url: &WebUrl) -> (res: Result<Article, W2mError>)
    ensures
        result_view(res) == readability_extraction(html@, base_url@),
{
    let (title, content) = match readability_extract(html, base_url) {
        Ok(p) => p,
        Err(e) => return Err(W2mError::ExtractionFailed(concat_str("readability: ", &e))),
    };
    if is_blank(&content) {
        return Err(W2mError::ExtractionEmpty);
    }
    if let Some(text) = body_text(&content) {
        if is_blank(&text) {
            return Err(W2mError::ExtractionEmpty);
        }
    }
    Ok(Article { title, content_html: content })
}

/// With a selector, a successful extraction gives the first element the
/// selector matches, and as title the trimmed text of the document's first
/// `<title>` (empty only where the document has none).
pub proof fn selector_extraction_result(html: Seq<char>, base: Seq<char>, sel: Seq<char>)
    ensures
        extraction(html, base, Some(sel)) matches Ok((title, content)) ==> {
            &&& crate::html::first_match(html, sel) == Ok::<Option<Seq<char>>, Seq<char>>(
                Some(content),
            )
            &&& !is_blank_seq(content)
            &&& title == match crate::html::first_text(html, "title"@) {
                Some(t) => trim_ws(t),
                None => Seq::<char>::empty(),
            }
        },
        crate::html::first_match(html, sel) matches Ok(Some(c)) && !is_blank_seq(c) ==> extraction(
            html,
            base,
            Some(sel),
        ) is Ok,
{
}

/// With a selector, the failures: a selector that does not parse is
/// `InvalidSelector` with the parser's message; no match, or a match that is
/// only whitespace, is `ExtractionEmpty`. Readability is not consulted.
pub proof fn selector_extraction_failures(html: Seq<char>, base: Seq<char>, sel: Seq<char>)
    ensures
        crate::html::first_match(html, sel) matches Err(e) ==> extraction(html, base, Some(sel))
            == Err::<(Seq<char>, Seq<char>), ErrorKind>(ErrorKind::InvalidSelector(e)),
        crate::html::first_match(html, sel) == Ok::<Option<Seq<char>>, Seq<char>>(None)
            ==> extraction(html, base, Some(sel)) == Err::<(Seq<char>, Seq<char>), ErrorKind>(
            ErrorKind::ExtractionEmpty,
        ),
        crate::html::first_match(html, sel) matches Ok(Some(c)) && is_blank_seq(c) ==> extraction(
            html,
            base,
            Some(sel),
        ) == Err::<(Seq<char>, Seq<char>), ErrorKind>(ErrorKind::ExtractionEmpty),
{
}

/// Without a selector, readability decides: its title and content where the
/// content and the text of its body are not blank; `ExtractionEmpty` where
/// either is; `ExtractionFailed` with `readability: ` and its message where
/// it fails.
pub proof fn readability_extraction_result(html: Seq<char>, base: Seq<char>)
    ensures
        crate::html::readability_output(html, base) matches Err(e) ==> extraction(html, base, None)
            == Err::<(Seq<char>, Seq<char>), ErrorKind>(
            ErrorKind::ExtractionFailed("readability: "@ + e),
        ),
        crate::html::readability_output(html, base) matches Ok((t, c)) ==> (extraction(
            html,
            base,
            None,
        ) == if is_blank_seq(c) || (crate::html::first_text(c, "body"@) matches Some(b)
            && is_blank_seq(b)) {
            Err::<(Seq<char>, Seq<char>), ErrorKind>(ErrorKind::ExtractionEmpty)
        } else {
            Ok((t, c))
        }),
{
}

} // verus!
