//! Absolute URLs, parsed and resolved by the `url` crate.
//!
//! A `WebUrl` is viewed as its serialization (what `Url::as_str` gives). The
//! `url` crate stores a URL as that serialization plus offsets into it, so
//! every component read here is a function of the view.

use vstd::prelude::*;
use crate::text::opt_view;

verus! {

#[verifier::external_type_specification]
#[verifier::external_body]
pub struct ExUrl(url::Url);

/// The serialization of `url::Url::parse(input)`, or `None` where it fails.
pub uninterp spec fn url_parse_result(input: Seq<char>) -> Option<Seq<char>>;

/// The serialization of `Url::join(base, input)` (the URL `input` read
/// relative to the URL serialized as `base`), or `None` where it fails.
pub uninterp spec fn url_join_result(base: Seq<char>, input: Seq<char>) -> Option<Seq<char>>;

/// `Url::host_str` of the URL serialized as `href`.
pub uninterp spec fn url_host(href: Seq<char>) -> Option<Seq<char>>;

/// `Url::path` of the URL serialized as `href`.
pub uninterp spec fn url_path(href: Seq<char>) -> Seq<char>;

/// `Url::query` of the URL serialized as `href`.
pub uninterp spec fn url_query(href: Seq<char>) -> Option<Seq<char>>;

/// A parsed absolute URL.
pub struct WebUrl {
    inner: url::Url,
    href: String,
}

impl View for WebUrl {
    type V = Seq<char>;

    closed spec fn view(&self) -> Seq<char> {
        self.href@
    }
}

impl WebUrl {
    /// `url::Url::parse`: succeeds exactly where the crate accepts the input,
    /// and the result is the crate's serialization of it. The error text is
    /// the crate's message for the failure; nothing is stated of it.
    #[verifier::external_body]
    pub fn parse(input: &str) -> (res: Result<WebUrl, String>)
        ensures
            res is Ok <==> url_parse_result(input@) is Some,
            res matches Ok(u) ==> url_parse_result(input@) == Some(u@),
    {
        match url::Url::parse(input) {
            Ok(u) => {
                let href = u.as_str().to_string();
                Ok(WebUrl { inner: u, href })
            },
            Err(e) => Err(e.to_string()),
        }
    }

    /// `url::Url::join`: `input` resolved against this URL.
    #[verifier::external_body]
    pub fn join(&self, input: &str) -> (res: Option<WebUrl>)
        ensures
            res is Some <==> url_join_result(self@, input@) is Some,
            res matches Some(u) ==> url_join_result(self@, input@) == Some(u@),
    {
        match self.inner.join(input) {
            Ok(u) => {
                let href = u.as_str().to_string();
                Some(WebUrl { inner: u, href })
            },
            Err(_) => None,
        }
    }

    /// `url::Url::host_str`.
    #[verifier::external_body]
    pub fn host_str(&self) -> (res: Option<String>)
        ensures
            opt_view(res) == url_host(self@),
    {
        self.inner.host_str().map(|h| h.to_string())
    }

    /// `url::Url::path`.
    #[verifier::external_body]
    pub fn path(&self) -> (res: String)
        ensures
            res@ == url_path(self@),
    {
        self.inner.path().to_string()
    }

    /// `url::Url::query`.
    #[verifier::external_body]
    pub fn query(&self) -> (res: Option<String>)
        ensures
            opt_view(res) == url_query(self@),
    {
        self.inner.query().map(|q| q.to_string())
    }

    /// The serialization of this URL.
    pub fn as_str(&self) -> (res: &str)
        ensures
            res@ == self@,
    {
        self.href.as_str()
    }

    /// The two URLs have the same serialization.
    pub fn same_as(&self, other: &WebUrl) -> (b: bool)
        ensures
            b == (self@ == other@),
    {
        self.href == other.href
    }

    /// The `url` crate's value of this URL, the one serialized as `self@`.
    pub closed spec fn parsed(&self) -> url::Url {
        self.inner
    }

    /// The URL as the `url` crate holds it, for calls into crates that take one.
    pub(crate) fn url(&self) -> (u: &url::Url)
        ensures
            *u == self.parsed(),
    {
        &self.inner
    }
}

} // verus!
