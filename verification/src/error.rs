//! The converter's errors and the exit status each one maps to.

use vstd::prelude::*;

verus! {

/// Everything that can stop a conversion. Causes that come from other
/// crates (HTTP, I/O, URL parsing) are carried as their message.
#[derive(Debug)]
pub enum W2mError {
    InvalidUrl(String),
    Http(String),
    ChromeNotFound,
    Render(String),
    ExtractionEmpty,
    EmptySpaWithoutRender,
    OutputExists(String),
    Io(String),
    UrlParse(String),
    InvalidSelector(String),
    ExtractionFailed(String),
}

/// The mathematical value of a `W2mError`: its variant and its text.
pub enum ErrorKind {
    InvalidUrl(Seq<char>),
    Http(Seq<char>),
    ChromeNotFound,
    Render(Seq<char>),
    ExtractionEmpty,
    EmptySpaWithoutRender,
    OutputExists(Seq<char>),
    Io(Seq<char>),
    UrlParse(Seq<char>),
    InvalidSelector(Seq<char>),
    ExtractionFailed(Seq<char>),
}

impl View for W2mError {
    type V = ErrorKind;

    open spec fn view(&self) -> ErrorKind {
        match self {
            W2mError::InvalidUrl(s) => ErrorKind::InvalidUrl(s@),
            W2mError::Http(s) => ErrorKind::Http(s@),
            W2mError::ChromeNotFound => ErrorKind::ChromeNotFound,
            W2mError::Render(s) => ErrorKind::Render(s@),
            W2mError::ExtractionEmpty => ErrorKind::ExtractionEmpty,
            W2mError::EmptySpaWithoutRender => ErrorKind::EmptySpaWithoutRender,
            W2mError::OutputExists(s) => ErrorKind::OutputExists(s@),
            W2mError::Io(s) => ErrorKind::Io(s@),
            W2mError::UrlParse(s) => ErrorKind::UrlParse(s@),
            W2mError::InvalidSelector(s) => ErrorKind::InvalidSelector(s@),
            W2mError::ExtractionFailed(s) => ErrorKind::ExtractionFailed(s@),
        }
    }
}

/// The process exit status for an error: 2 for network failures, 3 for
/// rendering failures, 4 for extraction failures and 1 for anything else.
pub open spec fn exit_status(e: ErrorKind) -> i32 {
    match e {
        ErrorKind::Http(_) => 2,
        ErrorKind::ChromeNotFound | ErrorKind::Render(_) => 3,
        ErrorKind::ExtractionEmpty | ErrorKind::ExtractionFailed(_)
        | ErrorKind::EmptySpaWithoutRender => 4,
        _ => 1,
    }
}

impl W2mError {
    /// Map error variants to process exit codes.
    pub fn exit_code(&self) -> (code: i32)
        ensures
            code == exit_status(self@),
    {
        match self {
            W2mError::Http(_) => 2,
            W2mError::ChromeNotFound | W2mError::Render(_) => 3,
            W2mError::ExtractionEmpty
            | W2mError::ExtractionFailed(_)
            | W2mError::EmptySpaWithoutRender => 4,
            _ => 1,
        }
    }

    /// This error is the one that says nothing could be extracted.
    pub fn is_extraction_empty(&self) -> (b: bool)
        ensures
            b == (self@ is ExtractionEmpty),
    {
        match self {
            W2mError::ExtractionEmpty => true,
            _ => false,
        }
    }
}

/// The view of a result whose error is a `W2mError`.
pub open spec fn result_view<T: View>(r: Result<T, W2mError>) -> Result<T::V, ErrorKind> {
    match r {
        Ok(v) => Ok(v@),
        Err(e) => Err(e@),
    }
}

/// Exit codes: 2 for a network failure, 3 when Chrome is missing or the
/// render fails, 4 when nothing could be extracted (also for an SPA shell
/// that was not rendered), 1 for every other failure.
pub proof fn exit_codes(e: ErrorKind)
    ensures
        e is Http ==> exit_status(e) == 2,
        e is ChromeNotFound || e is Render ==> exit_status(e) == 3,
        e is ExtractionEmpty || e is ExtractionFailed || e is EmptySpaWithoutRender ==> exit_status(e)
            == 4,
        e is InvalidUrl || e is OutputExists || e is Io || e is UrlParse || e is InvalidSelector
            ==> exit_status(e) == 1,
{
}

} // verus!
