//! Settings of the headless render and how its failures are reported. The
//! browser itself is driven by the program around the library.

use vstd::prelude::*;
use crate::error::{ErrorKind, W2mError};
use crate::text::{concat_str, contains_str, has_substring};

verus! {

/// Timeouts of a headless render, in milliseconds: the browser's request
/// timeout and the settling delay after navigation.
#[derive(Debug, Clone, Copy)]
pub struct RenderOpts {
    pub timeout_ms: u64,
    pub settle_ms: u64,
}

impl Default for RenderOpts {
    fn default() -> (o: RenderOpts)
        ensures
            o.timeout_ms == 30_000,
            o.settle_ms == 2000,
    {
        RenderOpts { timeout_ms: 30_000, settle_ms: 2000 }
    }
}

/// The error for a browser that could not be launched with the message
/// `msg`: Chrome is missing where the message says a file could not be
/// found, any other failure is a rendering failure.
pub open spec fn launch_error_kind(msg: Seq<char>) -> ErrorKind {
    if has_substring(msg, "Could not find"@) || has_substring(msg, "No such file"@) {
        ErrorKind::ChromeNotFound
    } else {
        ErrorKind::Render(msg)
    }
}

/// Classify the message of a failed browser launch.
pub fn launch_error(msg: &str) -> (e: W2mError)
    ensures
        e@ == launch_error_kind(msg@),
{
    if contains_str(msg, "Could not find") || contains_str(msg, "No such file") {
        W2mError::ChromeNotFound
    } else {
        W2mError::Render(msg.to_owned())
    }
}

/// The error for a browser configuration that could not be built.
pub fn config_error(msg: &str) -> (e: W2mError)
    ensures
        e@ == ErrorKind::Render("config: "@ + msg@),
{
    W2mError::Render(concat_str("config: ", msg))
}

/// A launch failure whose message says `Could not find` or `No such file`
/// means Chrome is missing; any other launch failure is a rendering failure
/// that keeps its message.
pub proof fn missing_chrome_is_recognized(msg: Seq<char>)
    ensures
        has_substring(msg, "Could not find"@) ==> launch_error_kind(msg) == ErrorKind::ChromeNotFound,
        has_substring(msg, "No such file"@) ==> launch_error_kind(msg) == ErrorKind::ChromeNotFound,
        !has_substring(msg, "Could not find"@) && !has_substring(msg, "No such file"@)
            ==> launch_error_kind(msg) == ErrorKind::Render(msg),
{
}

} // verus!
