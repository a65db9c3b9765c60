//! The frontmatter and the text of `index.md`.

use vstd::prelude::*;
use crate::error::{ErrorKind, W2mError};
use crate::text::{concat_str, has_prefix, push_char};

verus! {

/// How the page's HTML was obtained.
#[derive(Debug, Clone, Copy, PartialEq, Eq, Structural)]
pub enum RenderMode {
    Static,
    Headless,
}

/// The name of a render mode in the frontmatter.
pub open spec fn mode_name(m: RenderMode) -> Seq<char> {
    match m {
        RenderMode::Static => "static"@,
        RenderMode::Headless => "headless"@,
    }
}

impl RenderMode {
    /// `static` or `headless`.
    pub fn as_str(self) -> (s: &'static str)
        ensures
            s@ == mode_name(self),
    {
        match self {
            RenderMode::Static => "static",
            RenderMode::Headless => "headless",
        }
    }
}

/// `chrono::DateTime::<Utc>::from_timestamp(secs, nanos)` written by
/// `to_rfc3339`, or `None` where chrono rejects the timestamp.
pub uninterp spec fn rfc3339_text(secs: i64, nanos: u32) -> Option<Seq<char>>;

/// `chrono`: `DateTime::<Utc>::from_timestamp` then `to_rfc3339`.
#[verifier::external_body]
fn format_rfc3339(secs: i64, nanos: u32) -> (res: Option<String>)
    ensures
        crate::text::opt_view(res) == rfc3339_text(secs, nanos),
{
    chrono::DateTime::<chrono::Utc>::from_timestamp(secs, nanos).map(|t| t.to_rfc3339())
}

/// A UTC instant that chrono can represent: seconds since the Unix epoch and
/// nanoseconds past that second.
pub struct Timestamp {
    secs: i64,
    nanos: u32,
}

impl View for Timestamp {
    type V = (i64, u32);

    closed spec fn view(&self) -> (i64, u32) {
        (self.secs, self.nanos)
    }
}

impl Timestamp {
    #[verifier::type_invariant]
    spec fn representable(self) -> bool {
        rfc3339_text(self.secs, self.nanos) is Some
    }

    /// The instant `secs` seconds and `nanos` nanoseconds after the epoch,
    /// where chrono can represent it.
    pub fn from_unix(secs: i64, nanos: u32) -> (t: Option<Timestamp>)
        ensures
            t is Some <==> rfc3339_text(secs, nanos) is Some,
            t matches Some(t) ==> t@ == (secs, nanos),
    {
        match format_rfc3339(secs, nanos) {
            Some(_) => Some(Timestamp { secs, nanos }),
            None => None,
        }
    }

    /// The RFC 3339 text of the instant, such as `2026-04-25T22:00:00+00:00`.
    pub fn to_rfc3339(&self) -> (s: String)
        ensures
            Some(s@) == rfc3339_text(self@.0, self@.1),
    {
        proof {
            use_type_invariant(self);
        }
        match format_rfc3339(self.secs, self.nanos) {
            Some(s) => s,
            None => String::new(),
        }
    }

    /// The RFC 3339 text of a timestamp.
    pub open spec fn text(self) -> Seq<char> {
        rfc3339_text(self@.0, self@.1)->0
    }
}

/// What the frontmatter records of a conversion.
pub struct Meta {
    pub title: String,
    pub source_url: String,
    pub fetched_at: Timestamp,
    pub render_mode: RenderMode,
}

/// The characters of `s` with every backslash and double quote escaped.
pub open spec fn escape_quoted(s: Seq<char>) -> Seq<char>
    decreases s.len(),
{
    if s.len() == 0 {
        Seq::empty()
    } else {
        let c = s.last();
        let head = escape_quoted(s.drop_last());
        if c == '\\' {
            head.push('\\').push('\\')
        } else if c == '"' {
            head.push('\\').push('"')
        } else {
            head.push(c)
        }
    }
}

/// Undo `escape_quoted`: every `\\` followed by a character stands for
/// that character.
pub open spec fn unescape_quoted(t: Seq<char>) -> Seq<char>
    decreases t.len(),
{
    if t.len() == 0 {
        Seq::empty()
    } else if (t.last() == '\\' || t.last() == '"') && t.len() >= 2 {
        unescape_quoted(t.subrange(0, t.len() - 2)).push(t.last())
    } else {
        unescape_quoted(t.drop_last()).push(t.last())
    }
}

/// The quoted title reads back as the title: unescaping what `yaml_escape`
/// puts between the quotes gives the original text.
pub proof fn yaml_escape_round_trips(s: Seq<char>)
    ensures
        unescape_quoted(escape_quoted(s)) == s,
    decreases s.len(),
{
    if s.len() > 0 {
        let c = s.last();
        let head = escape_quoted(s.drop_last());
        yaml_escape_round_trips(s.drop_last());
        if c == '\\' || c == '"' {
            let t = head.push('\\').push(c);
            assert(t.subrange(0, t.len() - 2) == head);
        } else {
            assert(head.push(c).drop_last() == head);
        }
        assert(s.drop_last().push(c) == s);
    }
}

/// Wrap `s` in double quotes, escaping `\` and `"` inside.
pub fn yaml_escape(s: &str) -> (res: String)
    ensures
        res@ == seq!['"'] + escape_quoted(s@) + seq!['"'],
{
    let mut out = String::new();
    push_char(&mut out, '"');
    for c in it: s.chars()
        invariant
            it.seq() == s@,
            out@ == seq!['"'] + escape_quoted(s@.take(it.index())),
    {
        assert(s@.take(it.index() + 1).drop_last() == s@.take(it.index()));
        if c == '\\' {
            push_char(&mut out, '\\');
            push_char(&mut out, '\\');
        } else if c == '"' {
            push_char(&mut out, '\\');
            push_char(&mut out, '"');
        } else {
            push_char(&mut out, c);
        }
    }
    assert(s@.take(s@.len() as int) == s@);
    push_char(&mut out, '"');
    out
}

/// The frontmatter that starts `index.md`.
pub open spec fn frontmatter_text(
    title: Seq<char>,
    source_url: Seq<char>,
    fetched_at: Seq<char>,
    mode: RenderMode,
) -> Seq<char> {
    "---\ntitle: "@ + (seq!['"'] + escape_quoted(title) + seq!['"']) + "\nsource_url: "@ + (seq!['"']
        + escape_quoted(source_url) + seq!['"']) + "\nfetched_at: "@ + fetched_at + "\nrender_mode: "@ + mode_name(mode) + "\n---\n\n"@
}

/// The whole text of `index.md`: the frontmatter, then the Markdown body.
pub open spec fn bundle_spec(body: Seq<char>, meta: Meta) -> Seq<char> {
    frontmatter_text(meta.title@, meta.source_url@, meta.fetched_at.text(), meta.render_mode)
        + body
}

/// `index.md` opens a frontmatter block (`---` on its own line) and ends
/// with the Markdown body, unchanged.
pub proof fn bundle_is_frontmatter_then_body(body: Seq<char>, meta: Meta)
    ensures
        has_prefix(bundle_spec(body, meta), "---\n"@),
        bundle_spec(body, meta).subrange(
            bundle_spec(body, meta).len() - body.len(),
            bundle_spec(body, meta).len() as int,
        ) == body,
{
    reveal_strlit("---\ntitle: ");
    reveal_strlit("---\n");
    let f = frontmatter_text(meta.title@, meta.source_url@, meta.fetched_at.text(), meta.render_mode);
    let all = bundle_spec(body, meta);
    assert(all == f + body);
    assert(all.subrange(0, 4) == "---\n"@);
    assert(all.subrange(all.len() - body.len(), all.len() as int) == body);
}

/// The text of `index.md` for the Markdown `body_md` and the metadata `meta`.
pub fn bundle_text(body_md: &str, meta: &Meta) -> (full: String)
    ensures
        full@ == bundle_spec(body_md@, *meta),
{
    let mut full = concat_str("---\ntitle: ", &yaml_escape(&meta.title));
    full.append("\nsource_url: ");
    full.append(&yaml_escape(&meta.source_url));
    full.append("\nfetched_at: ");
    full.append(&meta.fetched_at.to_rfc3339());
    full.append("\nrender_mode: ");
    full.append(meta.render_mode.as_str());
    full.append("\n---\n\n");
    full.append(body_md);
    full
}

/// What is found at the output directory's path.
#[derive(Debug, Clone, Copy, PartialEq, Eq, Structural)]
pub enum DirState {
    /// Nothing is there.
    Missing,
    /// An empty directory.
    Empty,
    /// A directory whose only entry is the `assets/` directory of the images
    /// downloaded for this bundle.
    OnlyAssets,
    /// A directory holding anything else.
    NonEmpty,
}

/// Whether the bundle may be written to the directory `dir` in state
/// `state`: `Ok(true)` where the directory must be created first, `Ok(false)`
/// where it exists and is empty or holds only the downloaded `assets/`,
/// `OutputExists` where it holds anything else.
pub fn prepare_output_dir(dir: &str, state: DirState) -> (r: Result<bool, W2mError>)
    ensures
        match state {
            DirState::Missing => r == Ok::<bool, W2mError>(true),
            DirState::Empty | DirState::OnlyAssets => r == Ok::<bool, W2mError>(false),
            DirState::NonEmpty => r matches Err(e) && e@ == ErrorKind::OutputExists(dir@),
        },
{
    match state {
        DirState::Missing => Ok(true),
        DirState::Empty | DirState::OnlyAssets => Ok(false),
        DirState::NonEmpty => Err(W2mError::OutputExists(dir.to_owned())),
    }
}

/// The whole of `index.md`: the frontmatter with the title and the source
/// URL quoted, the RFC 3339 time of the fetch, and `static` or `headless`,
/// then the Markdown body.
pub proof fn bundle_layout(body: Seq<char>, meta: Meta)
    ensures
        bundle_spec(body, meta) == "---\ntitle: "@ + (seq!['"'] + escape_quoted(meta.title@)
            + seq!['"']) + "\nsource_url: "@ + (seq!['"'] + escape_quoted(meta.source_url@)
            + seq!['"']) + "\nfetched_at: "@ + rfc3339_text(meta.fetched_at@.0, meta.fetched_at@.1)->0
            + "\nrender_mode: "@ + (if meta.render_mode == RenderMode::Static {
            "static"@
        } else {
            "headless"@
        }) + "\n---\n\n"@ + body,
{
}

/// Escaping leaves every character but a backslash and `"` alone and puts a
/// backslash before each of those two.
pub proof fn escape_quoted_step(s: Seq<char>, c: char)
    ensures
        escape_quoted(s.push(c)) == escape_quoted(s) + if c == '\\' || c == '"' {
            seq!['\\', c]
        } else {
            seq![c]
        },
{
    assert(s.push(c).drop_last() == s);
    if c == '\\' || c == '"' {
        assert(escape_quoted(s).push('\\').push(c) == escape_quoted(s) + seq!['\\', c]);
    } else {
        assert(escape_quoted(s).push(c) == escape_quoted(s) + seq![c]);
    }
}

} // verus!
