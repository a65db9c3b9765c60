//! One conversion run: which fetches and renders happen, in which order, and
//! what is written.
//!
//! The run is a state machine. The program around the library performs each
//! `Action` (an HTTP fetch, a headless render, the image downloads, writing
//! the bundle) and hands its outcome back as an `Event`; `step` decides what
//! comes next.

use vstd::prelude::*;
use crate::converter::{AssetMap, collect_image_urls, image_urls, markdown_of, to_markdown, urls_view};
use crate::error::{ErrorKind, W2mError};
use crate::extractor::{Article, extract, extraction};
use crate::html::{body_text, document_body_text};
use crate::output::RenderMode;
use crate::renderer::RenderOpts;
use crate::text::{contains_str, count_non_ws, has_substring, non_whitespace_count, opt_view};
use crate::web_url::WebUrl;

verus! {

/// The options of a run.
#[derive(Debug)]
pub struct Opts {
    pub out_dir: String,
    pub force_render: bool,
    pub no_render: bool,
    pub selector: Option<String>,
    pub no_assets: bool,
    pub concurrency: usize,
    pub wait_ms: u64,
}

/// The settings of the headless render: a 30 s timeout and the run's
/// settling delay.
pub fn render_opts(wait_ms: u64) -> (o: RenderOpts)
    ensures
        o.timeout_ms == 30_000,
        o.settle_ms == wait_ms,
{
    RenderOpts { timeout_ms: 30_000, settle_ms: wait_ms }
}

/// The number of non-whitespace characters in the text of the page's body
/// (0 where the parsed page has no body).
pub open spec fn body_chars(html: Seq<char>) -> nat {
    match document_body_text(html) {
        Some(t) => count_non_ws(t),
        None => 0,
    }
}

/// The page holds a typical SPA mount point: `id="root"`, `id="app"` or
/// `id="__next"`.
pub open spec fn has_mount(html: Seq<char>) -> bool {
    ||| has_substring(html, "id=\"root\""@)
    ||| has_substring(html, "id=\"app\""@)
    ||| has_substring(html, "id=\"__next\""@)
}

/// The page looks like an empty SPA shell: its body has fewer than 200
/// non-whitespace characters, or it has a mount point and fewer than 500.
pub open spec fn spa_shell(html: Seq<char>) -> bool {
    body_chars(html) < 200 || (has_mount(html) && body_chars(html) < 500)
}

fn body_text_chars(html: &str) -> (n: usize)
    ensures
        n == body_chars(html@),
{
    match body_text(html) {
        Some(t) => non_whitespace_count(&t),
        None => 0,
    }
}

/// Whether the statically fetched page looks like an empty SPA shell, whose
/// content only a headless render would show.
pub fn looks_like_empty_spa(html: &str) -> (b: bool)
    ensures
        b == spa_shell(html@),
{
    let body_text = body_text_chars(html);

    // Sparse body, regardless of mount point.
    if body_text < 200 {
        return true;
    }

    // Has typical SPA mount + sparse-ish content.
    let has_mount = contains_str(html, "id=\"root\"") || contains_str(html, "id=\"app\"")
        || contains_str(html, "id=\"__next\"");
    if has_mount && body_text < 500 {
        return true;
    }

    false
}

/// Where a run stands.
pub enum Stage {
    /// Nothing done yet.
    Start,
    /// Waiting for the static fetch.
    FetchingStatic,
    /// Waiting for the headless render of the page.
    Rendering,
    /// Waiting for the headless render that retries an empty extraction.
    RetryRendering,
    /// Waiting for the article's images.
    Downloading(Article, RenderMode),
    /// Waiting for the bundle to be written.
    Writing,
    /// The run is over.
    Done,
}

/// What the program around the library reports back.
pub enum Event {
    /// The run begins.
    Begin,
    /// The static fetch's body, or its failure.
    StaticFetched(Result<String, W2mError>),
    /// The rendered page's HTML, or the failure of the render.
    Rendered(Result<String, W2mError>),
    /// The downloaded images, or the failure that stopped the downloads.
    AssetsDownloaded(Result<AssetMap, W2mError>),
    /// The bundle was written, or could not be.
    BundleWritten(Result<(), W2mError>),
}

/// What `index.md` is made of, apart from the time of writing.
pub struct Bundle {
    pub markdown: String,
    pub title: String,
    pub render_mode: RenderMode,
}

/// What the program around the library is to do next.
pub enum Action {
    /// Fetch the page over HTTP.
    FetchStatic,
    /// Render the page in a headless browser.
    Render,
    /// Download these images into the output directory.
    DownloadAssets(Vec<WebUrl>),
    /// Write the bundle into the output directory.
    WriteBundle(Bundle),
    /// The run ends with this outcome.
    Finish(Result<(), W2mError>),
}

/// The mathematical value of a `Stage`.
pub enum StageView {
    Start,
    FetchingStatic,
    Rendering,
    RetryRendering,
    Downloading((Seq<char>, Seq<char>), RenderMode),
    Writing,
    Done,
}

/// The mathematical value of an `Action`.
pub enum ActionView {
    FetchStatic,
    Render,
    DownloadAssets(Seq<Seq<char>>),
    WriteBundle(Seq<char>, Seq<char>, RenderMode),
    Finish(Result<(), ErrorKind>),
}

impl View for Stage {
    type V = StageView;

    open spec fn view(&self) -> StageView {
        match self {
            Stage::Start => StageView::Start,
            Stage::FetchingStatic => StageView::FetchingStatic,
            Stage::Rendering => StageView::Rendering,
            Stage::RetryRendering => StageView::RetryRendering,
            Stage::Downloading(a, m) => StageView::Downloading(a@, *m),
            Stage::Writing => StageView::Writing,
            Stage::Done => StageView::Done,
        }
    }
}

/// The view of the outcome of a run.
pub open spec fn outcome_view(r: Result<(), W2mError>) -> Result<(), ErrorKind> {
    match r {
        Ok(_) => Ok(()),
        Err(e) => Err(e@),
    }
}

impl View for Action {
    type V = ActionView;

    open spec fn view(&self) -> ActionView {
        match self {
            Action::FetchStatic => ActionView::FetchStatic,
            Action::Render => ActionView::Render,
            Action::DownloadAssets(urls) => ActionView::DownloadAssets(urls_view(urls@)),
            Action::WriteBundle(b) => ActionView::WriteBundle(b.markdown@, b.title@, b.render_mode),
            Action::Finish(r) => ActionView::Finish(outcome_view(*r)),
        }
    }
}

/// The events that a stage waits for.
pub open spec fn accepts(stage: StageView, event: Event) -> bool {
    match stage {
        StageView::Start => event is Begin,
        StageView::FetchingStatic => event is StaticFetched,
        StageView::Rendering => event is Rendered,
        StageView::RetryRendering => event is Rendered,
        StageView::Downloading(_, _) => event is AssetsDownloaded,
        StageView::Writing => event is BundleWritten,
        StageView::Done => false,
    }
}

/// Once the article is known: write it at once where images are not wanted
/// (their sources stay as they are), otherwise download its images first.
pub open spec fn after_article(
    opts: Opts,
    url: Seq<char>,
    article: (Seq<char>, Seq<char>),
    mode: RenderMode,
) -> (StageView, ActionView) {
    if opts.no_assets {
        (
            StageView::Writing,
            ActionView::WriteBundle(
                markdown_of(article.1, url, Map::empty()),
                article.0,
                mode,
            ),
        )
    } else {
        (StageView::Downloading(article, mode), ActionView::DownloadAssets(image_urls(article.1, url)))
    }
}

/// Once a page's HTML is known: extract the article. An empty extraction is
/// retried once with a headless render where `retry` allows it and neither
/// render flag is set; an empty extraction of an SPA shell that was not
/// rendered because rendering is disabled (`shell_unrendered`) ends the run
/// with `EmptySpaWithoutRender`; any other failure ends the run.
pub open spec fn after_html(
    opts: Opts,
    url: Seq<char>,
    html: Seq<char>,
    mode: RenderMode,
    retry: bool,
    shell_unrendered: bool,
) -> (StageView, ActionView) {
    match extraction(html, url, opt_view(opts.selector)) {
        Ok(article) => after_article(opts, url, article, mode),
        Err(e) => if retry && e is ExtractionEmpty && !opts.force_render && !opts.no_render {
            (StageView::RetryRendering, ActionView::Render)
        } else if shell_unrendered && e is ExtractionEmpty {
            (StageView::Done, ActionView::Finish(Err(ErrorKind::EmptySpaWithoutRender)))
        } else {
            (StageView::Done, ActionView::Finish(Err(e)))
        },
    }
}

/// The next stage and action of a run of `opts` on the page `url`.
pub open spec fn next_step(opts: Opts, url: Seq<char>, stage: StageView, event: Event) -> (
    StageView,
    ActionView,
) {
    match stage {
        StageView::Start => if opts.force_render {
            (StageView::Rendering, ActionView::Render)
        } else {
            (StageView::FetchingStatic, ActionView::FetchStatic)
        },
        StageView::FetchingStatic => match event {
            Event::StaticFetched(Ok(html)) => if !opts.no_render && spa_shell(html@) {
                (StageView::Rendering, ActionView::Render)
            } else {
                after_html(
                    opts,
                    url,
                    html@,
                    RenderMode::Static,
                    true,
                    opts.no_render && spa_shell(html@),
                )
            },
            Event::StaticFetched(Err(e)) => (StageView::Done, ActionView::Finish(Err(e@))),
            _ => (StageView::Done, ActionView::Finish(Ok(()))),
        },
        StageView::Rendering => match event {
            Event::Rendered(Ok(html)) => after_html(
                opts,
                url,
                html@,
                RenderMode::Headless,
                true,
                false,
            ),
            Event::Rendered(Err(e)) => (StageView::Done, ActionView::Finish(Err(e@))),
            _ => (StageView::Done, ActionView::Finish(Ok(()))),
        },
        StageView::RetryRendering => match event {
            Event::Rendered(Ok(html)) => after_html(
                opts,
                url,
                html@,
                RenderMode::Headless,
                false,
                false,
            ),
            Event::Rendered(Err(e)) => (StageView::Done, ActionView::Finish(Err(e@))),
            _ => (StageView::Done, ActionView::Finish(Ok(()))),
        },
        StageView::Downloading(article, mode) => match event {
            Event::AssetsDownloaded(Ok(assets)) => (
                StageView::Writing,
                ActionView::WriteBundle(markdown_of(article.1, url, assets@), article.0, mode),
            ),
            Event::AssetsDownloaded(Err(e)) => (StageView::Done, ActionView::Finish(Err(e@))),
            _ => (StageView::Done, ActionView::Finish(Ok(()))),
        },
        StageView::Writing => match event {
            Event::BundleWritten(r) => (StageView::Done, ActionView::Finish(outcome_view(r))),
            _ => (StageView::Done, ActionView::Finish(Ok(()))),
        },
        StageView::Done => (StageView::Done, ActionView::Finish(Ok(()))),
    }
}

fn copy_selector(s: &Option<String>) -> (r: Option<String>)
    ensures
        r == *s,
{
    match s {
        Some(t) => Some(t.clone()),
        None => None,
    }
}

fn on_article(opts: &Opts, url: &WebUrl, article: Article, mode: RenderMode) -> (r: (Stage, Action))
    ensures
        (r.0@, r.1@) == after_article(*opts, url@, article@, mode),
{
    if opts.no_assets {
        let markdown = to_markdown(&article, url, &AssetMap::new());
        (Stage::Writing, Action::WriteBundle(Bundle { markdown, title: article.title, render_mode: mode }))
    } else {
        let urls = collect_image_urls(&article, url);
        (Stage::Downloading(article, mode), Action::DownloadAssets(urls))
    }
}

fn on_html(
    opts: &Opts,
    url: &WebUrl,
    html: &str,
    mode: RenderMode,
    retry: bool,
    shell_unrendered: bool,
) -> (r: (Stage, Action))
    ensures
        (r.0@, r.1@) == after_html(*opts, url@, html@, mode, retry, shell_unrendered),
{
    let selector = copy_selector(&opts.selector);
    let found = match &selector {
        Some(s) => extract(html, url, Some(s.as_str())),
        None => extract(html, url, None),
    };
    match found {
        Ok(article) => on_article(opts, url, article, mode),
        Err(e) => {
            if retry && e.is_extraction_empty() && !opts.force_render && !opts.no_render {
                (Stage::RetryRendering, Action::Render)
            } else if shell_unrendered && e.is_extraction_empty() {
                (Stage::Done, Action::Finish(Err(W2mError::EmptySpaWithoutRender)))
            } else {
                (Stage::Done, Action::Finish(Err(e)))
            }
        },
    }
}

/// Decide what a run does after `event` arrives in `stage`.
pub fn step(opts: &Opts, url: &WebUrl, stage: Stage, event: Event) -> (r: (Stage, Action))
    requires
        accepts(stage@, event),
    ensures
        (r.0@, r.1@) == next_step(*opts, url@, stage@, event),
{
    match stage {
        Stage::Start => {
            if opts.force_render {
                (Stage::Rendering, Action::Render)
            } else {
                (Stage::FetchingStatic, Action::FetchStatic)
            }
        },
        Stage::FetchingStatic => match event {
            Event::StaticFetched(Ok(html)) => {
                let shell = looks_like_empty_spa(&html);
                if !opts.no_render && shell {
                    (Stage::Rendering, Action::Render)
                } else {
                    on_html(opts, url, &html, RenderMode::Static, true, opts.no_render && shell)
                }
            },
            Event::StaticFetched(Err(e)) => (Stage::Done, Action::Finish(Err(e))),
            _ => (Stage::Done, Action::Finish(Ok(()))),
        },
        Stage::Rendering => match event {
            Event::Rendered(Ok(html)) => on_html(
                opts,
                url,
                &html,
                RenderMode::Headless,
                true,
                false,
            ),
            Event::Rendered(Err(e)) => (Stage::Done, Action::Finish(Err(e))),
            _ => (Stage::Done, Action::Finish(Ok(()))),
        },
        Stage::RetryRendering => match event {
            Event::Rendered(Ok(html)) => on_html(
                opts,
                url,
                &html,
                RenderMode::Headless,
                false,
                false,
            ),
            Event::Rendered(Err(e)) => (Stage::Done, Action::Finish(Err(e))),
            _ => (Stage::Done, Action::Finish(Ok(()))),
        },
        Stage::Downloading(article, mode) => match event {
            Event::AssetsDownloaded(Ok(assets)) => {
                let markdown = to_markdown(&article, url, &assets);
                (
                    Stage::Writing,
                    Action::WriteBundle(Bundle { markdown, title: article.title, render_mode: mode }),
                )
            },
            Event::AssetsDownloaded(Err(e)) => (Stage::Done, Action::Finish(Err(e))),
            _ => (Stage::Done, Action::Finish(Ok(()))),
        },
        Stage::Writing => match event {
            Event::BundleWritten(r) => (Stage::Done, Action::Finish(r)),
            _ => (Stage::Done, Action::Finish(Ok(()))),
        },
        Stage::Done => (Stage::Done, Action::Finish(Ok(()))),
    }
}

impl Stage {
    /// Whether `event` is what this stage waits for.
    pub fn accepts(&self, event: &Event) -> (b: bool)
        ensures
            b == accepts(self@, *event),
    {
        match self {
            Stage::Start => matches!(event, Event::Begin),
            Stage::FetchingStatic => matches!(event, Event::StaticFetched(_)),
            Stage::Rendering => matches!(event, Event::Rendered(_)),
            Stage::RetryRendering => matches!(event, Event::Rendered(_)),
            Stage::Downloading(_, _) => matches!(event, Event::AssetsDownloaded(_)),
            Stage::Writing => matches!(event, Event::BundleWritten(_)),
            Stage::Done => false,
        }
    }
}

/// Without `--render`, a run starts with the static fetch; with it, it
/// starts with the headless render and never fetches statically.
pub proof fn static_fetch_first_unless_forced(opts: Opts, url: Seq<char>)
    ensures
        next_step(opts, url, StageView::Start, Event::Begin).1 == (if opts.force_render {
            ActionView::Render
        } else {
            ActionView::FetchStatic
        }),
{
}

/// A forced render never fetches the page statically, whatever happens.
pub proof fn forced_render_never_fetches_static(
    opts: Opts,
    url: Seq<char>,
    stage: StageView,
    event: Event,
)
    requires
        opts.force_render,
        accepts(stage, event),
    ensures
        !(next_step(opts, url, stage, event).1 is FetchStatic),
{
}

/// With rendering disabled (and not forced), no step ever asks for a
/// headless render.
pub proof fn disabled_render_never_renders(opts: Opts, url: Seq<char>, stage: StageView, event: Event)
    requires
        opts.no_render,
        !opts.force_render,
        accepts(stage, event),
    ensures
        !(next_step(opts, url, stage, event).1 is Render),
{
}

/// A static page that looks like an empty SPA shell is rendered headless,
/// unless rendering is disabled.
pub proof fn spa_shell_falls_back_to_render(opts: Opts, url: Seq<char>, html: String)
    requires
        !opts.no_render,
        spa_shell(html@),
    ensures
        next_step(opts, url, StageView::FetchingStatic, Event::StaticFetched(Ok(html)))
            == (StageView::Rendering, ActionView::Render),
{
}

/// With `--no-assets`, no step downloads images.
pub proof fn no_assets_never_downloads(opts: Opts, url: Seq<char>, stage: StageView, event: Event)
    requires
        opts.no_assets,
        accepts(stage, event),
    ensures
        !(next_step(opts, url, stage, event).1 is DownloadAssets),
{
}

/// An empty extraction is retried with a render at most once: the render
/// that retries it is never followed by another.
pub proof fn empty_extraction_retried_once(opts: Opts, url: Seq<char>, event: Event)
    requires
        accepts(StageView::RetryRendering, event),
    ensures
        !(next_step(opts, url, StageView::RetryRendering, event).1 is Render),
{
}

/// Content that comes from the headless retry is recorded as `headless`.
pub proof fn retried_content_is_headless(opts: Opts, url: Seq<char>, html: String)
    ensures
        ({
            let (stage, action) = next_step(
                opts,
                url,
                StageView::RetryRendering,
                Event::Rendered(Ok(html)),
            );
            &&& stage matches StageView::Downloading(_, m) ==> m == RenderMode::Headless
            &&& action matches ActionView::WriteBundle(_, _, m) ==> m == RenderMode::Headless
        }),
{
}

/// With rendering disabled, an SPA shell whose extraction is empty ends the
/// run with `EmptySpaWithoutRender`, without rendering.
pub proof fn unrendered_shell_is_reported(opts: Opts, url: Seq<char>, html: String)
    requires
        opts.no_render,
        spa_shell(html@),
        extraction(html@, url, opt_view(opts.selector)) == Err::<(Seq<char>, Seq<char>), ErrorKind>(
            ErrorKind::ExtractionEmpty,
        ),
    ensures
        next_step(opts, url, StageView::FetchingStatic, Event::StaticFetched(Ok(html)))
            == (StageView::Done, ActionView::Finish(Err(ErrorKind::EmptySpaWithoutRender))),
{
}

/// Every failure reported by the driver ends the run with that failure.
pub proof fn failures_end_the_run(opts: Opts, url: Seq<char>, stage: StageView, e: W2mError)
    requires
        stage is FetchingStatic || stage is Rendering || stage is RetryRendering,
    ensures
        stage is FetchingStatic ==> next_step(opts, url, stage, Event::StaticFetched(Err(e)))
            == (StageView::Done, ActionView::Finish(Err(e@))),
        !(stage is FetchingStatic) ==> next_step(opts, url, stage, Event::Rendered(Err(e)))
            == (StageView::Done, ActionView::Finish(Err(e@))),
{
}

/// The bundle written after the downloads records the mode with which the
/// page was obtained, the article's title, and the article converted with
/// the downloaded images.
pub proof fn downloads_keep_render_mode(
    opts: Opts,
    url: Seq<char>,
    article: (Seq<char>, Seq<char>),
    mode: RenderMode,
    assets: AssetMap,
)
    ensures
        next_step(
            opts,
            url,
            StageView::Downloading(article, mode),
            Event::AssetsDownloaded(Ok(assets)),
        ).1 matches ActionView::WriteBundle(md, title, m) && m == mode && title == article.0
            && md == markdown_of(article.1, url, assets@),
{
}

/// A page obtained by a headless render (forced, or the fallback for an SPA
/// shell) is recorded as `headless`, whether its images are downloaded first
/// or it is written at once.
pub proof fn rendered_pages_are_headless(opts: Opts, url: Seq<char>, html: String)
    ensures
        ({
            let (stage, action) = next_step(opts, url, StageView::Rendering, Event::Rendered(Ok(html)));
            &&& stage matches StageView::Downloading(_, m) ==> m == RenderMode::Headless
            &&& action matches ActionView::WriteBundle(_, _, m) ==> m == RenderMode::Headless
        }),
{
}

/// A page obtained by the static fetch and extracted from it is recorded as
/// `static`.
pub proof fn fetched_pages_are_static(opts: Opts, url: Seq<char>, html: String)
    ensures
        ({
            let (stage, action) = next_step(
                opts,
                url,
                StageView::FetchingStatic,
                Event::StaticFetched(Ok(html)),
            );
            &&& stage matches StageView::Downloading(_, m) ==> m == RenderMode::Static
            &&& action matches ActionView::WriteBundle(_, _, m) ==> m == RenderMode::Static
        }),
{
}

/// A forced render of a page with images: render, then download the page's
/// images, then write the bundle marked `headless`.
pub proof fn forced_render_with_images_is_headless(
    opts: Opts,
    url: Seq<char>,
    html: String,
    assets: AssetMap,
)
    requires
        opts.force_render,
        !opts.no_assets,
        extraction(html@, url, opt_view(opts.selector)) is Ok,
    ensures
        next_step(opts, url, StageView::Start, Event::Begin) == (
            StageView::Rendering,
            ActionView::Render,
        ),
        ({
            let a = extraction(html@, url, opt_view(opts.selector))->Ok_0;
            &&& next_step(opts, url, StageView::Rendering, Event::Rendered(Ok(html))) == (
                StageView::Downloading(a, RenderMode::Headless),
                ActionView::DownloadAssets(image_urls(a.1, url)),
            )
            &&& next_step(
                opts,
                url,
                StageView::Downloading(a, RenderMode::Headless),
                Event::AssetsDownloaded(Ok(assets)),
            ).1 == ActionView::WriteBundle(markdown_of(a.1, url, assets@), a.0, RenderMode::Headless)
        }),
{
}

/// The text of the page's body that the shell test counts: the text of the
/// first `body` element, its whitespace left out.
pub proof fn body_chars_counts_the_body(html: Seq<char>)
    ensures
        body_chars(html) == match crate::html::first_text(html, "body"@) {
            Some(t) => count_non_ws(t),
            None => 0,
        },
{
}

/// A page whose body has fewer than 200 non-whitespace characters is an SPA
/// shell, whatever it holds.
pub proof fn sparse_body_is_a_shell(html: Seq<char>)
    requires
        body_chars(html) < 200,
    ensures
        spa_shell(html),
{
}

/// A page with a React, Vue or Next.js mount point (`id="root"`, `id="app"`,
/// `id="__next"`) and fewer than 500 non-whitespace body characters is an SPA
/// shell.
pub proof fn mounted_sparse_page_is_a_shell(html: Seq<char>)
    requires
        has_substring(html, "id=\"root\""@) || has_substring(html, "id=\"app\""@)
            || has_substring(html, "id=\"__next\""@),
        body_chars(html) < 500,
    ensures
        spa_shell(html),
{
}

/// A page with at least 500 non-whitespace body characters is never a shell,
/// and neither is one with at least 200 and no mount point.
pub proof fn full_pages_are_not_shells(html: Seq<char>)
    ensures
        body_chars(html) >= 500 ==> !spa_shell(html),
        body_chars(html) >= 200 && !has_substring(html, "id=\"root\""@) && !has_substring(
            html,
            "id=\"app\""@,
        ) && !has_substring(html, "id=\"__next\""@) ==> !spa_shell(html),
{
}

/// The run's outcome is the outcome of writing the bundle.
pub proof fn written_bundle_ends_the_run(opts: Opts, url: Seq<char>, r: Result<(), W2mError>)
    ensures
        next_step(opts, url, StageView::Writing, Event::BundleWritten(r)) == (
            StageView::Done,
            ActionView::Finish(outcome_view(r)),
        ),
        r is Ok ==> next_step(opts, url, StageView::Writing, Event::BundleWritten(r)).1
            == ActionView::Finish(Ok(())),
{
}

/// A static page that is not a shell and yields nothing is rendered headless
/// once more, unless a render flag is set; any other extraction failure ends
/// the run at once with that failure, without rendering.
pub proof fn extraction_failures_of_the_static_page(opts: Opts, url: Seq<char>, html: String)
    requires
        !opts.no_render ==> !spa_shell(html@),
    ensures
        !opts.force_render && !opts.no_render && extraction(html@, url, opt_view(opts.selector))
            == Err::<(Seq<char>, Seq<char>), ErrorKind>(ErrorKind::ExtractionEmpty) ==> next_step(
            opts,
            url,
            StageView::FetchingStatic,
            Event::StaticFetched(Ok(html)),
        ) == (StageView::RetryRendering, ActionView::Render),
        match extraction(html@, url, opt_view(opts.selector)) {
            Err(e) => !(e is ExtractionEmpty) ==> next_step(
                opts,
                url,
                StageView::FetchingStatic,
                Event::StaticFetched(Ok(html)),
            ) == (StageView::Done, ActionView::Finish(Err(e))),
            Ok(_) => true,
        },
{
}

/// Once an article is extracted, its images are downloaded (each URL the
/// article shows, once) unless `--no-assets` is set, in which case it is
/// written at once with its image sources left as they are.
pub proof fn extracted_article_next(opts: Opts, url: Seq<char>, html: String)
    requires
        extraction(html@, url, opt_view(opts.selector)) is Ok,
    ensures
        ({
            let a = extraction(html@, url, opt_view(opts.selector))->Ok_0;
            let (stage, action) = next_step(opts, url, StageView::Rendering, Event::Rendered(Ok(html)));
            &&& !opts.no_assets ==> stage == StageView::Downloading(a, RenderMode::Headless)
                && action == ActionView::DownloadAssets(image_urls(a.1, url))
            &&& opts.no_assets ==> stage == StageView::Writing && action == ActionView::WriteBundle(
                markdown_of(a.1, url, Map::empty()),
                a.0,
                RenderMode::Headless,
            )
        }),
{
}

} // verus!
