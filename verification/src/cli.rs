//! The command line's values and how they combine with the config file.
//!
//! Parsing the arguments is done by the program around the library; `Cli`
//! holds what it parsed.

use vstd::prelude::*;
use crate::config::{Config, HostRules, host_table, rules_spec};
use crate::pipeline::Opts;
use crate::text::{
    concat_str, make_safe, push_char, replace_char, replace_char_exec, safe_chars,
    trim_slash, trim_slashes,
};
use crate::web_url::{WebUrl, url_host, url_path, url_query};

verus! {

/// Parallel image downloads when neither the command line nor the config
/// sets them.
pub const DEFAULT_CONCURRENCY: usize = 8;

/// Milliseconds of settling after navigation when neither the command line
/// nor the config sets them.
pub const DEFAULT_WAIT_MS: u64 = 2000;

/// The parsed command line.
#[derive(Debug)]
pub struct Cli {
    /// URL of the page to convert.
    pub url: String,
    /// Output directory. Defaults to a slug derived from the URL.
    pub out: Option<String>,
    /// Force headless Chrome rendering.
    pub render: bool,
    /// Disable headless fallback (static fetch only).
    pub no_render: bool,
    /// CSS selector for the main content (overrides readability).
    pub selector: Option<String>,
    /// Skip image downloads, keep the images' own URLs in Markdown.
    pub no_assets: bool,
    /// Parallel image downloads.
    pub concurrency: Option<usize>,
    /// Milliseconds to wait after navigation before reading the rendered DOM.
    pub wait_ms: Option<u64>,
    /// Path to config file.
    pub config: Option<String>,
    /// Verbosity (-v debug, -vv trace).
    pub verbose: u8,
}

/// How the page is to be obtained.
#[derive(Debug, Clone, Copy, PartialEq, Eq, Structural)]
pub enum RenderStrategy {
    /// Render headless, skipping the static fetch.
    Force,
    /// Static fetch only, never render.
    Disabled,
    /// Static fetch, rendering when the page looks like an empty shell.
    Auto,
}

/// The render strategy: a render flag on the command line wins over
/// everything; then the host config's `render`, then its `no_render`.
pub open spec fn render_choice(
    cli_render: bool,
    cli_no_render: bool,
    rules_render: Option<bool>,
    rules_no_render: Option<bool>,
) -> RenderStrategy {
    if cli_render {
        RenderStrategy::Force
    } else if cli_no_render {
        RenderStrategy::Disabled
    } else if rules_render == Some(true) {
        RenderStrategy::Force
    } else if rules_no_render == Some(true) {
        RenderStrategy::Disabled
    } else {
        RenderStrategy::Auto
    }
}

/// CLI render flags always win over the host config. Only when neither CLI
/// flag is set are the host rules looked at.
pub fn resolve_render(cli: &Cli, rules: &HostRules) -> (r: RenderStrategy)
    ensures
        r == render_choice(cli.render, cli.no_render, rules.render, rules.no_render),
{
    if cli.render {
        return RenderStrategy::Force;
    }
    if cli.no_render {
        return RenderStrategy::Disabled;
    }
    if rules.render == Some(true) {
        return RenderStrategy::Force;
    }
    if rules.no_render == Some(true) {
        return RenderStrategy::Disabled;
    }
    RenderStrategy::Auto
}

/// The first value that is set, else `fallback`.
pub open spec fn first_set<T>(a: Option<T>, b: Option<T>, fallback: T) -> T {
    match a {
        Some(x) => x,
        None => match b {
            Some(y) => y,
            None => fallback,
        },
    }
}

/// The output directory derived from a URL with host `host`, path `path` and
/// query `query`: the host (`page` without one), then `-` and the path with
/// outer slashes trimmed and inner ones turned into `-` (where that is not
/// empty), then `-` and the query made safe (where there is a non-empty one).
pub open spec fn out_dir_slug(
    host: Option<Seq<char>>,
    path: Seq<char>,
    query: Option<Seq<char>>,
) -> Seq<char> {
    let h = match host {
        Some(h) => h,
        None => "page"@,
    };
    let p = replace_char(trim_slashes(path), '/', '-');
    let base = if p.len() == 0 {
        h
    } else {
        h.push('-') + p
    };
    match query {
        Some(q) => if q.len() > 0 {
            base.push('-') + safe_chars(q)
        } else {
            base
        },
        None => base,
    }
}

/// The output directory derived from `url`.
pub fn default_out_dir(url: &WebUrl) -> (dir: String)
    ensures
        dir@ == out_dir_slug(url_host(url@), url_path(url@), url_query(url@)),
{
    let host = match url.host_str() {
        Some(h) => h,
        None => "page".to_owned(),
    };
    let trimmed = trim_slash(&url.path());
    let path = replace_char_exec(&trimmed, '/', '-');
    let mut slug = if path.as_str().is_empty() {
        host
    } else {
        let mut s = host;
        push_char(&mut s, '-');
        concat_str(&s, &path)
    };
    if let Some(q) = url.query() {
        if !q.as_str().is_empty() {
            push_char(&mut slug, '-');
            slug = concat_str(&slug, &sanitize_slug(&q));
        }
    }
    slug
}

/// `s` with every character other than ASCII letters, digits, `.`, `-` and
/// `_` replaced by `_`.
pub fn sanitize_slug(s: &str) -> (r: String)
    ensures
        r@ == safe_chars(s@),
{
    make_safe(s)
}

/// The options of a run: for each one, the command line's value if it gives
/// one, else the config's, else the built-in default.
pub open spec fn resolved_opts(cli: Cli, rules: HostRules, url: Seq<char>, opts: Opts) -> bool {
    let render = render_choice(cli.render, cli.no_render, rules.render, rules.no_render);
    &&& opts.force_render == (render == RenderStrategy::Force)
    &&& opts.no_render == (render == RenderStrategy::Disabled)
    &&& opts.selector == (if cli.selector is Some {
        cli.selector
    } else {
        rules.selector
    })
    &&& opts.no_assets == (cli.no_assets || rules.no_assets == Some(true))
    &&& opts.concurrency == first_set(cli.concurrency, rules.concurrency, DEFAULT_CONCURRENCY)
    &&& opts.wait_ms == first_set(cli.wait_ms, rules.wait_ms, DEFAULT_WAIT_MS)
    &&& opts.out_dir@ == match cli.out {
        Some(o) => o@,
        None => out_dir_slug(url_host(url), url_path(url), url_query(url)),
    }
}

fn copy_text(s: &Option<String>) -> (r: Option<String>)
    ensures
        r == *s,
{
    match s {
        Some(t) => Some(t.clone()),
        None => None,
    }
}

/// Combine the command line, the host's config rules and the URL into the
/// options of a run. Priority for each field: CLI flag > config rule >
/// built-in default.
pub fn resolve_opts(cli: &Cli, rules: &HostRules, url: &WebUrl) -> (opts: Opts)
    ensures
        resolved_opts(*cli, *rules, url@, opts),
{
    let render = resolve_render(cli, rules);
    let selector = if cli.selector.is_some() {
        copy_text(&cli.selector)
    } else {
        copy_text(&rules.selector)
    };
    let no_assets = cli.no_assets || rules.no_assets == Some(true);
    let concurrency = match cli.concurrency {
        Some(c) => c,
        None => match rules.concurrency {
            Some(c) => c,
            None => DEFAULT_CONCURRENCY,
        },
    };
    let wait_ms = match cli.wait_ms {
        Some(w) => w,
        None => match rules.wait_ms {
            Some(w) => w,
            None => DEFAULT_WAIT_MS,
        },
    };
    let out_dir = match &cli.out {
        Some(o) => o.clone(),
        None => default_out_dir(url),
    };
    Opts {
        out_dir,
        force_render: render == RenderStrategy::Force,
        no_render: render == RenderStrategy::Disabled,
        selector,
        no_assets,
        concurrency,
        wait_ms,
    }
}

/// A URL without a query and the same URL with an empty query (`…?`) get
/// the same output directory.
pub proof fn empty_query_same_dir(host: Option<Seq<char>>, path: Seq<char>)
    ensures
        out_dir_slug(host, path, Some(Seq::empty())) == out_dir_slug(host, path, None),
{
}

/// Two URLs with the same host and path whose non-empty queries differ
/// after being made safe get different output directories.
pub proof fn distinct_queries_distinct_dirs(
    host: Option<Seq<char>>,
    path: Seq<char>,
    q1: Seq<char>,
    q2: Seq<char>,
)
    requires
        q1.len() > 0,
        q2.len() > 0,
        safe_chars(q1) != safe_chars(q2),
    ensures
        out_dir_slug(host, path, Some(q1)) != out_dir_slug(host, path, Some(q2)),
{
    let base = out_dir_slug(host, path, None).push('-');
    let a = base + safe_chars(q1);
    let b = base + safe_chars(q2);
    assert(out_dir_slug(host, path, Some(q1)) == a);
    assert(out_dir_slug(host, path, Some(q2)) == b);
    if a == b {
        assert(a.subrange(base.len() as int, a.len() as int) == safe_chars(q1));
        assert(b.subrange(base.len() as int, b.len() as int) == safe_chars(q2));
    }
}

/// However the command line and the config combine, a run is never told
/// both to force rendering and to never render.
pub proof fn resolved_render_flags_exclusive(cli: Cli, rules: HostRules, url: Seq<char>, opts: Opts)
    requires
        resolved_opts(cli, rules, url, opts),
    ensures
        !(opts.force_render && opts.no_render),
{
}

/// Lookup priority for a host: CLI flag > `[hosts."<exact-host>"]` >
/// `[defaults]` > built-in default.
pub proof fn cli_over_host_over_defaults_over_builtin(
    cli: Cli,
    config: Config,
    host: Seq<char>,
    url: Seq<char>,
    opts: Opts,
)
    requires
        resolved_opts(cli, rules_spec(config, host), url, opts),
    ensures
        opts.wait_ms == (match cli.wait_ms {
            Some(w) => w,
            None => match host_table(config.hosts@, host) {
                Some(h) if h.wait_ms is Some => h.wait_ms->0,
                _ => match config.defaults.wait_ms {
                    Some(w) => w,
                    None => 2000,
                },
            },
        }),
        opts.concurrency == (match cli.concurrency {
            Some(c) => c,
            None => match host_table(config.hosts@, host) {
                Some(h) if h.concurrency is Some => h.concurrency->0,
                _ => match config.defaults.concurrency {
                    Some(c) => c,
                    None => 8,
                },
            },
        }),
        opts.selector == (match cli.selector {
            Some(s) => Some(s),
            None => match host_table(config.hosts@, host) {
                Some(h) if h.selector is Some => h.selector,
                _ => config.defaults.selector,
            },
        }),
{
}

/// `--no-assets` on the command line, or `no_assets = true` in the host's
/// rules, turns image downloads off; otherwise they stay on.
pub proof fn no_assets_flag_takes_effect(cli: Cli, rules: HostRules, url: Seq<char>, opts: Opts)
    requires
        resolved_opts(cli, rules, url, opts),
    ensures
        cli.no_assets ==> opts.no_assets,
        rules.no_assets == Some(true) ==> opts.no_assets,
        !cli.no_assets && rules.no_assets != Some(true) ==> !opts.no_assets,
{
}

/// `--render` forces rendering and `--no-render` disables it, whatever the
/// config says; only without either flag does the config's `render = true`
/// force it, and then its `no_render = true` disable it; with nothing set the
/// run fetches statically and renders only an SPA shell.
pub proof fn render_flags_take_effect(cli: Cli, rules: HostRules, url: Seq<char>, opts: Opts)
    requires
        resolved_opts(cli, rules, url, opts),
    ensures
        cli.render ==> opts.force_render && !opts.no_render,
        !cli.render && cli.no_render ==> opts.no_render && !opts.force_render,
        !cli.render && !cli.no_render && rules.render == Some(true) ==> opts.force_render
            && !opts.no_render,
        !cli.render && !cli.no_render && rules.render != Some(true) && rules.no_render == Some(
            true,
        ) ==> opts.no_render && !opts.force_render,
        !cli.render && !cli.no_render && rules.render != Some(true) && rules.no_render != Some(
            true,
        ) ==> !opts.force_render && !opts.no_render,
{
}

/// `-o` names the output directory; without it the directory is derived
/// from the URL.
pub proof fn out_flag_names_the_directory(cli: Cli, rules: HostRules, url: Seq<char>, opts: Opts)
    requires
        resolved_opts(cli, rules, url, opts),
    ensures
        cli.out matches Some(o) ==> opts.out_dir@ == o@,
        cli.out is None ==> opts.out_dir@ == out_dir_slug(url_host(url), url_path(url), url_query(url)),
{
}

/// With nothing set on the command line or in the config, a run downloads
/// images 8 at a time, waits 2000 ms after navigation, uses readability, and
/// fetches statically first.
pub proof fn built_in_defaults(cli: Cli, rules: HostRules, url: Seq<char>, opts: Opts)
    requires
        resolved_opts(cli, rules, url, opts),
        cli.concurrency is None && rules.concurrency is None,
        cli.wait_ms is None && rules.wait_ms is None,
        cli.selector is None && rules.selector is None,
        !cli.render && !cli.no_render && rules.render is None && rules.no_render is None,
        !cli.no_assets && rules.no_assets is None,
    ensures
        opts.concurrency == 8,
        opts.wait_ms == 2000,
        opts.selector is None,
        !opts.force_render && !opts.no_render && !opts.no_assets,
{
}

/// The directory derived from a URL: the host, then the trimmed path with
/// `/` turned into `-`, then the query made safe, each joined by `-`.
pub proof fn out_dir_slug_parts(host: Seq<char>, path: Seq<char>, query: Seq<char>)
    ensures
        out_dir_slug(Some(host), seq!['/'], None) == host,
        out_dir_slug(None, seq!['/'], None) == "page"@,
        path.len() > 0 && !path.contains('/') ==> out_dir_slug(
            Some(host),
            seq!['/'] + path,
            None,
        ) == host + seq!['-'] + path,
        query.len() > 0 ==> out_dir_slug(Some(host), seq!['/'], Some(query)) == host + seq!['-']
            + safe_chars(query),
{
    let slash = seq!['/'];
    assert(trim_slashes(slash).len() == 0) by {
        let p = |c: char| c == '/';
        assert(slash.drop_first().len() == 0);
        assert(crate::text::strip_leading(slash, p) == crate::text::strip_leading(slash.drop_first(), p));
    }
    if path.len() > 0 && !path.contains('/') {
        let p = |c: char| c == '/';
        let full = slash + path;
        assert(full.drop_first() == path);
        assert(crate::text::strip_leading(path, p) == path) by {
            assert(path[0] != '/') by {
                if path[0] == '/' {
                    assert(path.contains('/'));
                }
            }
        }
        assert(crate::text::strip_trailing(path, p) == path) by {
            assert(path.last() != '/') by {
                if path.last() == '/' {
                    assert(path[path.len() - 1] == '/');
                }
            }
        }
        assert(trim_slashes(full) == path);
        assert(replace_char(path, '/', '-') == path) by {
            assert forall|i: int| 0 <= i < path.len() implies replace_char(path, '/', '-')[i]
                == path[i] by {
                if path[i] == '/' {
                    assert(path.contains('/'));
                }
            }
        }
    }
}

} // verus!
