//! Per-host defaults from the user's config file, and how they merge.
//!
//! Reading and parsing the file is done by the program around the library;
//! here is what the parsed file means.

use vstd::prelude::*;

verus! {

/// The keys that a `[defaults]` or `[hosts."<host>"]` table may set; a key
/// that is not set is `None`.
#[derive(Debug)]
pub struct HostRules {
    pub render: Option<bool>,
    pub no_render: Option<bool>,
    pub selector: Option<String>,
    pub no_assets: Option<bool>,
    pub concurrency: Option<usize>,
    pub wait_ms: Option<u64>,
}

impl Default for HostRules {
    fn default() -> (r: HostRules)
        ensures
            r.render is None && r.no_render is None && r.selector is None,
            r.no_assets is None && r.concurrency is None && r.wait_ms is None,
    {
        HostRules {
            render: None,
            no_render: None,
            selector: None,
            no_assets: None,
            concurrency: None,
            wait_ms: None,
        }
    }
}

/// The parsed config file: the `[defaults]` table and one table per host.
#[derive(Debug)]
pub struct Config {
    pub defaults: HostRules,
    pub hosts: Vec<(String, HostRules)>,
}

impl Default for Config {
    fn default() -> (c: Config)
        ensures
            c.hosts@.len() == 0,
            c.defaults.render is None && c.defaults.no_render is None,
            c.defaults.selector is None && c.defaults.no_assets is None,
            c.defaults.concurrency is None && c.defaults.wait_ms is None,
    {
        Config { defaults: HostRules::default(), hosts: Vec::new() }
    }
}

/// The rules given for exactly `host`, if any (the first table of that name).
pub open spec fn host_table(hosts: Seq<(String, HostRules)>, host: Seq<char>) -> Option<HostRules>
    decreases hosts.len(),
{
    if hosts.len() == 0 {
        None
    } else if hosts[0].0@ == host {
        Some(hosts[0].1)
    } else {
        host_table(hosts.drop_first(), host)
    }
}

/// The host's value where it sets one, the default's otherwise.
pub open spec fn prefer<T>(host: Option<T>, default: Option<T>) -> Option<T> {
    if host is Some {
        host
    } else {
        default
    }
}

/// `defaults` overridden, key by key, by every key that `over` sets.
pub open spec fn merge_rules(defaults: HostRules, over: HostRules) -> HostRules {
    HostRules {
        render: prefer(over.render, defaults.render),
        no_render: prefer(over.no_render, defaults.no_render),
        selector: prefer(over.selector, defaults.selector),
        no_assets: prefer(over.no_assets, defaults.no_assets),
        concurrency: prefer(over.concurrency, defaults.concurrency),
        wait_ms: prefer(over.wait_ms, defaults.wait_ms),
    }
}

/// The rules that apply to `host`.
pub open spec fn rules_spec(config: Config, host: Seq<char>) -> HostRules {
    match host_table(config.hosts@, host) {
        Some(h) => merge_rules(config.defaults, h),
        None => config.defaults,
    }
}

fn copy_text(s: &Option<String>) -> (r: Option<String>)
    ensures
        r == *s,
{
    match s {
        Some(t) => Some(t.clone()),
        None => None,
    }
}

fn copy_rules(r: &HostRules) -> (c: HostRules)
    ensures
        c == *r,
{
    HostRules {
        render: r.render,
        no_render: r.no_render,
        selector: copy_text(&r.selector),
        no_assets: r.no_assets,
        concurrency: r.concurrency,
        wait_ms: r.wait_ms,
    }
}

impl Config {
    fn find_host(&self, host: &str) -> (r: Option<&HostRules>)
        ensures
            match r {
                Some(h) => host_table(self.hosts@, host@) == Some(*h),
                None => host_table(self.hosts@, host@) is None,
            },
    {
        let key = host.to_owned();
        let mut i: usize = 0;
        assert(self.hosts@.skip(0) == self.hosts@);
        while i < self.hosts.len()
            invariant
                i <= self.hosts@.len(),
                key@ == host@,
                host_table(self.hosts@, host@) == host_table(self.hosts@.skip(i as int), host@),
            decreases self.hosts@.len() - i,
        {
            let ghost rest = self.hosts@.skip(i as int);
            assert(rest.drop_first() == self.hosts@.skip(i + 1));
            assert(rest[0] == self.hosts@[i as int]);
            if self.hosts[i].0 == key {
                return Some(&self.hosts[i].1);
            }
            i = i + 1;
        }
        None
    }

    /// Merge `defaults` then the host-specific rules (if any) into a single
    /// `HostRules`. Host-specific values win over defaults.
    pub fn rules_for(&self, host: &str) -> (merged: HostRules)
        ensures
            merged == rules_spec(*self, host@),
    {
        let mut merged = copy_rules(&self.defaults);
        if let Some(host_rules) = self.find_host(host) {
            if host_rules.render.is_some() {
                merged.render = host_rules.render;
            }
            if host_rules.no_render.is_some() {
                merged.no_render = host_rules.no_render;
            }
            if host_rules.selector.is_some() {
                merged.selector = copy_text(&host_rules.selector);
            }
            if host_rules.no_assets.is_some() {
                merged.no_assets = host_rules.no_assets;
            }
            if host_rules.concurrency.is_some() {
                merged.concurrency = host_rules.concurrency;
            }
            if host_rules.wait_ms.is_some() {
                merged.wait_ms = host_rules.wait_ms;
            }
        }
        merged
    }
}

/// Which config file to read: the preferred `~/.config/w2m/config.toml` where
/// it exists, else the platform-native one where it exists, else the
/// preferred path (so that a future write goes there), else the native one.
pub fn config_path_choice(
    preferred: Option<String>,
    preferred_exists: bool,
    native: Option<String>,
    native_exists: bool,
) -> (r: Option<String>)
    ensures
        r == (if preferred is Some && preferred_exists {
            preferred
        } else if native is Some && native_exists {
            native
        } else if preferred is Some {
            preferred
        } else {
            native
        }),
{
    if preferred.is_some() && preferred_exists {
        preferred
    } else if native.is_some() && native_exists {
        native
    } else if preferred.is_some() {
        preferred
    } else {
        native
    }
}

/// A key that the host's table sets decides that key for the host; a key that
/// it leaves unset, or any key of a host without a table, comes from
/// `[defaults]`.
pub proof fn host_rules_win_over_defaults(config: Config, host: Seq<char>)
    ensures
        host_table(config.hosts@, host) matches Some(h) ==> {
            &&& h.wait_ms is Some ==> rules_spec(config, host).wait_ms == h.wait_ms
            &&& h.wait_ms is None ==> rules_spec(config, host).wait_ms == config.defaults.wait_ms
            &&& h.render is Some ==> rules_spec(config, host).render == h.render
            &&& h.selector is Some ==> rules_spec(config, host).selector == h.selector
            &&& h.concurrency is None ==> rules_spec(config, host).concurrency
                == config.defaults.concurrency
        },
        host_table(config.hosts@, host) is None ==> rules_spec(config, host) == config.defaults,
{
}

} // verus!
