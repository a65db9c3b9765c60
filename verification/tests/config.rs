use w2m::config::{config_path_choice, Config, HostRules};

fn example() -> Config {
    Config {
        defaults: HostRules { wait_ms: Some(2500), concurrency: Some(4), ..Default::default() },
        hosts: vec![(
            "open.oceanengine.com".to_string(),
            HostRules {
                render: Some(true),
                wait_ms: Some(5000),
                selector: Some(".doc-content-body".to_string()),
                ..Default::default()
            },
        )],
    }
}

#[test]
fn parses_full_example() {
    let cfg = example();
    assert_eq!(cfg.defaults.wait_ms, Some(2500));
    assert_eq!(cfg.defaults.concurrency, Some(4));

    let rules = cfg.rules_for("open.oceanengine.com");
    // host wait_ms wins over defaults
    assert_eq!(rules.wait_ms, Some(5000));
    // defaults still apply where host doesn't override
    assert_eq!(rules.concurrency, Some(4));
    assert_eq!(rules.render, Some(true));
    assert_eq!(rules.selector.as_deref(), Some(".doc-content-body"));
}

#[test]
fn unknown_host_falls_back_to_defaults() {
    let cfg = Config {
        defaults: HostRules { wait_ms: Some(1234), ..Default::default() },
        hosts: Vec::new(),
    };
    let rules = cfg.rules_for("not-listed.com");
    assert_eq!(rules.wait_ms, Some(1234));
    assert!(rules.render.is_none());
}

#[test]
fn default_config_is_empty() {
    let cfg = Config::default();
    assert!(cfg.hosts.is_empty());
    assert!(cfg.defaults.wait_ms.is_none());
    let rules = cfg.rules_for("example.com");
    assert!(rules.selector.is_none() && rules.render.is_none() && rules.concurrency.is_none());
}

#[test]
fn host_lookup_is_exact() {
    let cfg = example();
    let rules = cfg.rules_for("oceanengine.com");
    assert_eq!(rules.wait_ms, Some(2500));
    assert!(rules.render.is_none());
}

#[test]
fn config_path_prefers_existing_home_config() {
    let p = Some("/h/.config/w2m/config.toml".to_string());
    let n = Some("/n/w2m/config.toml".to_string());
    assert_eq!(config_path_choice(p.clone(), true, n.clone(), true), p);
    assert_eq!(config_path_choice(p.clone(), false, n.clone(), true), n);
    assert_eq!(config_path_choice(p.clone(), false, n.clone(), false), p);
    assert_eq!(config_path_choice(None, false, n.clone(), false), n);
    assert_eq!(config_path_choice(None, false, None, false), None);
}
