use uniman::config::{BackendDef, BackendMap, Config, FetchMethod, ManFormat};
use uniman::error::UmanError;

#[test]
fn defaults_contains_expected_backends() {
    let config = Config::defaults("linux");
    assert!(config.backends.contains_key("linux-upstream"));
    assert!(config.backends.contains_key("freebsd"));
    assert!(config.backends.contains_key("netbsd"));
    assert!(config.backends.contains_key("openbsd"));
    assert!(config.backends.contains_key("apple"));
    assert_eq!(config.backends.len(), 5);
}

#[test]
fn default_backend_fields() {
    let config = Config::defaults("linux");
    let linux = config.backends.get("linux-upstream").unwrap();
    assert_eq!(linux.name, "linux-upstream");
    assert_eq!(linux.source, "https://git.kernel.org/pub/scm/docs/man-pages/man-pages.git");
    assert_eq!(linux.format, ManFormat::Roff);
    assert_eq!(linux.fetching, FetchMethod::Git);
    assert!(linux.aliases.contains(&"linux".to_string()));
}

#[test]
fn defaults_has_default_backend() {
    let config = Config::defaults("linux");
    assert_eq!(config.default_backend.as_deref(), Some("linux-upstream"));
}

#[test]
fn defaults_follow_the_operating_system() {
    assert_eq!(Config::defaults("macos").default_backend.as_deref(), Some("macos"));
    assert_eq!(Config::defaults("freebsd").default_backend.as_deref(), Some("freebsd"));
    assert_eq!(Config::defaults("netbsd").default_backend.as_deref(), Some("netbsd"));
    assert_eq!(Config::defaults("openbsd").default_backend.as_deref(), Some("openbsd"));
    assert_eq!(Config::defaults("windows").default_backend.as_deref(), Some("linux-upstream"));
    let mac = Config::defaults("macos");
    assert_eq!(mac.resolve("macos").unwrap().name, "apple");
}

#[test]
fn get_backend_found() {
    let config = Config::defaults("linux");
    let result = config.get_backend("linux-upstream");
    assert!(result.is_ok());
    assert_eq!(result.unwrap().name, "linux-upstream");
}

#[test]
fn get_backend_not_found() {
    let config = Config::defaults("linux");
    let result = config.get_backend("nonexistent");
    assert!(result.is_err());
    match result.unwrap_err() {
        UmanError::BackendNotFound(name) => assert_eq!(name, "nonexistent"),
        other => panic!("expected BackendNotFound, got {:?}", other),
    }
}

#[test]
fn get_backend_does_not_follow_aliases() {
    let config = Config::defaults("linux");
    assert!(config.get_backend("linux").is_err());
}

#[test]
fn resolve_by_name() {
    let config = Config::defaults("linux");
    let def = config.resolve("linux-upstream").unwrap();
    assert_eq!(def.name, "linux-upstream");
}

#[test]
fn resolve_by_alias() {
    let config = Config::defaults("linux");
    let def = config.resolve("linux").unwrap();
    assert_eq!(def.name, "linux-upstream");
}

#[test]
fn resolve_by_alias_freebsd() {
    let config = Config::defaults("linux");
    let def = config.resolve("freebsd").unwrap();
    assert_eq!(def.name, "freebsd");
}

#[test]
fn resolve_not_found() {
    let config = Config::defaults("linux");
    let result = config.resolve("nope");
    assert!(result.is_err());
    match result.unwrap_err() {
        UmanError::BackendNotFound(name) => assert_eq!(name, "nope"),
        other => panic!("expected BackendNotFound, got {:?}", other),
    }
}

#[test]
fn resolve_falls_back_on_builtin_aliases() {
    // A registry that kept the backend under its built-in key but dropped
    // the aliases still answers to the built-in aliases.
    let mut config = Config::defaults("linux");
    config.backends = BackendMap::new();
    config.backends.insert(
        "freebsd".to_string(),
        BackendDef {
            name: "freebsd".to_string(),
            source: "https://example.com/fbsd".to_string(),
            format: ManFormat::Roff,
            fetching: FetchMethod::Curl,
            aliases: vec![],
        },
    );
    let def = config.resolve("bsd").unwrap();
    assert_eq!(def.source, "https://example.com/fbsd");
    assert!(config.resolve("linux").is_err());
}

#[test]
fn get_default_backend_none_set() {
    let mut config = Config::defaults("linux");
    config.default_backend = None;
    let result = config.get_default_backend(true);
    assert!(result.is_err());
    match result.unwrap_err() {
        UmanError::NoDefaultBackend => {}
        other => panic!("expected NoDefaultBackend, got {:?}", other),
    }
}

#[test]
fn get_default_backend_set_but_not_installed() {
    let mut config = Config::defaults("linux");
    config.backends.insert(
        "not-installed-test".to_string(),
        BackendDef {
            name: "not-installed-test".to_string(),
            source: "".to_string(),
            format: ManFormat::Roff,
            fetching: FetchMethod::Git,
            aliases: vec![],
        },
    );
    config.default_backend = Some("not-installed-test".to_string());
    let result = config.get_default_backend(false);
    assert!(result.is_err());
    match result.unwrap_err() {
        UmanError::DefaultNotInstalled(name) => assert_eq!(name, "not-installed-test"),
        other => panic!("expected DefaultNotInstalled, got {:?}", other),
    }
}

#[test]
fn get_default_backend_not_in_config() {
    let mut config = Config::defaults("linux");
    config.default_backend = Some("totally-bogus".to_string());
    let result = config.get_default_backend(true);
    assert!(result.is_err());
    match result.unwrap_err() {
        UmanError::DefaultNotFoundInConfig(name) => assert_eq!(name, "totally-bogus"),
        other => panic!("expected DefaultNotFoundInConfig, got {:?}", other),
    }
}

#[test]
fn get_default_backend_alias_not_in_config() {
    let mut config = Config::defaults("linux");
    config.default_backend = Some("nonexistent-alias".to_string());
    let result = config.get_default_backend(false);
    assert!(result.is_err());
    match result.unwrap_err() {
        UmanError::DefaultNotFoundInConfig(name) => assert_eq!(name, "nonexistent-alias"),
        other => panic!("expected DefaultNotFoundInConfig, got {:?}", other),
    }
}

#[test]
fn get_default_backend_with_alias() {
    let mut config = Config::defaults("linux");
    config.default_backend = Some("linux".to_string());
    let def = config.resolve("linux").unwrap();
    assert_eq!(def.name, "linux-upstream");
    assert_eq!(config.get_default_backend(true).unwrap().name, "linux-upstream");
}

#[test]
fn backends_are_sorted_in_btreemap() {
    let config = Config::defaults("linux");
    let keys: Vec<String> = config.backends.keys();
    assert_eq!(keys, &["apple", "freebsd", "linux-upstream", "netbsd", "openbsd"]);
}

#[test]
fn insert_keeps_keys_sorted_and_replaces() {
    let mut m = BackendMap::new();
    assert!(m.is_empty());
    let mk = |n: &str| BackendDef {
        name: n.to_string(),
        source: String::new(),
        format: ManFormat::Roff,
        fetching: FetchMethod::Git,
        aliases: vec![],
    };
    assert!(m.insert("m".to_string(), mk("m")).is_none());
    assert!(m.insert("b".to_string(), mk("b")).is_none());
    assert!(m.insert("x".to_string(), mk("x")).is_none());
    let old = m.insert("b".to_string(), mk("b2")).unwrap();
    assert_eq!(old.name, "b");
    assert_eq!(m.keys(), vec!["b", "m", "x"]);
    assert_eq!(m.get("b").unwrap().name, "b2");
    assert_eq!(m.first_key().map(|k| k.as_str()), Some("b"));
    assert_eq!(m.len(), 3);
}

#[test]
fn fetch_method_from_str() {
    assert_eq!(FetchMethod::from_str("git").unwrap(), FetchMethod::Git);
    assert_eq!(FetchMethod::from_str("curl").unwrap(), FetchMethod::Curl);
    assert!(FetchMethod::from_str("svn").is_err());
    assert!(FetchMethod::from_str("http").is_err());
}

#[test]
fn fetch_method_rejection_message() {
    assert_eq!(
        FetchMethod::from_str("ftp").unwrap_err(),
        "unknown fetching method 'ftp': must be 'git' or 'curl'"
    );
    assert_eq!(
        ManFormat::from_str("html").unwrap_err(),
        "unknown format 'html': currently only 'roff' is supported"
    );
}

#[test]
fn fetch_method_display() {
    assert_eq!(FetchMethod::Git.to_string(), "git");
    assert_eq!(FetchMethod::Curl.to_string(), "curl");
}

#[test]
fn man_format_from_str() {
    assert_eq!(ManFormat::from_str("roff").unwrap(), ManFormat::Roff);
    assert!(ManFormat::from_str("html").is_err());
}

#[test]
fn man_format_display() {
    assert_eq!(ManFormat::Roff.to_string(), "roff");
}

#[test]
fn defaults_for_missing_description_fields() {
    assert_eq!(uniman::config::default_format(), ManFormat::Roff);
    assert_eq!(uniman::config::default_fetching(), FetchMethod::Git);
}

#[test]
fn config_get_backend_returns_correct_definition() {
    let config = Config::defaults("linux");
    let be = config.get_backend("linux-upstream").unwrap();
    assert_eq!(be.name, "linux-upstream");
    assert_eq!(be.format, ManFormat::Roff);
    assert_eq!(be.fetching, FetchMethod::Git);
}

#[test]
fn config_get_backend_errors_on_unknown() {
    let config = Config::defaults("linux");
    let result = config.get_backend("does-not-exist");
    assert!(result.is_err());
    match result.unwrap_err() {
        UmanError::BackendNotFound(name) => assert_eq!(name, "does-not-exist"),
        other => panic!("expected BackendNotFound, got {:?}", other),
    }
}

#[test]
fn config_resolve_finds_canonical_name() {
    let config = Config::defaults("linux");
    let def = config.resolve("linux-upstream").unwrap();
    assert_eq!(def.name, "linux-upstream");
}

#[test]
fn config_resolve_finds_alias() {
    let config = Config::defaults("linux");
    let def = config.resolve("linux").unwrap();
    assert_eq!(def.name, "linux-upstream");
}

#[test]
fn config_resolve_finds_bsd_alias() {
    let config = Config::defaults("linux");
    let def = config.resolve("bsd").unwrap();
    assert_eq!(def.name, "freebsd");
}

#[test]
fn config_resolve_errors_on_unknown() {
    let config = Config::defaults("linux");
    let result = config.resolve("nope");
    assert!(result.is_err());
    match result.unwrap_err() {
        UmanError::BackendNotFound(name) => assert_eq!(name, "nope"),
        other => panic!("expected BackendNotFound, got {:?}", other),
    }
}

#[test]
fn config_default_backend_not_installed_errors() {
    let mut config = Config::defaults("linux");
    let test_name = "freebsd";
    config.default_backend = Some(test_name.to_string());
    let result = config.get_default_backend(false);
    assert!(result.is_err());
    match result.unwrap_err() {
        UmanError::DefaultNotInstalled(name) => assert_eq!(name, test_name),
        UmanError::BackendNotFound(name) => assert_eq!(name, test_name),
        other => panic!("expected DefaultNotInstalled or BackendNotFound, got {:?}", other),
    }
}

#[test]
fn config_default_backend_via_alias_not_installed_errors() {
    let mut config = Config::defaults("linux");
    config.default_backend = Some("bsd".to_string());
    let result = config.get_default_backend(false);
    match result {
        Err(UmanError::DefaultNotInstalled(_)) => {}
        Err(UmanError::BackendNotFound(_)) => {}
        Ok(_) => {}
        other => panic!("unexpected result: {:?}", other),
    }
    match config.get_default_backend(false) {
        Err(UmanError::DefaultNotInstalled(n)) => assert_eq!(n, "freebsd"),
        other => panic!("unexpected result: {:?}", other),
    }
}

#[test]
fn every_builtin_alias_resolves_to_its_backend() {
    let config = Config::defaults("linux");
    for key in config.backends.keys() {
        let def = config.backends.get(&key).unwrap();
        assert_eq!(def.name, key);
        for alias in &def.aliases {
            assert_eq!(config.resolve(alias).unwrap().name, def.name);
        }
    }
}

#[test]
fn user_map_uses_builtin_aliases_only_for_configured_keys() {
    let mut config = Config::defaults("linux");
    config.default_backend = None;
    config.backends = BackendMap::new();
    config.backends.insert(
        "linux-upstream".to_string(),
        BackendDef {
            name: "linux-upstream".into(),
            source: "s".into(),
            format: ManFormat::Roff,
            fetching: FetchMethod::Git,
            aliases: vec![],
        },
    );
    assert_eq!(config.resolve("linux").unwrap().name, "linux-upstream");
    match config.resolve("bsd") {
        Err(UmanError::BackendNotFound(n)) => assert_eq!(n, "bsd"),
        other => panic!("unexpected {:?}", other),
    }
}
