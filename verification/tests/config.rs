//! Configuration layers, their merge, paths and the session cache.

use std::collections::HashMap;

use syno_clean::cli::Cli;
use syno_clean::config::{
    env_vars, merge, missing_required, otp_from_env, parse_config, prompt_failed,
    resolve_password, session_key, Config, FileRead, MissingRequired, PasswordSource, Paths,
    SessionCache, CONFIG_TEMPLATE, DEFAULT_DELETE_FILES, DEFAULT_HTTPS, DEFAULT_HTTPS_PORT,
    DEFAULT_HTTP_PORT, DEFAULT_INSECURE, DEFAULT_REFRESH_SECS, KNOWN_KEYS, MISSING_HOST_HELP,
};
use syno_clean::error::Error;

/// An environment built from a literal list of pairs.
fn env_of(pairs: &[(&str, &str)]) -> impl Fn(&str) -> Option<String> {
    let map: HashMap<String, String> = pairs
        .iter()
        .map(|(k, v)| ((*k).to_string(), (*v).to_string()))
        .collect();
    move |key: &str| map.get(key).cloned()
}

fn empty_env() -> impl Fn(&str) -> Option<String> {
    |_: &str| None
}

fn cli() -> Cli {
    Cli::default()
}

#[test]
fn full_config_file_parses() {
    let text = r#"
host         = "nas.local"
port         = 5001
https        = true
insecure     = false
username     = "eduard"
refresh_secs = 3
delete_files = true
"#;
    let (config, unknown) = parse_config(text).expect("valid TOML");
    assert!(unknown.is_empty(), "{unknown:?}");
    assert_eq!(config.host.as_deref(), Some("nas.local"));
    assert_eq!(config.port, Some(5001));
    assert_eq!(config.https, Some(true));
    assert_eq!(config.insecure, Some(false));
    assert_eq!(config.username.as_deref(), Some("eduard"));
    assert_eq!(config.refresh_secs, Some(3));
    assert_eq!(config.delete_files, Some(true));
}

#[test]
fn minimal_config_file_leaves_everything_else_unset() {
    let (config, unknown) = parse_config("host = \"nas\"\n").expect("valid TOML");
    assert!(unknown.is_empty());
    assert_eq!(config.host.as_deref(), Some("nas"));
    assert_eq!(
        config,
        Config {
            host: Some("nas".into()),
            ..Config::default()
        }
    );
}

#[test]
fn empty_config_file_is_an_empty_layer() {
    let (config, unknown) = parse_config("").expect("valid TOML");
    assert!(unknown.is_empty());
    assert_eq!(config, Config::default());
}

#[test]
fn unknown_keys_are_reported_and_ignored_not_rejected() {
    // An older binary must tolerate a config written by a newer one.
    let text = "host = \"nas\"\nfuture_feature = 42\ncolour_scheme = \"dark\"\n";
    let (config, mut unknown) = parse_config(text).expect("unknown keys must not be an error");
    unknown.sort();
    assert_eq!(unknown, vec!["colour_scheme", "future_feature"]);
    assert_eq!(config.host.as_deref(), Some("nas"));
}

#[test]
fn malformed_toml_is_an_error() {
    assert!(parse_config("host = ").is_err());
    // Right key, wrong type.
    assert!(parse_config("port = \"not a number\"").is_err());
}

#[test]
fn numbers_out_of_range_are_refused_rather_than_wrapped() {
    assert!(parse_config("port = 65536").is_err());
    assert!(parse_config("port = -1").is_err());
    assert!(parse_config("refresh_secs = -1").is_err());
    assert_eq!(parse_config("port = 65535").expect("in range").0.port, Some(65535));
}

#[test]
fn missing_config_file_is_not_an_error() {
    let paths = Paths::with_base("/tmp/xyz");
    let (config, unknown) = Config::load(&paths.config_file(), FileRead::Missing)
        .expect("absent file is fine");
    assert_eq!(config, Config::default());
    assert!(unknown.is_empty());
}

#[test]
fn config_file_round_trips_through_load() {
    let paths = Paths::with_base("/tmp/xyz");
    let text = "host = \"nas.local\"\nusername = \"eduard\"\nport = 5011\n";
    let (config, _) = Config::load(&paths.config_file(), FileRead::Text(text.to_string()))
        .expect("valid file");
    assert_eq!(config.host.as_deref(), Some("nas.local"));
    assert_eq!(config.username.as_deref(), Some("eduard"));
    assert_eq!(config.port, Some(5011));
}

#[test]
fn an_unreadable_or_malformed_config_file_names_its_path() {
    let err = Config::load("/etc/c.toml", FileRead::Failed("denied".to_string()))
        .expect_err("unreadable");
    assert!(err.message().contains("/etc/c.toml"), "{}", err.message());
    assert!(err.message().contains("denied"), "{}", err.message());
    let err = Config::load("/etc/c.toml", FileRead::Text("host = ".to_string()))
        .expect_err("malformed");
    assert!(err.message().contains("/etc/c.toml"), "{}", err.message());
}

#[test]
fn env_layer_reads_every_supported_variable() {
    let env = env_of(&[
        (env_vars::HOST, "envhost"),
        (env_vars::PORT, "5555"),
        (env_vars::HTTPS, "false"),
        (env_vars::INSECURE, "yes"),
        (env_vars::USERNAME, "envuser"),
        (env_vars::REFRESH_SECS, "9"),
    ]);
    let config = Config::from_env(&env).expect("valid env");
    assert_eq!(config.host.as_deref(), Some("envhost"));
    assert_eq!(config.port, Some(5555));
    assert_eq!(config.https, Some(false));
    assert_eq!(config.insecure, Some(true));
    assert_eq!(config.username.as_deref(), Some("envuser"));
    assert_eq!(config.refresh_secs, Some(9));
}

#[test]
fn empty_env_produces_an_empty_layer() {
    let config = Config::from_env(&empty_env()).expect("empty env");
    assert_eq!(config, Config::default());
}

#[test]
fn blank_env_values_are_treated_as_unset() {
    let env = env_of(&[
        (env_vars::HOST, ""),
        (env_vars::PORT, "  "),
        (env_vars::USERNAME, ""),
    ]);
    let config = Config::from_env(&env).expect("blank values are not errors");
    assert_eq!(config, Config::default());
}

#[test]
fn unparseable_env_value_is_an_error_not_a_silent_default() {
    let env = env_of(&[(env_vars::PORT, "not-a-port")]);
    let err = Config::from_env(&env).expect_err("bad port must fail");
    assert!(err.message().contains(env_vars::PORT), "{}", err.message());

    let env = env_of(&[(env_vars::HTTPS, "maybe")]);
    assert!(Config::from_env(&env).is_err());
}

#[test]
fn bool_env_values_accept_common_spellings() {
    for truthy in ["1", "true", "TRUE", "yes", "On"] {
        let env = env_of(&[(env_vars::INSECURE, truthy)]);
        assert_eq!(
            Config::from_env(&env).expect(truthy).insecure,
            Some(true),
            "{truthy}"
        );
    }
    for falsy in ["0", "false", "No", "OFF"] {
        let env = env_of(&[(env_vars::INSECURE, falsy)]);
        assert_eq!(
            Config::from_env(&env).expect(falsy).insecure,
            Some(false),
            "{falsy}"
        );
    }
}

fn file_layer() -> Config {
    Config {
        host: Some("filehost".into()),
        port: Some(5001),
        https: Some(true),
        insecure: Some(false),
        username: Some("fileuser".into()),
        refresh_secs: Some(3),
        delete_files: Some(true),
    }
}

#[test]
fn cli_beats_env_beats_file() {
    let env = Config::from_env(&env_of(&[
        (env_vars::HOST, "envhost"),
        (env_vars::PORT, "5002"),
        (env_vars::USERNAME, "envuser"),
        (env_vars::REFRESH_SECS, "5"),
    ]))
    .expect("valid env");

    let cli = Cli {
        host: Some("clihost".into()),
        port: Some(5003),
        ..cli()
    };

    let resolved = merge(file_layer(), env, &cli).expect("host and user present");
    assert_eq!(resolved.host, "clihost", "CLI beats env");
    assert_eq!(resolved.port, 5003, "CLI beats env");
    assert_eq!(resolved.username, "envuser", "env beats file");
    assert_eq!(resolved.refresh_secs, 5, "env beats file");
}

#[test]
fn env_beats_file_when_the_cli_is_silent() {
    let env = Config::from_env(&env_of(&[
        (env_vars::HOST, "envhost"),
        (env_vars::HTTPS, "false"),
        (env_vars::INSECURE, "true"),
    ]))
    .expect("valid env");
    let resolved = merge(file_layer(), env, &cli()).expect("valid");
    assert_eq!(resolved.host, "envhost");
    assert!(!resolved.https);
    assert!(resolved.insecure);
    assert_eq!(resolved.username, "fileuser");
}

#[test]
fn file_beats_defaults() {
    let file = Config {
        port: Some(9999),
        https: Some(false),
        insecure: Some(true),
        refresh_secs: Some(30),
        delete_files: Some(false),
        ..file_layer()
    };
    let resolved = merge(file, Config::default(), &cli()).expect("valid");
    assert_eq!(resolved.port, 9999);
    assert!(!resolved.https);
    assert!(resolved.insecure);
    assert_eq!(resolved.refresh_secs, 30);
    assert!(!resolved.delete_files);
}

#[test]
fn defaults_apply_when_nothing_else_says_otherwise() {
    let cli = Cli {
        host: Some("nas".into()),
        username: Some("me".into()),
        ..cli()
    };
    let resolved = merge(Config::default(), Config::default(), &cli).expect("valid");
    assert_eq!(resolved.port, DEFAULT_HTTPS_PORT);
    assert_eq!(resolved.https, DEFAULT_HTTPS);
    assert_eq!(resolved.insecure, DEFAULT_INSECURE);
    assert_eq!(resolved.refresh_secs, DEFAULT_REFRESH_SECS);
    assert_eq!(resolved.delete_files, DEFAULT_DELETE_FILES);
    assert!(!resolved.dry_run);
    assert!(!resolved.logout);
}

#[test]
fn default_port_follows_the_scheme() {
    let cli = Cli {
        host: Some("nas".into()),
        username: Some("me".into()),
        ..cli()
    };
    let env = Config::from_env(&env_of(&[(env_vars::HTTPS, "false")])).expect("valid env");
    let resolved = merge(Config::default(), env, &cli).expect("valid");
    assert!(!resolved.https);
    assert_eq!(resolved.port, DEFAULT_HTTP_PORT);
}

#[test]
fn boolean_flags_are_one_way_switches() {
    // `--insecure` turns it on...
    let flags = Cli {
        insecure: true,
        no_delete_files: true,
        dry_run: true,
        ..cli()
    };
    let resolved = merge(file_layer(), Config::default(), &flags).expect("valid");
    assert!(resolved.insecure);
    assert!(!resolved.delete_files);
    assert!(resolved.dry_run);

    // ...and its absence does not turn a config-file `true` back off.
    let file = Config {
        insecure: Some(true),
        ..file_layer()
    };
    let resolved = merge(file, Config::default(), &cli()).expect("valid");
    assert!(resolved.insecure);
    assert!(resolved.delete_files);
}

#[test]
fn missing_host_is_an_actionable_error() {
    let file = Config {
        username: Some("me".into()),
        ..Config::default()
    };
    let err = merge(file, Config::default(), &cli()).expect_err("host is required");
    let msg = err.message();
    assert!(msg.contains("--host"), "{msg}");
    assert!(msg.contains(env_vars::HOST), "{msg}");
}

#[test]
fn missing_username_is_an_actionable_error() {
    let file = Config {
        host: Some("nas".into()),
        ..Config::default()
    };
    let err = merge(file, Config::default(), &cli()).expect_err("username is required");
    let msg = err.message();
    assert!(msg.contains("--user"), "{msg}");
    assert!(msg.contains(env_vars::USERNAME), "{msg}");
}

#[test]
fn whitespace_only_values_do_not_satisfy_validation() {
    let cli = Cli {
        host: Some("   ".into()),
        username: Some("me".into()),
        ..cli()
    };
    assert!(merge(Config::default(), Config::default(), &cli).is_err());
}

#[test]
fn host_and_username_are_trimmed() {
    let cli = Cli {
        host: Some("  nas.local ".into()),
        username: Some(" eduard\t".into()),
        ..cli()
    };
    let resolved = merge(Config::default(), Config::default(), &cli).expect("valid");
    assert_eq!(resolved.host, "nas.local");
    assert_eq!(resolved.username, "eduard");
}

#[test]
fn zero_refresh_interval_is_rejected() {
    let cli = Cli {
        host: Some("nas".into()),
        username: Some("me".into()),
        refresh_secs: Some(0),
        ..cli()
    };
    let err = merge(Config::default(), Config::default(), &cli).expect_err("0 is invalid");
    assert!(err.message().contains("refresh_secs"), "{}", err.message());
}

/// Uncomment the example assignments in a template, leaving the prose comments alone:
/// `# host = "nas.local"` becomes `host = "nas.local"`.
fn uncomment(template: &str) -> String {
    template
        .lines()
        .map(|line| match line.strip_prefix("# ") {
            Some(rest) if rest.split_once(" = ").is_some() => rest,
            _ => line,
        })
        .collect::<Vec<_>>()
        .join("\n")
}

#[test]
fn the_template_parses_as_written_and_changes_nothing() {
    // Every key is commented out, so a freshly written template is a valid config file
    // that supplies no values at all.
    let (config, unknown) = parse_config(CONFIG_TEMPLATE).expect("the template must parse");
    assert!(unknown.is_empty(), "{unknown:?}");
    assert_eq!(config, Config::default());
}

#[test]
fn the_template_documents_every_key_and_round_trips_uncommented() {
    for key in KNOWN_KEYS {
        assert!(
            CONFIG_TEMPLATE.contains(&format!("# {key} = ")),
            "the template does not document {key}"
        );
    }

    // Uncommented, the examples must still be a config this binary understands.
    let (config, unknown) = parse_config(&uncomment(CONFIG_TEMPLATE)).expect("valid TOML");
    assert!(unknown.is_empty(), "{unknown:?}");
    assert_eq!(config.host.as_deref(), Some("nas.local"));
    assert_eq!(config.username.as_deref(), Some("admin"));
    assert_eq!(config.port, Some(DEFAULT_HTTPS_PORT));
    assert_eq!(config.https, Some(DEFAULT_HTTPS));
    assert_eq!(config.insecure, Some(DEFAULT_INSECURE));
    assert_eq!(config.refresh_secs, Some(DEFAULT_REFRESH_SECS));
    assert_eq!(config.delete_files, Some(DEFAULT_DELETE_FILES));
}

#[test]
fn nothing_is_missing_once_the_layers_supply_host_and_username() {
    let both_on_the_cli = Cli {
        host: Some("nas".into()),
        username: Some("me".into()),
        ..cli()
    };
    assert!(!missing_required(&Config::default(), &Config::default(), &both_on_the_cli).any());

    // ...from any mix of layers.
    let env = Config::from_env(&env_of(&[(env_vars::USERNAME, "envuser")])).expect("valid");
    let file = Config {
        host: Some("filehost".into()),
        ..Config::default()
    };
    assert!(!missing_required(&file, &env, &cli()).any());
}

#[test]
fn a_missing_config_file_alone_is_not_a_first_run() {
    // `syno-clean --host nas --user me` on a clean machine must run, with no config file
    // anywhere.
    let paths = Paths::with_base("/tmp/xyz");
    let (file, _) = Config::load(&paths.config_file(), FileRead::Missing)
        .expect("absent file is fine");
    let cli = Cli {
        host: Some("nas.local".into()),
        username: Some("eduard".into()),
        ..cli()
    };

    assert!(!missing_required(&file, &Config::default(), &cli).any());
    assert!(merge(file, Config::default(), &cli).is_ok());
}

#[test]
fn missing_required_agrees_with_what_merge_refuses() {
    let cases = [
        (None, None, (true, true)),
        (Some("nas"), None, (false, true)),
        (None, Some("me"), (true, false)),
        (Some("  "), Some("me"), (true, false)),
    ];
    for (host, username, (host_missing, user_missing)) in cases {
        let cli = Cli {
            host: host.map(str::to_string),
            username: username.map(str::to_string),
            ..cli()
        };
        let missing = missing_required(&Config::default(), &Config::default(), &cli);
        assert_eq!(missing.host, host_missing, "{host:?}/{username:?}");
        assert_eq!(missing.username, user_missing, "{host:?}/{username:?}");
        assert_eq!(
            missing.any(),
            merge(Config::default(), Config::default(), &cli).is_err(),
            "{host:?}/{username:?}: the two must never disagree"
        );
    }
}

#[test]
fn the_first_run_message_names_the_values_that_are_missing() {
    let both = MissingRequired {
        host: true,
        username: true,
    };
    assert_eq!(both.help_lines().len(), 2);
    assert!(both.help_lines()[0].contains("--host"));
    assert!(both.help_lines()[1].contains("--user"));

    let host_only = MissingRequired {
        host: true,
        username: false,
    };
    assert_eq!(host_only.help_lines(), vec![MISSING_HOST_HELP]);
    assert!(MissingRequired::default().help_lines().is_empty());
    assert!(!MissingRequired::default().any());
}

#[test]
fn base_url_and_session_key_are_built_from_the_resolved_values() {
    let cli = Cli {
        host: Some("nas.local".into()),
        username: Some("eduard".into()),
        ..cli()
    };
    let resolved = merge(Config::default(), Config::default(), &cli).expect("valid");
    assert_eq!(resolved.base_url(), "https://nas.local:5001");
    assert_eq!(resolved.session_key(), "nas.local:5001/eduard");

    let cli = Cli {
        port: Some(5000),
        ..cli
    };
    let env = Config::from_env(&env_of(&[(env_vars::HTTPS, "off")])).expect("valid env");
    let resolved = merge(Config::default(), env, &cli).expect("valid");
    assert_eq!(resolved.base_url(), "http://nas.local:5000");
}

#[test]
fn password_comes_from_the_environment_when_set() {
    let env = env_of(&[(env_vars::PASSWORD, "hunter2")]);
    assert!(matches!(
        resolve_password(&env, "eduard", "nas.local"),
        PasswordSource::Known(ref password) if password == "hunter2"
    ));
}

#[test]
fn a_password_that_is_not_in_the_environment_is_asked_for() {
    let source = resolve_password(&empty_env(), "eduard", "nas.local");
    let PasswordSource::Prompt(prompt) = source else {
        panic!("expected a prompt");
    };
    assert!(prompt.contains("eduard"), "{prompt}");
    assert!(prompt.contains("nas.local"), "{prompt}");
    let err = prompt_failed("no tty");
    assert!(matches!(err, Error::Config(_)), "{err:?}");
    assert!(err.message().contains("no tty"), "{}", err.message());
    assert!(err.message().contains(env_vars::PASSWORD), "{}", err.message());
}

#[test]
fn otp_is_optional() {
    assert_eq!(otp_from_env(&empty_env()), None);
    assert_eq!(otp_from_env(&env_of(&[(env_vars::OTP, "")])), None);
    assert_eq!(
        otp_from_env(&env_of(&[(env_vars::OTP, "123456")])),
        Some("123456".to_string())
    );
}

#[test]
fn with_base_keeps_everything_under_the_given_root() {
    let paths = Paths::with_base("/tmp/xyz");
    assert!(paths.config_file().starts_with("/tmp/xyz"));
    assert!(paths.session_file().starts_with("/tmp/xyz"));
    assert!(paths.log_file().starts_with("/tmp/xyz"));
    assert!(paths.config_file().ends_with("syno-clean/config.toml"));
    assert!(paths.session_file().ends_with("syno-clean/session.json"));
}

#[test]
fn absent_session_cache_loads_as_empty() {
    assert!(SessionCache::load(FileRead::Missing).is_empty());
}

#[test]
fn session_cache_round_trips_and_keys_do_not_evict_each_other() {
    let mut cache = SessionCache::default();
    cache.set_sid(&session_key("nas-a", 5001, "eduard"), "sid-a");
    cache.set_sid(&session_key("nas-b", 5001, "eduard"), "sid-b");
    cache.set_sid(&session_key("nas-a", 5001, "admin"), "sid-c");

    let loaded = SessionCache::load(FileRead::Text(cache.to_text()));
    assert_eq!(loaded.len(), 3);
    assert_eq!(loaded.sid("nas-a:5001/eduard"), Some("sid-a"));
    assert_eq!(loaded.sid("nas-b:5001/eduard"), Some("sid-b"));
    assert_eq!(loaded.sid("nas-a:5001/admin"), Some("sid-c"));
    assert_eq!(loaded.sid("nas-c:5001/eduard"), None);
}

#[test]
fn storing_a_sid_replaces_only_its_own_key() {
    let mut cache = SessionCache::default();
    cache.set_sid("a", "1");
    cache.set_sid("b", "2");
    cache.set_sid("a", "3");
    assert_eq!(cache.sid("a"), Some("3"));
    assert_eq!(cache.sid("b"), Some("2"));
    assert_eq!(cache.remove("a").as_deref(), Some("3"));
    assert_eq!(cache.sid("a"), None);
    assert_eq!(cache.len(), 1);
}

#[test]
fn corrupt_session_cache_is_discarded_not_fatal() {
    assert!(SessionCache::load(FileRead::Text("{ this is not json".to_string())).is_empty());
}

#[test]
fn the_session_file_is_laid_out_over_lines_and_escaped() {
    let mut cache = SessionCache::default();
    cache.set_sid("nas:5001/o\"hara", "sid\n1");
    assert_eq!(
        cache.to_text(),
        "{\n  \"sessions\": {\n    \"nas:5001/o\\\"hara\": \"sid\\n1\"\n  }\n}"
    );
    let loaded = SessionCache::load(FileRead::Text(cache.to_text()));
    assert_eq!(loaded.sid("nas:5001/o\"hara"), Some("sid\n1"));
}

#[test]
fn a_value_of_the_wrong_type_is_pointed_at() {
    assert_eq!(
        parse_config("host = \"nas\"\nport = \"x\"\n").expect_err("not a port"),
        "TOML parse error at line 2, column 8\n  |\n2 | port = \"x\"\n  |        ^^^\n\
         invalid type: string \"x\", expected u16\n"
    );
    assert_eq!(
        parse_config("refresh_secs = -1\n").expect_err("negative"),
        "TOML parse error at line 1, column 16\n  |\n1 | refresh_secs = -1\n  |                ^^\n\
         invalid value: integer `-1`, expected u64\n"
    );
    assert_eq!(
        parse_config("https = 1\n").expect_err("not a flag"),
        "TOML parse error at line 1, column 9\n  |\n1 | https = 1\n  |         ^\n\
         invalid type: integer `1`, expected a boolean\n"
    );
    assert_eq!(
        parse_config("host = 1\n").expect_err("not a text"),
        "TOML parse error at line 1, column 8\n  |\n1 | host = 1\n  |        ^\n\
         invalid type: integer `1`, expected a string\n"
    );
    // Of two, the first in the order of the table's keys.
    let why = parse_config("port = \"x\"\nhost = 1\n").expect_err("two wrong values");
    assert!(why.contains("line 2, column 8"), "{why}");
}

#[test]
fn a_copied_cache_holds_the_same_sessions_in_whatever_order_they_came() {
    let mut cache = SessionCache::default();
    cache.set_sid("b", "2");
    cache.set_sid("a", "1");
    let mut other = SessionCache::default();
    other.set_sid("a", "1");
    assert_ne!(cache, other);
    other.set_sid("b", "2");
    assert_eq!(cache, other);
    assert_eq!(cache.clone(), cache);
}

#[test]
fn a_cache_without_names_is_read_and_one_named_twice_is_damaged() {
    let load = |text: &str| SessionCache::load(FileRead::Text(text.to_string()));
    assert_eq!(load(r#"[{"a": "1"}]"#).sid("a"), Some("1"));
    assert!(load(r#"{"sessions": {"a": "1"}, "sessions": {"a": "1"}}"#).is_empty());
    assert_eq!(load(r#"{"sessions": {"a": "1", "a": "2"}}"#).sid("a"), Some("2"));
    assert_eq!(load(r#"{"sessions": {"a": "1"}, "odd": 1e999}"#).sid("a"), Some("1"));
}

#[test]
fn the_environment_is_asked_for_six_variables_and_no_other() {
    let asked = std::cell::RefCell::new(Vec::new());
    let get = |key: &str| -> Option<String> {
        asked.borrow_mut().push(key.to_string());
        None
    };
    Config::from_env(&get).expect("empty env");
    assert_eq!(
        asked.borrow().as_slice(),
        [
            "SYNO_CLEAN_HOST",
            "SYNO_CLEAN_PORT",
            "SYNO_CLEAN_HTTPS",
            "SYNO_CLEAN_INSECURE",
            "SYNO_CLEAN_USERNAME",
            "SYNO_CLEAN_REFRESH_SECS",
        ]
    );
    asked.borrow_mut().clear();
    assert!(otp_from_env(&get).is_none());
    assert_eq!(asked.borrow().as_slice(), ["SYNO_CLEAN_OTP"]);
}
