//! Configuration: the file, environment and command-line layers, their merge and
//! its validation, the file locations, and the session-id cache.
//!
//! **Precedence is CLI flags > `SYNO_CLEAN_*` environment variables > config file >
//! defaults**, resolved once in [`merge`], which also enforces that `host` and
//! `username` are present.

use serde_json::Value;
use vstd::prelude::*;
use vstd::string::StringExecFns;
use crate::cli::Cli;
use crate::error::Error;
use crate::json::{json_parsed, member, parse_json, repeats, seen, text_pairs, Doc, Json};
use crate::table::{entries_map, keys_ordered, Table};
use crate::text::{
    all_spaces, ascii_lowercase, ascii_lowered, chars_of, debug_form, decimal, decimal_of, is_digit,
    law_trimming_cuts_the_spaces, lemma_decimal_digits, lemma_spaces_cut_once, natural, opt_view,
    parse_natural, quoted, same_text, spaces_cut, trim, trimmed, views,
};

pub mod env_vars;

verus! {

/// Directory name used under both the config and the cache root.
pub const APP_DIR: &'static str = "syno-clean";

/// Config file name inside the config directory.
pub const CONFIG_FILE: &'static str = "config.toml";

/// Session cache file name inside the cache directory.
pub const SESSION_FILE: &'static str = "session.json";

/// Log file name inside the cache directory.
pub const LOG_FILE: &'static str = "syno-clean.log";

/// Default to HTTPS: DSM's HTTP port usually redirects anyway.
pub const DEFAULT_HTTPS: bool = true;

/// DSM's default HTTPS management port.
pub const DEFAULT_HTTPS_PORT: u16 = 5001;

/// DSM's default HTTP management port.
pub const DEFAULT_HTTP_PORT: u16 = 5000;

/// Default seconds between automatic refreshes.
pub const DEFAULT_REFRESH_SECS: u64 = 3;

/// Deleting the files as well as the task is the entire point of the tool.
pub const DEFAULT_DELETE_FILES: bool = true;

/// Certificate validation is on unless explicitly disabled.
pub const DEFAULT_INSECURE: bool = false;

/// Keys this version understands; anything else in the file is ignored.
pub const KNOWN_KEYS: [&'static str; 7] = [
    "host",
    "port",
    "https",
    "insecure",
    "username",
    "refresh_secs",
    "delete_files",
];

/// What to say when `host` could not be resolved from any layer.
pub const MISSING_HOST_HELP: &'static str =
    "no NAS host configured — pass --host <HOST>, set SYNO_CLEAN_HOST, or add `host = \"nas.local\"` to the config file";

/// What to say when `username` could not be resolved from any layer.
pub const MISSING_USERNAME_HELP: &'static str =
    "no DSM username configured — pass --user <NAME>, set SYNO_CLEAN_USERNAME, or add `username = \"admin\"` to the config file";

/// What to say of a refresh interval of zero.
pub const ZERO_REFRESH_HELP: &'static str =
    "refresh_secs must be at least 1 — a zero-second refresh would hammer the NAS";

/// A commented starter config, written on a first run that has nothing to connect
/// to. **Every key is commented out**, so the file documents the format and changes
/// nothing until it is edited.
pub const CONFIG_TEMPLATE: &'static str = r#"# syno-clean configuration
#
# Precedence: command-line flags beat SYNO_CLEAN_* environment variables,
# which beat this file, which beats the built-in defaults.
#
# `host` and `username` are required. Uncomment and fill them in below, or
# pass --host and --user on the command line.
#
# The password is never stored here: set SYNO_CLEAN_PASSWORD or type it at
# the prompt. A 2-step verification code comes from SYNO_CLEAN_OTP or the
# prompt DSM asks for.

# DSM hostname or IP address (required).
# host = "nas.local"

# DSM account name (required).
# username = "admin"

# DSM management port. Defaults to 5001 with https, 5000 without.
# port = 5001

# Talk to DSM over HTTPS.
# https = true

# Accept a self-signed or otherwise invalid TLS certificate.
# insecure = false

# Seconds between automatic task-list refreshes.
# refresh_secs = 3

# Delete the downloaded files as well as the Download Station task.
# Set to false to remove the task only and leave the files on the volume.
# delete_files = true
"#;

/// One configuration layer: every field optional, because "absent" and "explicitly
/// set to the default value" have to stay distinguishable.
#[derive(Debug, Clone, Default, PartialEq, Eq)]
pub struct Config {
    pub host: Option<String>,
    pub port: Option<u16>,
    pub https: Option<bool>,
    pub insecure: Option<bool>,
    pub username: Option<String>,
    pub refresh_secs: Option<u64>,
    pub delete_files: Option<bool>,
}

// ---------------------------------------------------------------------------
// The merge
// ---------------------------------------------------------------------------

/// The first of three that is there.
pub open spec fn first_of<T>(a: Option<T>, b: Option<T>, c: Option<T>) -> Option<T> {
    if a is Some {
        a
    } else if b is Some {
        b
    } else {
        c
    }
}

/// The value three layers resolve to, trimmed; one that is only white space is no
/// value, and does not fall through to a lower layer.
pub open spec fn text_resolved(
    cli: Option<String>,
    env: Option<String>,
    file: Option<String>,
) -> Option<Seq<char>> {
    match first_of(cli, env, file) {
        Some(value) => if trimmed(value@).len() == 0 {
            None
        } else {
            Some(trimmed(value@))
        },
        None => None,
    }
}

/// CLI beats env beats file, and a value that is only white space counts as **unset
/// at the layer that supplied it**.
fn first_set(cli: &Option<String>, env: &Option<String>, file: &Option<String>) -> (value: Option<
    String,
>)
    ensures
        opt_view(value) == text_resolved(*cli, *env, *file),
{
    let chosen: &Option<String> = match cli {
        Some(_) => cli,
        None => match env {
            Some(_) => env,
            None => file,
        },
    };
    match chosen {
        Some(text) => {
            let value = trim(text.as_str());
            if value.as_str().is_empty() {
                None
            } else {
                Some(value)
            }
        },
        None => None,
    }
}

/// Which required values are still unresolved after the CLI/env/file merge.
#[derive(Debug, Clone, Copy, Default, PartialEq, Eq)]
pub struct MissingRequired {
    pub host: bool,
    pub username: bool,
}

impl MissingRequired {
    /// Whether anything required is missing.
    pub fn any(self) -> (yes: bool)
        ensures
            yes == (self.host || self.username),
    {
        self.host || self.username
    }

    /// The sentences for what is missing, in flag order.
    pub open spec fn help(self) -> Seq<&'static str> {
        let host: Seq<&'static str> = if self.host {
            seq![MISSING_HOST_HELP]
        } else {
            Seq::empty()
        };
        if self.username {
            host.push(MISSING_USERNAME_HELP)
        } else {
            host
        }
    }

    /// The actionable sentence for each missing value, in flag order.
    pub fn help_lines(self) -> (lines: Vec<&'static str>)
        ensures
            lines@ == self.help(),
    {
        let mut lines: Vec<&'static str> = Vec::new();
        if self.host {
            lines.push(MISSING_HOST_HELP);
        }
        if self.username {
            lines.push(MISSING_USERNAME_HELP);
        }
        lines
    }
}

/// Ask whether the three layers resolve the required values, without merging.
pub fn missing_required(file: &Config, env: &Config, cli: &Cli) -> (missing: MissingRequired)
    ensures
        missing.host == (text_resolved(cli.host, env.host, file.host) is None),
        missing.username == (text_resolved(cli.username, env.username, file.username) is None),
{
    MissingRequired {
        host: first_set(&cli.host, &env.host, &file.host).is_none(),
        username: first_set(&cli.username, &env.username, &file.username).is_none(),
    }
}

/// Everything the rest of the program needs, with every value resolved and
/// validated. `host` and `username` are not empty, once [`merge`] made it.
#[derive(Debug, Clone, PartialEq, Eq)]
pub struct ResolvedConfig {
    pub host: String,
    pub port: u16,
    pub https: bool,
    pub insecure: bool,
    pub username: String,
    pub refresh_secs: u64,
    pub delete_files: bool,
    pub dry_run: bool,
    pub logout: bool,
}

/// An optional value, or a default where it is not there.
pub open spec fn or_default<T>(value: Option<T>, default: T) -> T {
    match value {
        Some(v) => v,
        None => default,
    }
}

/// Whether HTTPS is used: no flag speaks of it.
pub open spec fn https_resolved(file: Config, env: Config) -> bool {
    or_default(first_of(None, env.https, file.https), DEFAULT_HTTPS)
}

/// The refresh interval the three layers resolve to.
pub open spec fn refresh_resolved(file: Config, env: Config, cli: Cli) -> u64 {
    or_default(first_of(cli.refresh_secs, env.refresh_secs, file.refresh_secs), DEFAULT_REFRESH_SECS)
}

/// Whether `config` is what the three layers merge to.
pub open spec fn merged(file: Config, env: Config, cli: Cli, config: ResolvedConfig) -> bool {
    &&& text_resolved(cli.host, env.host, file.host) == Some(config.host@)
    &&& text_resolved(cli.username, env.username, file.username) == Some(config.username@)
    &&& config.https == https_resolved(file, env)
    &&& config.port == or_default(
        first_of(cli.port, env.port, file.port),
        if config.https {
            DEFAULT_HTTPS_PORT
        } else {
            DEFAULT_HTTP_PORT
        },
    )
    &&& config.insecure == (cli.insecure || or_default(
        first_of(None, env.insecure, file.insecure),
        DEFAULT_INSECURE,
    ))
    &&& config.refresh_secs == refresh_resolved(file, env, cli)
    &&& config.delete_files == (!cli.no_delete_files && or_default(
        first_of(None, env.delete_files, file.delete_files),
        DEFAULT_DELETE_FILES,
    ))
    &&& config.dry_run == cli.dry_run
    &&& config.logout == cli.logout
}

/// Why three layers do not merge, if they do not.
pub open spec fn merge_refusal(file: Config, env: Config, cli: Cli) -> Option<Seq<char>> {
    if text_resolved(cli.host, env.host, file.host) is None {
        Some(MISSING_HOST_HELP@)
    } else if text_resolved(cli.username, env.username, file.username) is None {
        Some(MISSING_USERNAME_HELP@)
    } else if refresh_resolved(file, env, cli) == 0 {
        Some(ZERO_REFRESH_HELP@)
    } else {
        None
    }
}

/// Collapse the three layers into a validated [`ResolvedConfig`].
///
/// Precedence is CLI > env > file > default. Boolean CLI flags are one-way, so an
/// unset flag falls through to the lower layers.
pub fn merge(file: Config, env: Config, cli: &Cli) -> (result: Result<ResolvedConfig, Error>)
    ensures
        match result {
            Ok(config) => merge_refusal(file, env, *cli) is None && merged(file, env, *cli, config),
            Err(err) => err matches Error::Config(m) && merge_refusal(file, env, *cli) == Some(m@),
        },
{
    let host = match first_set(&cli.host, &env.host, &file.host) {
        Some(host) => host,
        None => {
            return Err(Error::config(MISSING_HOST_HELP));
        },
    };
    let username = match first_set(&cli.username, &env.username, &file.username) {
        Some(username) => username,
        None => {
            return Err(Error::config(MISSING_USERNAME_HELP));
        },
    };
    let https = match env.https {
        Some(https) => https,
        None => match file.https {
            Some(https) => https,
            None => DEFAULT_HTTPS,
        },
    };
    let port: u16 = match cli.port {
        Some(port) => port,
        None => match env.port {
            Some(port) => port,
            None => match file.port {
                Some(port) => port,
                None => if https {
                    DEFAULT_HTTPS_PORT
                } else {
                    DEFAULT_HTTP_PORT
                },
            },
        },
    };
    let insecure = if cli.insecure {
        true
    } else {
        match env.insecure {
            Some(insecure) => insecure,
            None => match file.insecure {
                Some(insecure) => insecure,
                None => DEFAULT_INSECURE,
            },
        }
    };
    let refresh_secs: u64 = match cli.refresh_secs {
        Some(secs) => secs,
        None => match env.refresh_secs {
            Some(secs) => secs,
            None => match file.refresh_secs {
                Some(secs) => secs,
                None => DEFAULT_REFRESH_SECS,
            },
        },
    };
    if refresh_secs == 0 {
        return Err(Error::config(ZERO_REFRESH_HELP));
    }
    let delete_files = if cli.no_delete_files {
        false
    } else {
        match env.delete_files {
            Some(delete_files) => delete_files,
            None => match file.delete_files {
                Some(delete_files) => delete_files,
                None => DEFAULT_DELETE_FILES,
            },
        }
    };
    Ok(
        ResolvedConfig {
            host,
            port,
            https,
            insecure,
            username,
            refresh_secs,
            delete_files,
            dry_run: cli.dry_run,
            logout: cli.logout,
        },
    )
}

/// The session-cache key of a host, a port and a user.
pub open spec fn session_key_text(host: Seq<char>, port: u16, username: Seq<char>) -> Seq<char> {
    host + ":"@ + decimal(port as nat) + "/"@ + username
}

/// Session-cache key for a host/port/user triple.
pub fn session_key(host: &str, port: u16, username: &str) -> (key: String)
    ensures
        key@ == session_key_text(host@, port, username@),
{
    let mut key = host.to_owned();
    let number = decimal_of(port as u64);
    key.append(":");
    key.append(number.as_str());
    key.append("/");
    key.append(username);
    key
}

impl ResolvedConfig {
    /// The root every API URL is built from.
    pub open spec fn url(self) -> Seq<char> {
        (if self.https {
            "https"@
        } else {
            "http"@
        }) + "://"@ + self.host@ + ":"@ + decimal(self.port as nat)
    }

    /// `https://host:port`, the root every API URL is built from.
    pub fn base_url(&self) -> (url: String)
        ensures
            url@ == self.url(),
    {
        let mut url = if self.https {
            "https".to_owned()
        } else {
            "http".to_owned()
        };
        let number = decimal_of(self.port as u64);
        url.append("://");
        url.append(self.host.as_str());
        url.append(":");
        url.append(number.as_str());
        url
    }

    /// Session-cache key: `{host}:{port}/{username}`.
    pub fn session_key(&self) -> (key: String)
        ensures
            key@ == session_key_text(self.host@, self.port, self.username@),
    {
        session_key(self.host.as_str(), self.port, self.username.as_str())
    }
}

// ---------------------------------------------------------------------------
// The environment layer
// ---------------------------------------------------------------------------

/// A text that is not empty.
pub open spec fn filled(value: Option<String>) -> Option<Seq<char>> {
    match value {
        Some(text) => if text@.len() > 0 {
            Some(text@)
        } else {
            None
        },
        None => None,
    }
}

/// A text that is not empty.
fn keep_filled(value: Option<String>) -> (text: Option<String>)
    ensures
        opt_view(text) == filled(value),
{
    match value {
        Some(text) => if text.as_str().is_empty() {
            None
        } else {
            Some(text)
        },
        None => None,
    }
}

/// What a bad value of a variable is answered with.
pub open spec fn bad_value_text(key: Seq<char>, raw: Seq<char>) -> Seq<char> {
    key + ": cannot parse "@ + debug_form(raw)
}

/// What a bad value of a variable is answered with.
fn bad_value(key: &str, raw: &str) -> (err: Error)
    ensures
        err matches Error::Config(m) && m@ == bad_value_text(key@, raw@),
{
    let mut text = key.to_owned();
    let shown = quoted(raw);
    text.append(": cannot parse ");
    text.append(shown.as_str());
    Error::Config(text)
}

/// A number no larger than `most`, in a variable that may be blank. The inner `None`
/// is a variable that is not set or blank, the outer one a bad value.
pub open spec fn env_number(value: Option<String>, most: nat) -> Option<Option<nat>> {
    match value {
        None => Some(None),
        Some(raw) => if trimmed(raw@).len() == 0 {
            Some(None)
        } else {
            match natural(trimmed(raw@)) {
                Some(n) => if n <= most {
                    Some(Some(n))
                } else {
                    None
                },
                None => None,
            }
        },
    }
}

/// See [`env_number`].
fn read_env_number(value: &Option<String>, key: &str, most: u64) -> (number: Result<
    Option<u64>,
    Error,
>)
    ensures
        match number {
            Ok(None) => env_number(*value, most as nat) == Some(None::<nat>),
            Ok(Some(n)) => env_number(*value, most as nat) == Some(Some(n as nat)),
            Err(err) => (err matches Error::Config(m) && m@ == bad_value_text(key@, value->0@))
                && env_number(*value, most as nat) is None,
        },
{
    match value {
        None => Ok(None),
        Some(raw) => {
            let text = trim(raw.as_str());
            if text.as_str().is_empty() {
                return Ok(None);
            }
            match parse_natural(text.as_str()) {
                Some(n) => if n <= most {
                    Ok(Some(n))
                } else {
                    Err(bad_value(key, raw.as_str()))
                },
                None => Err(bad_value(key, raw.as_str())),
            }
        },
    }
}

/// The spellings of a flag that people type in a shell.
pub open spec fn flag_word(text: Seq<char>) -> Option<bool> {
    let word = ascii_lowered(text);
    if word == "1"@ || word == "true"@ || word == "yes"@ || word == "on"@ {
        Some(true)
    } else if word == "0"@ || word == "false"@ || word == "no"@ || word == "off"@ {
        Some(false)
    } else {
        None
    }
}

/// Accept the spellings people actually type in a shell.
pub fn parse_bool(value: &str) -> (flag: Option<bool>)
    ensures
        flag == flag_word(value@),
{
    let lowered = ascii_lowercase(value);
    let word: &str = lowered.as_str();
    if same_text(word, "1") || same_text(word, "true") || same_text(word, "yes") || same_text(
        word,
        "on",
    ) {
        Some(true)
    } else if same_text(word, "0") || same_text(word, "false") || same_text(word, "no")
        || same_text(word, "off") {
        Some(false)
    } else {
        None
    }
}

/// A flag in a variable that may be blank, as [`env_number`].
pub open spec fn env_flag(value: Option<String>) -> Option<Option<bool>> {
    match value {
        None => Some(None),
        Some(raw) => if trimmed(raw@).len() == 0 {
            Some(None)
        } else {
            match flag_word(trimmed(raw@)) {
                Some(flag) => Some(Some(flag)),
                None => None,
            }
        },
    }
}

/// See [`env_flag`].
fn read_env_flag(value: &Option<String>, key: &str) -> (flag: Result<Option<bool>, Error>)
    ensures
        match flag {
            Ok(f) => env_flag(*value) == Some(f),
            Err(err) => (err matches Error::Config(m) && m@ == bad_value_text(key@, value->0@))
                && env_flag(*value) is None,
        },
{
    match value {
        None => Ok(None),
        Some(raw) => {
            let text = trim(raw.as_str());
            if text.as_str().is_empty() {
                return Ok(None);
            }
            match parse_bool(text.as_str()) {
                Some(flag) => Ok(Some(flag)),
                None => Err(bad_value(key, raw.as_str())),
            }
        },
    }
}

/// What the environment says: the value of each variable a layer is built from.
#[derive(Debug, Clone, Default, PartialEq, Eq)]
pub struct EnvValues {
    pub host: Option<String>,
    pub port: Option<String>,
    pub https: Option<String>,
    pub insecure: Option<String>,
    pub username: Option<String>,
    pub refresh_secs: Option<String>,
}

/// The first variable, in reading order, with a value that cannot be parsed.
pub open spec fn env_refusal(values: EnvValues) -> Option<Seq<char>> {
    if env_number(values.port, u16::MAX as nat) is None {
        Some(bad_value_text(env_vars::PORT@, values.port->0@))
    } else if env_flag(values.https) is None {
        Some(bad_value_text(env_vars::HTTPS@, values.https->0@))
    } else if env_flag(values.insecure) is None {
        Some(bad_value_text(env_vars::INSECURE@, values.insecure->0@))
    } else if env_number(values.refresh_secs, u64::MAX as nat) is None {
        Some(bad_value_text(env_vars::REFRESH_SECS@, values.refresh_secs->0@))
    } else {
        None
    }
}

/// Whether `config` is the layer the environment makes.
pub open spec fn env_reads(values: EnvValues, config: Config) -> bool {
    &&& opt_view(config.host) == filled(values.host)
    &&& opt_view(config.username) == filled(values.username)
    &&& env_number(values.port, u16::MAX as nat) == Some(
        match config.port {
            Some(n) => Some(n as nat),
            None => None,
        },
    )
    &&& env_flag(values.https) == Some(config.https)
    &&& env_flag(values.insecure) == Some(config.insecure)
    &&& env_number(values.refresh_secs, u64::MAX as nat) == Some(
        match config.refresh_secs {
            Some(n) => Some(n as nat),
            None => None,
        },
    )
    &&& config.delete_files is None
}

impl Config {
    /// Build a configuration layer from the values of the environment.
    ///
    /// No variable turns `delete_files` off: one that silently disables the tool's
    /// main function is a footgun.
    pub fn from_values(values: EnvValues) -> (result: Result<Config, Error>)
        ensures
            match result {
                Ok(config) => env_refusal(values) is None && env_reads(values, config),
                Err(err) => err matches Error::Config(m) && env_refusal(values) == Some(m@),
            },
    {
        let port: Option<u16> = match read_env_number(&values.port, env_vars::PORT, u16::MAX as u64) {
            Ok(Some(n)) => Some(n as u16),
            Ok(None) => None,
            Err(err) => {
                return Err(err);
            },
        };
        let https = match read_env_flag(&values.https, env_vars::HTTPS) {
            Ok(flag) => flag,
            Err(err) => {
                return Err(err);
            },
        };
        let insecure = match read_env_flag(&values.insecure, env_vars::INSECURE) {
            Ok(flag) => flag,
            Err(err) => {
                return Err(err);
            },
        };
        let refresh_secs: Option<u64> = match read_env_number(
            &values.refresh_secs,
            env_vars::REFRESH_SECS,
            u64::MAX,
        ) {
            Ok(number) => number,
            Err(err) => {
                return Err(err);
            },
        };
        Ok(
            Config {
                host: keep_filled(values.host),
                port,
                https,
                insecure,
                username: keep_filled(values.username),
                refresh_secs,
                delete_files: None,
            },
        )
    }

    /// Build a configuration layer from the environment, read through a lookup. It is
    /// asked for these six variables and no other.
    pub fn from_env<F: Fn(&str) -> Option<String>>(get: F) -> (result: Result<Config, Error>)
        requires
            call_requires(get, (env_vars::HOST,)),
            call_requires(get, (env_vars::PORT,)),
            call_requires(get, (env_vars::HTTPS,)),
            call_requires(get, (env_vars::INSECURE,)),
            call_requires(get, (env_vars::USERNAME,)),
            call_requires(get, (env_vars::REFRESH_SECS,)),
        ensures
            exists|values: EnvValues|
                {
                    &&& #[trigger] env_says(get, values)
                    &&& match result {
                        Ok(config) => env_refusal(values) is None && env_reads(values, config),
                        Err(err) => err matches Error::Config(m) && env_refusal(values) == Some(m@),
                    }
                },
    {
        let values = EnvValues {
            host: get(env_vars::HOST),
            port: get(env_vars::PORT),
            https: get(env_vars::HTTPS),
            insecure: get(env_vars::INSECURE),
            username: get(env_vars::USERNAME),
            refresh_secs: get(env_vars::REFRESH_SECS),
        };
        let ghost said = values;
        proof {
            assert(env_says(get, said));
        }
        Config::from_values(values)
    }
}

/// Whether a lookup answers with these values.
pub open spec fn env_says<F: Fn(&str) -> Option<String>>(get: F, values: EnvValues) -> bool {
    &&& call_ensures(get, (env_vars::HOST,), values.host)
    &&& call_ensures(get, (env_vars::PORT,), values.port)
    &&& call_ensures(get, (env_vars::HTTPS,), values.https)
    &&& call_ensures(get, (env_vars::INSECURE,), values.insecure)
    &&& call_ensures(get, (env_vars::USERNAME,), values.username)
    &&& call_ensures(get, (env_vars::REFRESH_SECS,), values.refresh_secs)
}

// ---------------------------------------------------------------------------
// Secrets
// ---------------------------------------------------------------------------

/// Where the DSM password comes from.
#[derive(Clone, PartialEq, Eq)]
pub enum PasswordSource {
    /// It was in the environment.
    Known(String),
    /// It has to be asked for, with this prompt.
    Prompt(String),
}

/// The DSM password, from the environment or an interactive prompt. It is never read
/// from, or written to, the config file.
pub fn resolve_password<F: Fn(&str) -> Option<String>>(get: F, username: &str, host: &str) -> (source:
    PasswordSource)
    requires
        call_requires(get, (env_vars::PASSWORD,)),
    ensures
        exists|value: Option<String>|
            {
                &&& #[trigger] call_ensures(get, (env_vars::PASSWORD,), value)
                &&& match source {
                    PasswordSource::Known(password) => filled(value) == Some(password@),
                    PasswordSource::Prompt(prompt) => filled(value) is None && prompt@
                        == "DSM password for "@ + username@ + "@"@ + host@ + ": "@,
                }
            },
{
    let value = get(env_vars::PASSWORD);
    let ghost said = value;
    proof {
        assert(call_ensures(get, (env_vars::PASSWORD,), said));
    }
    match keep_filled(value) {
        Some(password) => PasswordSource::Known(password),
        None => {
            let mut prompt = "DSM password for ".to_owned();
            prompt.append(username);
            prompt.append("@");
            prompt.append(host);
            prompt.append(": ");
            PasswordSource::Prompt(prompt)
        },
    }
}

/// What a failed password prompt is answered with.
pub fn prompt_failed(reason: &str) -> (err: Error)
    ensures
        err matches Error::Config(m) && m@ == "no password available: "@ + env_vars::PASSWORD@
            + " is unset and the prompt failed: "@ + reason@,
{
    let mut text = "no password available: ".to_owned();
    text.append(env_vars::PASSWORD);
    text.append(" is unset and the prompt failed: ");
    text.append(reason);
    Error::Config(text)
}

/// A 2FA code, if one was supplied up front.
pub fn otp_from_env<F: Fn(&str) -> Option<String>>(get: F) -> (otp: Option<String>)
    requires
        call_requires(get, (env_vars::OTP,)),
    ensures
        exists|value: Option<String>|
            #[trigger] call_ensures(get, (env_vars::OTP,), value) && opt_view(otp) == filled(value),
{
    let value = get(env_vars::OTP);
    let ghost said = value;
    proof {
        assert(call_ensures(get, (env_vars::OTP,), said));
    }
    keep_filled(value)
}

// ---------------------------------------------------------------------------
// The file layer
// ---------------------------------------------------------------------------

/// A TOML value, as far as a config file is read.
#[derive(Debug, Clone, PartialEq, Eq)]
pub enum TomlValue {
    Text(String),
    Whole(i64),
    Flag(bool),
    /// A float, a date, an array or a table: no key this program knows takes one.
    Other,
}

/// What parsing a text as a TOML document gives: the entries of its top table, or
/// the text of the error.
pub uninterp spec fn toml_parsed(text: Seq<char>) -> Result<Seq<(String, TomlValue)>, Seq<char>>;

/// `toml::from_str` into a `toml::Table`: the entries of the top table in the table's
/// order, or the text of the error. The grammar is not stated.
#[verifier::external_body]
fn toml_entries(text: &str) -> (entries: Result<Vec<(String, TomlValue)>, String>)
    ensures
        match entries {
            Ok(list) => toml_parsed(text@) == Ok::<Seq<(String, TomlValue)>, Seq<char>>(list@),
            Err(m) => toml_parsed(text@) == Err::<Seq<(String, TomlValue)>, Seq<char>>(m@),
        },
{
    let table: toml::Table = toml::from_str(text).map_err(|err| err.to_string())?;
    let held = |value: toml::Value| match value {
        toml::Value::String(s) => TomlValue::Text(s),
        toml::Value::Integer(n) => TomlValue::Whole(n),
        toml::Value::Boolean(b) => TomlValue::Flag(b),
        toml::Value::Float(_) => TomlValue::Other,
        toml::Value::Datetime(_) => TomlValue::Other,
        toml::Value::Array(_) => TomlValue::Other,
        toml::Value::Table(_) => TomlValue::Other,
    };
    Ok(table.into_iter().map(|(key, value)| (key, held(value))).collect())
}

/// The first entry of this key.
pub open spec fn entry(list: Seq<(String, TomlValue)>, key: Seq<char>) -> Option<TomlValue>
    decreases list.len(),
{
    if list.len() == 0 {
        None
    } else if list[0].0@ == key {
        Some(list[0].1)
    } else {
        entry(list.skip(1), key)
    }
}

/// The first entry of this key.
fn find_entry<'a>(list: &'a Vec<(String, TomlValue)>, key: &str) -> (found: Option<&'a TomlValue>)
    ensures
        match found {
            Some(v) => entry(list@, key@) == Some(*v),
            None => entry(list@, key@) is None,
        },
{
    let mut i: usize = 0;
    proof {
        assert(list@.skip(0) =~= list@);
    }
    while i < list.len()
        invariant
            i <= list@.len(),
            entry(list@, key@) == entry(list@.skip(i as int), key@),
        decreases list@.len() - i,
    {
        proof {
            assert(list@.skip(i as int)[0] == list@[i as int]);
            assert(list@.skip(i as int).skip(1) =~= list@.skip(i + 1));
        }
        if same_text(list[i].0.as_str(), key) {
            return Some(&list[i].1);
        }
        i += 1;
    }
    None
}

/// A text that may be left out. The outer `None` is a value of another type.
pub open spec fn toml_text(list: Seq<(String, TomlValue)>, key: Seq<char>) -> Option<
    Option<Seq<char>>,
> {
    match entry(list, key) {
        None => Some(None),
        Some(TomlValue::Text(s)) => Some(Some(s@)),
        Some(_) => None,
    }
}

/// A whole number from zero to `most` that may be left out, as [`toml_text`].
pub open spec fn toml_whole(list: Seq<(String, TomlValue)>, key: Seq<char>, most: nat) -> Option<
    Option<nat>,
> {
    match entry(list, key) {
        None => Some(None),
        Some(TomlValue::Whole(n)) => if 0 <= n <= most {
            Some(Some(n as nat))
        } else {
            None
        },
        Some(_) => None,
    }
}

/// A flag that may be left out, as [`toml_text`].
pub open spec fn toml_flag(list: Seq<(String, TomlValue)>, key: Seq<char>) -> Option<Option<bool>> {
    match entry(list, key) {
        None => Some(None),
        Some(TomlValue::Flag(b)) => Some(Some(b)),
        Some(_) => None,
    }
}

/// What the `toml` crate says of the value of a key that is not a text: the text of the
/// error with the place of the value, empty where there is no error.
pub uninterp spec fn text_fault(text: Seq<char>, key: Seq<char>) -> Seq<char>;

/// `toml::de::DeTable::parse`, then `Option<String>`'s `Deserialize` on the value of a key of
/// the top table, by `toml::de::ValueDeserializer`: the text of the error with the line
/// it points at, empty where the value reads or there is none. How it is worded is not
/// stated.
#[verifier::external_body]
fn text_fault_in(text: &str, key: &str) -> (fault: String)
    ensures
        fault@ == text_fault(text@, key@),
{
    let table = toml::de::DeTable::parse(text).ok();
    let value = table.and_then(|t| t.into_inner().remove(key));
    let reader = value.map(toml::de::ValueDeserializer::from);
    let read: Option<Result<Option<String>, _>> = reader.map(serde::Deserialize::deserialize);
    let fault = read.and_then(|r| r.err()).map(|mut err: toml::de::Error| {
        err.set_input(Some(text));
        err.to_string()
    });
    fault.unwrap_or_default()
}

/// What the `toml` crate says of the value of a key that is not a whole number of 16 bits: the text of the
/// error with the place of the value, empty where there is no error.
pub uninterp spec fn small_fault(text: Seq<char>, key: Seq<char>) -> Seq<char>;

/// `toml::de::DeTable::parse`, then `Option<u16>`'s `Deserialize` on the value of a key of
/// the top table, by `toml::de::ValueDeserializer`: the text of the error with the line
/// it points at, empty where the value reads or there is none. How it is worded is not
/// stated.
#[verifier::external_body]
fn small_fault_in(text: &str, key: &str) -> (fault: String)
    ensures
        fault@ == small_fault(text@, key@),
{
    let table = toml::de::DeTable::parse(text).ok();
    let value = table.and_then(|t| t.into_inner().remove(key));
    let reader = value.map(toml::de::ValueDeserializer::from);
    let read: Option<Result<Option<u16>, _>> = reader.map(serde::Deserialize::deserialize);
    let fault = read.and_then(|r| r.err()).map(|mut err: toml::de::Error| {
        err.set_input(Some(text));
        err.to_string()
    });
    fault.unwrap_or_default()
}

/// What the `toml` crate says of the value of a key that is not a whole number of 64 bits: the text of the
/// error with the place of the value, empty where there is no error.
pub uninterp spec fn whole_fault(text: Seq<char>, key: Seq<char>) -> Seq<char>;

/// `toml::de::DeTable::parse`, then `Option<u64>`'s `Deserialize` on the value of a key of
/// the top table, by `toml::de::ValueDeserializer`: the text of the error with the line
/// it points at, empty where the value reads or there is none. How it is worded is not
/// stated.
#[verifier::external_body]
fn whole_fault_in(text: &str, key: &str) -> (fault: String)
    ensures
        fault@ == whole_fault(text@, key@),
{
    let table = toml::de::DeTable::parse(text).ok();
    let value = table.and_then(|t| t.into_inner().remove(key));
    let reader = value.map(toml::de::ValueDeserializer::from);
    let read: Option<Result<Option<u64>, _>> = reader.map(serde::Deserialize::deserialize);
    let fault = read.and_then(|r| r.err()).map(|mut err: toml::de::Error| {
        err.set_input(Some(text));
        err.to_string()
    });
    fault.unwrap_or_default()
}

/// What the `toml` crate says of the value of a key that is not a flag: the text of the
/// error with the place of the value, empty where there is no error.
pub uninterp spec fn flag_fault(text: Seq<char>, key: Seq<char>) -> Seq<char>;

/// `toml::de::DeTable::parse`, then `Option<bool>`'s `Deserialize` on the value of a key of
/// the top table, by `toml::de::ValueDeserializer`: the text of the error with the line
/// it points at, empty where the value reads or there is none. How it is worded is not
/// stated.
#[verifier::external_body]
fn flag_fault_in(text: &str, key: &str) -> (fault: String)
    ensures
        fault@ == flag_fault(text@, key@),
{
    let table = toml::de::DeTable::parse(text).ok();
    let value = table.and_then(|t| t.into_inner().remove(key));
    let reader = value.map(toml::de::ValueDeserializer::from);
    let read: Option<Result<Option<bool>, _>> = reader.map(serde::Deserialize::deserialize);
    let fault = read.and_then(|r| r.err()).map(|mut err: toml::de::Error| {
        err.set_input(Some(text));
        err.to_string()
    });
    fault.unwrap_or_default()
}

/// Whether the value of a key is of the wrong type.
pub open spec fn is_bad(key: Seq<char>, value: TomlValue) -> bool {
    ||| (key == "host"@ || key == "username"@) && !(value is Text)
    ||| key == "port"@ && !(value matches TomlValue::Whole(n) && 0 <= n <= u16::MAX)
    ||| key == "refresh_secs"@ && !(value matches TomlValue::Whole(n) && 0 <= n)
    ||| (key == "https"@ || key == "insecure"@ || key == "delete_files"@) && !(value is Flag)
}

/// The first key of a list with a value of the wrong type.
pub open spec fn bad_key(list: Seq<(String, TomlValue)>) -> Option<Seq<char>>
    decreases list.len(),
{
    if list.len() == 0 {
        None
    } else if is_bad(list[0].0@, list[0].1) {
        Some(list[0].0@)
    } else {
        bad_key(list.skip(1))
    }
}

/// See [`bad_key`].
fn find_bad_key(list: &Vec<(String, TomlValue)>) -> (key: Option<String>)
    ensures
        opt_view(key) == bad_key(list@),
{
    let mut i: usize = 0;
    proof {
        assert(list@.skip(0) =~= list@);
    }
    while i < list.len()
        invariant
            i <= list@.len(),
            bad_key(list@) == bad_key(list@.skip(i as int)),
        decreases list@.len() - i,
    {
        proof {
            assert(list@.skip(i as int)[0] == list@[i as int]);
            assert(list@.skip(i as int).skip(1) =~= list@.skip(i + 1));
        }
        let key = list[i].0.as_str();
        let bad = match &list[i].1 {
            TomlValue::Text(_) => same_text(key, "port") || same_text(key, "refresh_secs")
                || is_flag_key(key),
            TomlValue::Whole(n) => same_text(key, "host") || same_text(key, "username") || (
            same_text(key, "port") && !(0 <= *n && *n <= u16::MAX as i64)) || (same_text(
                key,
                "refresh_secs",
            ) && *n < 0) || is_flag_key(key),
            TomlValue::Flag(_) => same_text(key, "host") || same_text(key, "username")
                || same_text(key, "port") || same_text(key, "refresh_secs"),
            TomlValue::Other => same_text(key, "host") || same_text(key, "username")
                || same_text(key, "port") || same_text(key, "refresh_secs") || is_flag_key(key),
        };
        if bad {
            return Some(list[i].0.clone());
        }
        i += 1;
    }
    None
}

/// Whether a key takes a flag.
fn is_flag_key(key: &str) -> (yes: bool)
    ensures
        yes == (key@ == "https"@ || key@ == "insecure"@ || key@ == "delete_files"@),
{
    same_text(key, "https") || same_text(key, "insecure") || same_text(key, "delete_files")
}

/// Where no key has a value of the wrong type, none has.
proof fn lemma_none_bad(list: Seq<(String, TomlValue)>, key: Seq<char>)
    requires
        bad_key(list) is None,
    ensures
        entry(list, key) matches Some(value) ==> !is_bad(key, value),
    decreases list.len(),
{
    if list.len() > 0 && list[0].0@ != key {
        lemma_none_bad(list.skip(1), key);
    }
}

/// What a file is answered with whose key has a value of the wrong type.
pub open spec fn fault_text(text: Seq<char>, key: Seq<char>) -> Seq<char> {
    if key == "port"@ {
        small_fault(text, key)
    } else if key == "refresh_secs"@ {
        whole_fault(text, key)
    } else if key == "host"@ || key == "username"@ {
        text_fault(text, key)
    } else {
        flag_fault(text, key)
    }
}

/// See [`fault_text`].
fn fault_of(text: &str, key: &str) -> (fault: String)
    ensures
        fault@ == fault_text(text@, key@),
{
    if same_text(key, "port") {
        small_fault_in(text, key)
    } else if same_text(key, "refresh_secs") {
        whole_fault_in(text, key)
    } else if same_text(key, "host") || same_text(key, "username") {
        text_fault_in(text, key)
    } else {
        flag_fault_in(text, key)
    }
}

/// See [`toml_text`].
fn read_toml_text(list: &Vec<(String, TomlValue)>, key: &str) -> (text: Option<String>)
    requires
        toml_text(list@, key@) is Some,
    ensures
        toml_text(list@, key@) == Some(opt_view(text)),
{
    match find_entry(list, key) {
        Some(TomlValue::Text(s)) => Some(s.clone()),
        _ => None,
    }
}

/// See [`toml_whole`].
fn read_toml_whole(list: &Vec<(String, TomlValue)>, key: &str, most: u64) -> (number: Option<u64>)
    requires
        toml_whole(list@, key@, most as nat) is Some,
    ensures
        toml_whole(list@, key@, most as nat) == Some(
            match number {
                Some(n) => Some(n as nat),
                None => None,
            },
        ),
{
    match find_entry(list, key) {
        Some(TomlValue::Whole(n)) => Some(*n as u64),
        _ => None,
    }
}

/// See [`toml_flag`].
fn read_toml_flag(list: &Vec<(String, TomlValue)>, key: &str) -> (flag: Option<bool>)
    requires
        toml_flag(list@, key@) is Some,
    ensures
        toml_flag(list@, key@) == Some(flag),
{
    match find_entry(list, key) {
        Some(TomlValue::Flag(b)) => Some(*b),
        _ => None,
    }
}

/// Whether this version understands a key.
pub open spec fn is_known_key(key: Seq<char>) -> bool {
    exists|i: int| 0 <= i < KNOWN_KEYS@.len() && #[trigger] KNOWN_KEYS@[i]@ == key
}

/// Whether this version understands a key.
fn known_key(key: &str) -> (yes: bool)
    ensures
        yes == is_known_key(key@),
{
    let mut i: usize = 0;
    while i < KNOWN_KEYS.len()
        invariant
            i <= KNOWN_KEYS@.len(),
            forall|k: int| 0 <= k < i ==> #[trigger] KNOWN_KEYS@[k]@ != key@,
        decreases KNOWN_KEYS@.len() - i,
    {
        if same_text(KNOWN_KEYS[i], key) {
            proof {
                assert(KNOWN_KEYS@[i as int]@ == key@);
            }
            return true;
        }
        i += 1;
    }
    false
}

/// The keys of a list that this version does not understand, in order.
pub open spec fn unknown_keys(list: Seq<(String, TomlValue)>) -> Seq<Seq<char>>
    decreases list.len(),
{
    if list.len() == 0 {
        Seq::empty()
    } else {
        let before = unknown_keys(list.drop_last());
        if is_known_key(list.last().0@) {
            before
        } else {
            before.push(list.last().0@)
        }
    }
}

/// The keys of a list that this version does not understand, in order.
fn unknown_in(list: &Vec<(String, TomlValue)>) -> (keys: Vec<String>)
    ensures
        views(keys@) == unknown_keys(list@),
{
    let mut keys: Vec<String> = Vec::new();
    let mut i: usize = 0;
    proof {
        assert(list@.take(0) =~= Seq::<(String, TomlValue)>::empty());
        assert(views(keys@) =~= Seq::<Seq<char>>::empty());
    }
    while i < list.len()
        invariant
            i <= list@.len(),
            views(keys@) == unknown_keys(list@.take(i as int)),
        decreases list@.len() - i,
    {
        proof {
            assert(list@.take(i + 1).drop_last() =~= list@.take(i as int));
            assert(list@.take(i + 1).last() == list@[i as int]);
        }
        if !known_key(list[i].0.as_str()) {
            let ghost before = views(keys@);
            keys.push(list[i].0.clone());
            proof {
                assert(views(keys@) =~= before.push(list@[i as int].0@));
            }
        }
        i += 1;
    }
    proof {
        assert(list@.take(i as int) =~= list@);
    }
    keys
}

/// Whether `config` is the layer that the entries of a config file make.
pub open spec fn file_reads(list: Seq<(String, TomlValue)>, config: Config) -> bool {
    &&& toml_text(list, "host"@) == Some(opt_view(config.host))
    &&& toml_whole(list, "port"@, u16::MAX as nat) == Some(
        match config.port {
            Some(n) => Some(n as nat),
            None => None,
        },
    )
    &&& toml_flag(list, "https"@) == Some(config.https)
    &&& toml_flag(list, "insecure"@) == Some(config.insecure)
    &&& toml_text(list, "username"@) == Some(opt_view(config.username))
    &&& toml_whole(list, "refresh_secs"@, u64::MAX as nat) == Some(
        match config.refresh_secs {
            Some(n) => Some(n as nat),
            None => None,
        },
    )
    &&& toml_flag(list, "delete_files"@) == Some(config.delete_files)
}

/// The config that the entries of a config file make, and any unrecognized keys, or the
/// first key with a value of the wrong type.
pub fn config_from_entries(list: &Vec<(String, TomlValue)>) -> (result: Result<
    (Config, Vec<String>),
    String,
>)
    ensures
        match result {
            Ok((config, unknown)) => bad_key(list@) is None && file_reads(list@, config) && views(
                unknown@,
            ) == unknown_keys(list@),
            Err(key) => bad_key(list@) == Some(key@),
        },
{
    match find_bad_key(list) {
        Some(key) => {
            return Err(key);
        },
        None => {},
    }
    proof {
        lemma_none_bad(list@, "host"@);
        lemma_none_bad(list@, "port"@);
        lemma_none_bad(list@, "https"@);
        lemma_none_bad(list@, "insecure"@);
        lemma_none_bad(list@, "username"@);
        lemma_none_bad(list@, "refresh_secs"@);
        lemma_none_bad(list@, "delete_files"@);
    }
    let host = read_toml_text(list, "host");
    let port: Option<u16> = match read_toml_whole(list, "port", u16::MAX as u64) {
        Some(n) => Some(n as u16),
        None => None,
    };
    let https = read_toml_flag(list, "https");
    let insecure = read_toml_flag(list, "insecure");
    let username = read_toml_text(list, "username");
    let refresh_secs: Option<u64> = read_toml_whole(list, "refresh_secs", u64::MAX);
    let delete_files = read_toml_flag(list, "delete_files");
    let config = Config { host, port, https, insecure, username, refresh_secs, delete_files };
    Ok((config, unknown_in(list)))
}

/// What a config file is refused with: that it is no TOML document, or that a key has a
/// value of the wrong type.
pub open spec fn file_refusal(text: Seq<char>) -> Option<Seq<char>> {
    match toml_parsed(text) {
        Err(why) => Some(why),
        Ok(list) => match bad_key(list) {
            Some(key) => Some(fault_text(text, key)),
            None => None,
        },
    }
}

/// Parse a config file body, returning the config and any unrecognized keys, or the
/// text of the error. An unknown key is no error: an older binary must tolerate a
/// newer config file.
pub fn parse_config(text: &str) -> (result: Result<(Config, Vec<String>), String>)
    ensures
        match result {
            Ok((config, unknown)) => file_refusal(text@) is None && file_reads(
                toml_parsed(text@)->Ok_0,
                config,
            ) && views(unknown@) == unknown_keys(toml_parsed(text@)->Ok_0),
            Err(why) => file_refusal(text@) == Some(why@),
        },
{
    match toml_entries(text) {
        Ok(list) => match config_from_entries(&list) {
            Ok(found) => Ok(found),
            Err(key) => Err(fault_of(text, key.as_str())),
        },
        Err(why) => Err(why),
    }
}

/// What came of reading a file.
#[derive(Debug, Clone, PartialEq, Eq)]
pub enum FileRead {
    /// It was read, and holds this text.
    Text(String),
    /// There is no such file.
    Missing,
    /// It could not be read, for this reason.
    Failed(String),
}

/// The layer without any value.
pub open spec fn is_empty_layer(config: Config) -> bool {
    &&& config.host is None
    &&& config.port is None
    &&& config.https is None
    &&& config.insecure is None
    &&& config.username is None
    &&& config.refresh_secs is None
    &&& config.delete_files is None
}

impl Config {
    /// The config that reading `path` gave, and any unrecognized keys in it.
    ///
    /// A missing file is **not** an error: it yields an empty layer.
    pub fn load(path: &str, read: FileRead) -> (result: Result<(Config, Vec<String>), Error>)
        ensures
            match read {
                FileRead::Missing => result matches Ok((config, unknown)) && is_empty_layer(config)
                    && unknown@.len() == 0,
                FileRead::Failed(why) => result matches Err(Error::Config(m)) && m@
                    == "cannot read config file "@ + path@ + ": "@ + why@,
                FileRead::Text(text) => match result {
                    Ok((config, unknown)) => file_refusal(text@) is None && file_reads(
                        toml_parsed(text@)->Ok_0,
                        config,
                    ) && views(unknown@) == unknown_keys(toml_parsed(text@)->Ok_0),
                    Err(err) => err matches Error::Config(m) && file_refusal(text@) is Some && m@
                        == path@ + ": "@ + file_refusal(text@)->0,
                },
            },
    {
        match read {
            FileRead::Missing => {
                let config = Config {
                    host: None,
                    port: None,
                    https: None,
                    insecure: None,
                    username: None,
                    refresh_secs: None,
                    delete_files: None,
                };
                Ok((config, Vec::new()))
            },
            FileRead::Failed(why) => {
                let mut text = "cannot read config file ".to_owned();
                text.append(path);
                text.append(": ");
                text.append(why.as_str());
                Err(Error::Config(text))
            },
            FileRead::Text(text) => match parse_config(text.as_str()) {
                Ok(found) => Ok(found),
                Err(why) => {
                    let mut text = path.to_owned();
                    text.append(": ");
                    text.append(why.as_str());
                    Err(Error::Config(text))
                },
            },
        }
    }
}

// ---------------------------------------------------------------------------
// Locations
// ---------------------------------------------------------------------------

/// A directory and a relative name below it, with one slash between.
pub open spec fn below(dir: Seq<char>, name: Seq<char>) -> Seq<char> {
    if dir.len() == 0 {
        name
    } else if dir.last() == '/' {
        dir + name
    } else {
        dir + "/"@ + name
    }
}

/// A directory and a relative name below it.
fn path_below(dir: &str, name: &str) -> (path: String)
    ensures
        path@ == below(dir@, name@),
{
    let chars = chars_of(dir);
    if chars.len() == 0 {
        return name.to_owned();
    }
    let mut path = dir.to_owned();
    if chars[chars.len() - 1] != '/' {
        path.append("/");
    }
    path.append(name);
    path
}

/// Where syno-clean keeps its files.
#[derive(Debug, Clone, PartialEq, Eq)]
pub struct Paths {
    config_dir: String,
    cache_dir: String,
}

impl Paths {
    /// The directory of the config file.
    pub closed spec fn config_at(self) -> Seq<char> {
        self.config_dir@
    }

    /// The directory of the session cache and the log.
    pub closed spec fn cache_at(self) -> Seq<char> {
        self.cache_dir@
    }

    /// Keep everything in a directory of its own below the two roots given.
    pub fn in_roots(config_root: &str, cache_root: &str) -> (paths: Self)
        ensures
            paths.config_at() == below(config_root@, APP_DIR@),
            paths.cache_at() == below(cache_root@, APP_DIR@),
    {
        Paths {
            config_dir: path_below(config_root, APP_DIR),
            cache_dir: path_below(cache_root, APP_DIR),
        }
    }

    /// Root everything at `base`.
    pub fn with_base(base: &str) -> (paths: Self)
        ensures
            paths.config_at() == below(below(base@, "config"@), APP_DIR@),
            paths.cache_at() == below(below(base@, "cache"@), APP_DIR@),
    {
        let config_root = path_below(base, "config");
        let cache_root = path_below(base, "cache");
        Paths::in_roots(config_root.as_str(), cache_root.as_str())
    }

    pub fn config_dir(&self) -> (dir: &str)
        ensures
            dir@ == self.config_at(),
    {
        self.config_dir.as_str()
    }

    pub fn cache_dir(&self) -> (dir: &str)
        ensures
            dir@ == self.cache_at(),
    {
        self.cache_dir.as_str()
    }

    pub fn config_file(&self) -> (path: String)
        ensures
            path@ == below(self.config_at(), CONFIG_FILE@),
    {
        path_below(self.config_dir.as_str(), CONFIG_FILE)
    }

    pub fn session_file(&self) -> (path: String)
        ensures
            path@ == below(self.cache_at(), SESSION_FILE@),
    {
        path_below(self.cache_dir.as_str(), SESSION_FILE)
    }

    pub fn log_file(&self) -> (path: String)
        ensures
            path@ == below(self.cache_at(), LOG_FILE@),
    {
        path_below(self.cache_dir.as_str(), LOG_FILE)
    }
}

// ---------------------------------------------------------------------------
// The session cache
// ---------------------------------------------------------------------------

/// Cached DSM session ids, keyed by `{host}:{port}/{username}`.
#[derive(Debug, PartialEq, Eq)]
pub struct SessionCache {
    sessions: Table<String>,
}

impl View for SessionCache {
    type V = Map<Seq<char>, Seq<char>>;

    closed spec fn view(&self) -> Map<Seq<char>, Seq<char>> {
        texts_of(self.sessions@)
    }
}

impl Clone for SessionCache {
    fn clone(&self) -> (cache: Self)
        ensures
            cache@ == self@,
    {
        let entries = self.sessions.entries();
        let mut list: Vec<(String, String)> = Vec::new();
        let mut i: usize = 0;
        while i < entries.len()
            invariant
                i <= entries@.len(),
                list@ == entries@.take(i as int),
            decreases entries@.len() - i,
        {
            list.push((entries[i].0.clone(), entries[i].1.clone()));
            i += 1;
            proof {
                assert(entries@.take(i as int) =~= entries@.take(i - 1).push(entries@[i - 1]));
            }
        }
        proof {
            assert(entries@.take(i as int) =~= entries@);
        }
        SessionCache { sessions: Table::from_list(list) }
    }
}

impl Default for SessionCache {
    /// No session at all.
    fn default() -> (cache: Self)
        ensures
            cache@ == Map::<Seq<char>, Seq<char>>::empty(),
    {
        let cache = SessionCache { sessions: Table::new() };
        proof {
            assert(cache@ =~= Map::<Seq<char>, Seq<char>>::empty());
        }
        cache
    }
}

/// Whether every member of a list is a text.
pub open spec fn all_texts(list: Seq<(Seq<char>, Doc)>) -> bool {
    forall|i: int| 0 <= i < list.len() ==> (#[trigger] list[i]).1 is Str
}

/// The map that the text members of a list make, a later one replacing an earlier one
/// of the same name.
pub open spec fn texts_map(list: Seq<(Seq<char>, Doc)>) -> Map<Seq<char>, Seq<char>>
    decreases list.len(),
{
    if list.len() == 0 {
        Map::empty()
    } else {
        texts_map(list.drop_last()).insert(list.last().0, list.last().1->Str_0)
    }
}

/// The fields of a session cache, in order.
pub const CACHE_FIELDS: [&'static str; 1] = ["sessions"];

/// The sessions a JSON value holds: none where it names none. `None` where it is not
/// a session cache.
pub open spec fn sessions_in(json: Doc) -> Option<Map<Seq<char>, Seq<char>>> {
    if !json.fits(CACHE_FIELDS@, 0) {
        None
    } else {
        match json.field("sessions"@, 0) {
            None => Some(Map::empty()),
            Some(Doc::Object(list)) => if all_texts(list) {
                Some(texts_map(list))
            } else {
                None
            },
            Some(_) => None,
        }
    }
}

/// The sessions that reading a cache file gives: none where it is damaged.
pub open spec fn sessions_read(text: Seq<char>) -> Map<Seq<char>, Seq<char>> {
    match json_parsed(text) {
        Ok(json) => match sessions_in(json) {
            Some(sessions) => sessions,
            None => Map::empty(),
        },
        Err(_) => Map::empty(),
    }
}

/// The characters of the texts of a map.
pub open spec fn texts_of(map: Map<Seq<char>, String>) -> Map<Seq<char>, Seq<char>> {
    map.map_values(|text: String| text@)
}

/// A JSON object with one member of this name, an object of these texts, laid out over
/// several lines.
pub uninterp spec fn pretty_member(name: Seq<char>, list: Seq<(Seq<char>, Seq<char>)>) -> Seq<char>;

/// Whether a JSON value is an object with one member of this name, which is an object of
/// these texts.
pub open spec fn holds_texts(json: Doc, name: Seq<char>, map: Map<Seq<char>, Seq<char>>) -> bool {
    &&& json matches Doc::Object(list)
    &&& list.len() == 1
    &&& list[0].0 == name
    &&& list[0].1 matches Doc::Object(texts)
    &&& all_texts(texts)
    &&& texts_map(texts) == map
}

/// Whether a text parses as such an object.
pub open spec fn parses_to_texts(
    text: Seq<char>,
    name: Seq<char>,
    map: Map<Seq<char>, Seq<char>>,
) -> bool {
    json_parsed(text) matches Ok(json) && holds_texts(json, name, map)
}

/// `serde_json::Value`'s alternate `Display`, which lays a value out over several lines,
/// on an object with one member of this name, an object of these texts. The text parses
/// back to such an object with the same texts, of two entries of one key the later; how
/// it is laid out and escaped is not stated.
#[verifier::external_body]
fn pretty_texts(name: &str, entries: &Vec<(String, String)>) -> (text: String)
    ensures
        text@ == pretty_member(name@, text_pairs(entries@)),
        parses_to_texts(text@, name@, texts_of(entries_map(entries@))),
{
    let texts = entries.iter().map(|(key, text)| (key.clone(), Value::from(text.clone())));
    let member: Value = texts.collect();
    format!("{:#}", Value::from_iter([(name, member)]))
}

impl SessionCache {
    /// The sessions a JSON value holds, `None` where it is not a session cache.
    pub fn from_json(json: &Json) -> (cache: Option<SessionCache>)
        ensures
            match cache {
                Some(c) => sessions_in(json@) == Some(c@),
                None => sessions_in(json@) is None,
            },
    {
        if !json.holds(&CACHE_FIELDS, 0) {
            return None;
        }
        let found = json.slot("sessions", 0);
        let list = match found {
            None => {
                return Some(SessionCache::default());
            },
            Some(Json::Object(list)) => list,
            Some(_) => {
                return None;
            },
        };
        let ghost members = seen(found)->0->Object_0;
        let mut sessions: Table<String> = Table::new();
        let mut i: usize = 0;
        proof {
            assert(members.take(0) =~= Seq::<(Seq<char>, Doc)>::empty());
            assert(texts_of(sessions@) =~= texts_map(members.take(0)));
        }
        while i < list.len()
            invariant
                i <= list@.len(),
                json@.fits(CACHE_FIELDS@, 0),
                json@.field("sessions"@, 0) == Some(Doc::Object(members)),
                members.len() == list@.len(),
                forall|k: int|
                    0 <= k < members.len() ==> #[trigger] members[k] == (
                        list@[k].0@,
                        list@[k].1@,
                    ),
                forall|k: int| 0 <= k < i ==> (#[trigger] members[k]).1 is Str,
                texts_of(sessions@) == texts_map(members.take(i as int)),
            decreases list@.len() - i,
        {
            proof {
                assert(members.take(i + 1).drop_last() =~= members.take(i as int));
                assert(members.take(i + 1).last() == members[i as int]);
            }
            match &list[i].1 {
                Json::Str(sid) => {
                    let ghost before = sessions@;
                    sessions.insert(list[i].0.clone(), sid.clone());
                    proof {
                        assert(texts_of(sessions@) =~= texts_of(before).insert(
                            list@[i as int].0@,
                            sid@,
                        ));
                    }
                },
                _ => {
                    proof {
                        assert(!(members[i as int].1 is Str));
                    }
                    return None;
                },
            }
            i += 1;
        }
        proof {
            assert(members.take(i as int) =~= members);
        }
        Some(SessionCache { sessions })
    }

    /// The cache that reading its file gave, tolerating both absence and corruption:
    /// a damaged one is treated as empty.
    pub fn load(read: FileRead) -> (cache: Self)
        ensures
            cache@ == match read {
                FileRead::Text(text) => sessions_read(text@),
                _ => Map::<Seq<char>, Seq<char>>::empty(),
            },
    {
        match read {
            FileRead::Text(text) => match parse_json(text.as_str()) {
                Ok(json) => match SessionCache::from_json(&json) {
                    Some(cache) => cache,
                    None => SessionCache::default(),
                },
                Err(_) => SessionCache::default(),
            },
            _ => SessionCache::default(),
        }
    }

    /// The text of the cache's file. Reading it gives the same sessions back.
    pub fn to_text(&self) -> (text: String)
        ensures
            exists|entries: Seq<(String, String)>|
                {
                    &&& keys_ordered(entries)
                    &&& texts_of(#[trigger] entries_map(entries)) == self@
                    &&& text@ == pretty_member("sessions"@, text_pairs(entries))
                },
            sessions_read(text@) == self@,
    {
        let entries = self.sessions.entries();
        let text = pretty_texts("sessions", entries);
        proof {
            assert(texts_of(entries_map(entries@)) == self@);
            let json = json_parsed(text@)->Ok_0;
            let list = json->Object_0;
            assert(!repeats(list, CACHE_FIELDS@));
            assert(member(list, "sessions"@) == Some(list[0].1));
        }
        text
    }

    /// The cached sid for a key, if any.
    pub fn sid(&self, key: &str) -> (sid: Option<&str>)
        ensures
            match sid {
                Some(s) => self@.contains_key(key@) && self@[key@] == s@,
                None => !self@.contains_key(key@),
            },
    {
        match self.sessions.get(key) {
            Some(sid) => Some(sid.as_str()),
            None => None,
        }
    }

    /// Store a sid, replacing any previous one for the same key.
    pub fn set_sid(&mut self, key: &str, sid: &str)
        ensures
            final(self)@ == old(self)@.insert(key@, sid@),
    {
        self.sessions.insert(key.to_owned(), sid.to_owned());
        proof {
            assert(self@ =~= old(self)@.insert(key@, sid@));
        }
    }

    /// Forget a sid (after a logout, or when DSM rejects it).
    pub fn remove(&mut self, key: &str) -> (sid: Option<String>)
        ensures
            match sid {
                Some(s) => old(self)@.contains_key(key@) && old(self)@[key@] == s@,
                None => !old(self)@.contains_key(key@),
            },
            final(self)@ == old(self)@.remove(key@),
    {
        let sid = self.sessions.remove(key);
        proof {
            assert(self@ =~= old(self)@.remove(key@));
        }
        sid
    }

    /// Number of cached sessions.
    pub fn len(&self) -> (count: usize)
        ensures
            count == self@.dom().len(),
    {
        proof {
            assert(self@.dom() =~= self.sessions@.dom());
        }
        self.sessions.len()
    }

    pub fn is_empty(&self) -> (yes: bool)
        ensures
            yes == (self@.dom().len() == 0),
    {
        proof {
            assert(self@.dom() =~= self.sessions@.dom());
        }
        self.sessions.len() == 0
    }
}

// ---------------------------------------------------------------------------
// Laws
// ---------------------------------------------------------------------------

proof fn lemma_entry_pushed(
    list: Seq<(String, TomlValue)>,
    extra: (String, TomlValue),
    key: Seq<char>,
)
    requires
        extra.0@ != key,
    ensures
        entry(list.push(extra), key) == entry(list, key),
    decreases list.len(),
{
    let more = list.push(extra);
    if list.len() == 0 {
        assert(more.skip(1) =~= Seq::<(String, TomlValue)>::empty());
        assert(entry(more.skip(1), key) is None);
    } else {
        assert(more.skip(1) =~= list.skip(1).push(extra));
        lemma_entry_pushed(list.skip(1), extra, key);
    }
}

proof fn lemma_bad_key_pushed(list: Seq<(String, TomlValue)>, extra: (String, TomlValue))
    requires
        !is_bad(extra.0@, extra.1),
    ensures
        bad_key(list.push(extra)) == bad_key(list),
    decreases list.len(),
{
    let more = list.push(extra);
    if list.len() == 0 {
        assert(more.skip(1) =~= Seq::<(String, TomlValue)>::empty());
        assert(bad_key(more.skip(1)) is None);
    } else {
        assert(more.skip(1) =~= list.skip(1).push(extra));
        lemma_bad_key_pushed(list.skip(1), extra);
    }
}

/// An older binary tolerates a newer config file: a key that this version does not
/// understand is reported, and neither refused nor read, whatever its value.
pub proof fn law_an_unknown_key_changes_nothing(
    list: Seq<(String, TomlValue)>,
    extra: (String, TomlValue),
    config: Config,
)
    requires
        !is_known_key(extra.0@),
    ensures
        bad_key(list.push(extra)) == bad_key(list),
        file_reads(list.push(extra), config) == file_reads(list, config),
        unknown_keys(list.push(extra)) == unknown_keys(list).push(extra.0@),
{
    assert(KNOWN_KEYS@[0]@ == "host"@);
    assert(KNOWN_KEYS@[1]@ == "port"@);
    assert(KNOWN_KEYS@[2]@ == "https"@);
    assert(KNOWN_KEYS@[3]@ == "insecure"@);
    assert(KNOWN_KEYS@[4]@ == "username"@);
    assert(KNOWN_KEYS@[5]@ == "refresh_secs"@);
    assert(KNOWN_KEYS@[6]@ == "delete_files"@);
    lemma_bad_key_pushed(list, extra);
    lemma_entry_pushed(list, extra, "host"@);
    lemma_entry_pushed(list, extra, "port"@);
    lemma_entry_pushed(list, extra, "https"@);
    lemma_entry_pushed(list, extra, "insecure"@);
    lemma_entry_pushed(list, extra, "username"@);
    lemma_entry_pushed(list, extra, "refresh_secs"@);
    lemma_entry_pushed(list, extra, "delete_files"@);
    assert(list.push(extra).drop_last() =~= list);
}

/// The two questions about required values never disagree: the layers merge only
/// where nothing required is missing, and where something is, the merge says so.
pub proof fn law_missing_agrees_with_merge(file: Config, env: Config, cli: Cli)
    ensures
        (text_resolved(cli.host, env.host, file.host) is None || text_resolved(
            cli.username,
            env.username,
            file.username,
        ) is None) <==> merge_refusal(file, env, cli) == Some(MISSING_HOST_HELP@) || merge_refusal(
            file,
            env,
            cli,
        ) == Some(MISSING_USERNAME_HELP@),
{
    reveal_strlit("no NAS host configured — pass --host <HOST>, set SYNO_CLEAN_HOST, or add `host = \"nas.local\"` to the config file");
    reveal_strlit("no DSM username configured — pass --user <NAME>, set SYNO_CLEAN_USERNAME, or add `username = \"admin\"` to the config file");
    reveal_strlit("refresh_secs must be at least 1 — a zero-second refresh would hammer the NAS");
    assert(MISSING_HOST_HELP@[0] == 'n');
    assert(MISSING_USERNAME_HELP@[0] == 'n');
    assert(ZERO_REFRESH_HELP@[0] == 'r');
}

/// A merged configuration names a host and a user, neither blank nor padded, and
/// refreshes at least once a second or more slowly.
pub proof fn law_merged_is_complete(file: Config, env: Config, cli: Cli, config: ResolvedConfig)
    requires
        merge_refusal(file, env, cli) is None,
        merged(file, env, cli, config),
    ensures
        config.host@.len() > 0,
        config.username@.len() > 0,
        trimmed(config.host@) == config.host@,
        trimmed(config.username@) == config.username@,
        config.refresh_secs > 0,
{
    crate::model::law_trim_is_idempotent(first_of(cli.host, env.host, file.host)->0@);
    crate::model::law_trim_is_idempotent(first_of(cli.username, env.username, file.username)->0@);
}

/// Precedence: a value given on the command line decides whatever the other layers
/// say, one in the environment decides over the file, the file over the defaults, and
/// these are HTTPS, the port that goes with it, no leniency about certificates, three
/// seconds, and deleting the files.
pub proof fn law_precedence(file: Config, env: Config, cli: Cli, config: ResolvedConfig)
    requires
        merged(file, env, cli, config),
    ensures
        cli.port is Some ==> config.port == cli.port->0,
        cli.port is None && env.port is Some ==> config.port == env.port->0,
        cli.port is None && env.port is None && file.port is Some ==> config.port == file.port->0,
        cli.port is None && env.port is None && file.port is None ==> config.port == (
        if config.https {
            5001u16
        } else {
            5000u16
        }),
        env.https is Some ==> config.https == env.https->0,
        env.https is None && file.https is Some ==> config.https == file.https->0,
        env.https is None && file.https is None ==> config.https,
        cli.insecure ==> config.insecure,
        !cli.insecure && env.insecure is Some ==> config.insecure == env.insecure->0,
        !cli.insecure && env.insecure is None && file.insecure is Some ==> config.insecure
            == file.insecure->0,
        !cli.insecure && env.insecure is None && file.insecure is None ==> !config.insecure,
        cli.refresh_secs is Some ==> config.refresh_secs == cli.refresh_secs->0,
        cli.refresh_secs is None && env.refresh_secs is Some ==> config.refresh_secs
            == env.refresh_secs->0,
        cli.refresh_secs is None && env.refresh_secs is None && file.refresh_secs is Some
            ==> config.refresh_secs == file.refresh_secs->0,
        cli.refresh_secs is None && env.refresh_secs is None && file.refresh_secs is None
            ==> config.refresh_secs == 3,
        cli.no_delete_files ==> !config.delete_files,
        !cli.no_delete_files && env.delete_files is Some ==> config.delete_files
            == env.delete_files->0,
        !cli.no_delete_files && env.delete_files is None && file.delete_files is Some
            ==> config.delete_files == file.delete_files->0,
        !cli.no_delete_files && env.delete_files is None && file.delete_files is None
            ==> config.delete_files,
        config.dry_run == cli.dry_run,
        config.logout == cli.logout,
        cli.host is Some ==> config.host@ == trimmed(cli.host->0@),
        cli.host is None && env.host is Some ==> config.host@ == trimmed(env.host->0@),
        cli.username is Some ==> config.username@ == trimmed(cli.username->0@),
        cli.username is None && env.username is Some ==> config.username@ == trimmed(
            env.username->0@,
        ),
        cli.host is Some ==> spaces_cut(cli.host->0@, config.host@),
        cli.host is None && env.host is Some ==> spaces_cut(env.host->0@, config.host@),
        cli.host is None && env.host is None ==> file.host is Some && spaces_cut(
            file.host->0@,
            config.host@,
        ),
        cli.username is Some ==> spaces_cut(cli.username->0@, config.username@),
        cli.username is None && env.username is Some ==> spaces_cut(
            env.username->0@,
            config.username@,
        ),
        cli.username is None && env.username is None ==> file.username is Some && spaces_cut(
            file.username->0@,
            config.username@,
        ),
        config.host@.len() > 0 && config.username@.len() > 0,
{
    if let Some(text) = cli.host {
        law_trimming_cuts_the_spaces(text@);
    }
    if let Some(text) = env.host {
        law_trimming_cuts_the_spaces(text@);
    }
    if let Some(text) = file.host {
        law_trimming_cuts_the_spaces(text@);
    }
    if let Some(text) = cli.username {
        law_trimming_cuts_the_spaces(text@);
    }
    if let Some(text) = env.username {
        law_trimming_cuts_the_spaces(text@);
    }
    if let Some(text) = file.username {
        law_trimming_cuts_the_spaces(text@);
    }
}

/// The layers merge exactly where the first that names a host, a user and an interval
/// names more than white space, and an interval other than zero.
pub proof fn law_when_the_layers_merge(file: Config, env: Config, cli: Cli)
    ensures
        merge_refusal(file, env, cli) is None <==> {
            let host = if cli.host is Some {
                cli.host
            } else if env.host is Some {
                env.host
            } else {
                file.host
            };
            let user = if cli.username is Some {
                cli.username
            } else if env.username is Some {
                env.username
            } else {
                file.username
            };
            &&& host is Some && !all_spaces(host->0@)
            &&& user is Some && !all_spaces(user->0@)
            &&& cli.refresh_secs != Some(0u64)
            &&& cli.refresh_secs is None ==> env.refresh_secs != Some(0u64)
            &&& cli.refresh_secs is None && env.refresh_secs is None ==> file.refresh_secs != Some(
                0u64,
            )
        },
{
    if let Some(text) = first_of(cli.host, env.host, file.host) {
        law_trimming_cuts_the_spaces(text@);
    }
    if let Some(text) = first_of(cli.username, env.username, file.username) {
        law_trimming_cuts_the_spaces(text@);
    }
}

/// Flags are one-way: an unset one leaves what the lower layers say.
pub proof fn law_flags_are_one_way(file: Config, env: Config, cli: Cli, config: ResolvedConfig)
    requires
        merged(file, env, cli, config),
    ensures
        cli.insecure ==> config.insecure,
        cli.no_delete_files ==> !config.delete_files,
        !cli.insecure && env.insecure is None && file.insecure is Some ==> config.insecure
            == file.insecure->0,
        !cli.no_delete_files && env.delete_files is None && file.delete_files is Some
            ==> config.delete_files == file.delete_files->0,
{
}

/// The scheme of the base URL is the one that was resolved: a client that is to use HTTPS
/// never speaks plain HTTP, and the other way round.
pub proof fn law_the_scheme_is_the_resolved_one(config: ResolvedConfig)
    ensures
        config.url().take(5) == seq!['h', 't', 't', 'p', 's'] <==> config.https,
        config.url().take(4) == seq!['h', 't', 't', 'p'],
{
    reveal_strlit("https");
    reveal_strlit("http");
    reveal_strlit("://");
    let url = config.url();
    assert("https"@.len() == 5 && "http"@.len() == 4 && "://"@[0] == ':');
    assert("https"@[0] == 'h' && "https"@[1] == 't' && "https"@[2] == 't' && "https"@[3] == 'p'
        && "https"@[4] == 's');
    assert("http"@[0] == 'h' && "http"@[1] == 't' && "http"@[2] == 't' && "http"@[3] == 'p');
    assert(url.take(4) =~= seq!['h', 't', 't', 'p']);
    if config.https {
        assert(url.take(5) =~= seq!['h', 't', 't', 'p', 's']);
    } else {
        assert(url[4] == ':');
        assert(url.take(5)[4] == ':');
    }
}

/// A number in the environment is the one written there: the decimal form of any number,
/// with white space around it or without, reads as that number where it is small enough,
/// and as a bad value where it is not.
pub proof fn law_a_number_in_the_environment_reads_back(value: String, n: nat, most: nat)
    requires
        spaces_cut(value@, decimal(n)),
    ensures
        env_number(Some(value), most) == if n <= most {
            Some(Some(n))
        } else {
            None
        },
{
    lemma_decimal_digits(n);
    law_trimming_cuts_the_spaces(value@);
    lemma_spaces_cut_once(value@, decimal(n), trimmed(value@));
    assert(is_digit(decimal(n)[0]));
}

/// Two NASes, or two accounts on one NAS, never evict each other: keys of hosts
/// without a slash are equal only where host, port and user are.
pub proof fn law_session_keys_do_not_collide(
    host: Seq<char>,
    port: u16,
    username: Seq<char>,
    host2: Seq<char>,
    port2: u16,
    username2: Seq<char>,
)
    requires
        !host.contains('/'),
        !host2.contains('/'),
        session_key_text(host, port, username) == session_key_text(host2, port2, username2),
    ensures
        host == host2,
        port == port2,
        username == username2,
{
    reveal_strlit(":");
    reveal_strlit("/");
    let p = decimal(port as nat);
    let p2 = decimal(port2 as nat);
    let key = session_key_text(host, port, username);
    lemma_decimal_digits(port as nat);
    lemma_decimal_digits(port2 as nat);
    let n: int = host.len() as int;
    let m: int = n + 1 + p.len();
    let n2: int = host2.len() as int;
    let m2: int = n2 + 1 + p2.len();
    assert(forall|i: int| 0 <= i < n ==> key[i] == host[i]);
    assert(key[n] == ':');
    assert(forall|i: int| 0 <= i < p.len() ==> key[n + 1 + i] == p[i]);
    assert(key[m] == '/');
    assert(forall|i: int| 0 <= i < username.len() ==> key[m + 1 + i] == username[i]);
    assert(forall|i: int| 0 <= i < n2 ==> key[i] == host2[i]);
    assert(key[n2] == ':');
    assert(forall|i: int| 0 <= i < p2.len() ==> key[n2 + 1 + i] == p2[i]);
    assert(key[m2] == '/');
    assert(forall|i: int| 0 <= i < username2.len() ==> key[m2 + 1 + i] == username2[i]);
    // The first slash stands in one place only.
    assert forall|i: int| 0 <= i < m implies key[i] != '/' by {
        if i < n {
            assert(host.contains(host[i]));
        } else if i > n {
            assert(is_digit(p[i - n - 1]));
        }
    }
    assert forall|i: int| 0 <= i < m2 implies key[i] != '/' by {
        if i < n2 {
            assert(host2.contains(host2[i]));
        } else if i > n2 {
            assert(is_digit(p2[i - n2 - 1]));
        }
    }
    assert(m == m2) by {
        if m < m2 {
            assert(key[m] != '/');
        } else if m2 < m {
            assert(key[m2] != '/');
        }
    }
    // So does the last colon before it.
    assert(n == n2) by {
        if n < n2 {
            assert(is_digit(p[n2 - n - 1]));
            assert(key[n2] == p[n2 - n - 1]);
        } else if n2 < n {
            assert(is_digit(p2[n - n2 - 1]));
            assert(key[n] == p2[n - n2 - 1]);
        }
    }
    assert(host =~= host2);
    assert(p =~= p2);
    assert(key.len() == m + 1 + username.len());
    assert(key.len() == m2 + 1 + username2.len());
    assert(username =~= username2) by {
        assert forall|i: int| 0 <= i < username.len() implies username[i] == username2[i] by {
            assert(key[m + 1 + i] == username[i]);
            assert(key[m2 + 1 + i] == username2[i]);
        }
    }
}

/// The words of a flag, in any case, are these eight and no others.
pub proof fn law_which_words_are_flags(text: Seq<char>)
    ensures
        flag_word(text) == Some(true) <==> seq!["1"@, "true"@, "yes"@, "on"@].contains(
            ascii_lowered(text),
        ),
        flag_word(text) == Some(false) <==> seq!["0"@, "false"@, "no"@, "off"@].contains(
            ascii_lowered(text),
        ),
{
    let yes = seq!["1"@, "true"@, "yes"@, "on"@];
    let no = seq!["0"@, "false"@, "no"@, "off"@];
    assert(yes[0] == "1"@ && yes[1] == "true"@ && yes[2] == "yes"@ && yes[3] == "on"@);
    assert(no[0] == "0"@ && no[1] == "false"@ && no[2] == "no"@ && no[3] == "off"@);
    reveal_strlit("1");
    reveal_strlit("true");
    reveal_strlit("yes");
    reveal_strlit("on");
    reveal_strlit("0");
    reveal_strlit("false");
    reveal_strlit("no");
    reveal_strlit("off");
    assert("1"@[0] != "0"@[0]);
    assert("on"@[1] != "no"@[1]);
    assert("yes"@[0] != "off"@[0]);
    assert("true"@.len() == 4 && "false"@.len() == 5);
}

/// White space around the word of a flag does not matter, and a variable with nothing else
/// in it is as good as unset.
pub proof fn law_a_flag_in_the_environment(value: String, word: Seq<char>)
    requires
        spaces_cut(value@, word),
    ensures
        word.len() == 0 ==> env_flag(Some(value)) == Some(None::<bool>),
        word.len() > 0 && flag_word(word) is Some ==> env_flag(Some(value)) == Some(
            flag_word(word),
        ),
        word.len() > 0 && flag_word(word) is None ==> env_flag(Some(value)) is None,
        env_flag(None) == Some(None::<bool>),
{
    law_trimming_cuts_the_spaces(value@);
    lemma_spaces_cut_once(value@, word, trimmed(value@));
}

/// Each variable fills the setting of its name and no other: a text that is not empty as it
/// stands, a number as it is written, a flag by its word; and one that is not set fills
/// nothing.
pub proof fn law_each_variable_fills_its_setting(values: EnvValues, config: Config, n: nat)
    requires
        env_reads(values, config),
    ensures
        values.host matches Some(text) ==> text@.len() > 0 ==> config.host is Some
            && config.host->0@ == text@,
        values.username matches Some(text) ==> text@.len() > 0 ==> config.username is Some
            && config.username->0@ == text@,
        values.port matches Some(text) ==> spaces_cut(text@, decimal(n)) ==> config.port is Some
            && config.port->0 == n,
        values.refresh_secs matches Some(text) ==> spaces_cut(text@, decimal(n))
            ==> config.refresh_secs is Some && config.refresh_secs->0 == n,
        values.https matches Some(text) ==> trimmed(text@).len() > 0 ==> config.https == flag_word(
            trimmed(text@),
        ),
        values.insecure matches Some(text) ==> trimmed(text@).len() > 0 ==> config.insecure
            == flag_word(trimmed(text@)),
        values.host is None ==> config.host is None,
        values.username is None ==> config.username is None,
        values.port is None ==> config.port is None,
        values.refresh_secs is None ==> config.refresh_secs is None,
        values.https is None ==> config.https is None,
        values.insecure is None ==> config.insecure is None,
        config.delete_files is None,
{
    if let Some(text) = values.port {
        if spaces_cut(text@, decimal(n)) {
            law_a_number_in_the_environment_reads_back(text, n, u16::MAX as nat);
        }
    }
    if let Some(text) = values.refresh_secs {
        if spaces_cut(text@, decimal(n)) {
            law_a_number_in_the_environment_reads_back(text, n, u64::MAX as nat);
        }
    }
}

proof fn lemma_entry_at(list: Seq<(String, TomlValue)>, i: int)
    requires
        0 <= i < list.len(),
        forall|j: int| 0 <= j < i ==> (#[trigger] list[j]).0@ != list[i].0@,
    ensures
        entry(list, list[i].0@) == Some(list[i].1),
    decreases i,
{
    if i > 0 {
        let rest = list.skip(1);
        assert(list[0].0@ != list[i].0@);
        assert(rest[i - 1] == list[i]);
        assert forall|j: int| 0 <= j < i - 1 implies (#[trigger] rest[j]).0@ != rest[i - 1].0@ by {
            assert(rest[j] == list[j + 1]);
        }
        lemma_entry_at(rest, i - 1);
    }
}

proof fn lemma_no_entry(list: Seq<(String, TomlValue)>, key: Seq<char>)
    requires
        forall|j: int| 0 <= j < list.len() ==> (#[trigger] list[j]).0@ != key,
    ensures
        entry(list, key) is None,
    decreases list.len(),
{
    if list.len() > 0 {
        let rest = list.skip(1);
        assert(list[0].0@ != key);
        assert forall|j: int| 0 <= j < rest.len() implies (#[trigger] rest[j]).0@ != key by {
            assert(rest[j] == list[j + 1]);
        }
        lemma_no_entry(rest, key);
    }
}

/// Each key of a config file fills the setting of its name with the value that stands there.
pub proof fn law_each_key_fills_its_setting(list: Seq<(String, TomlValue)>, config: Config, i: int)
    requires
        file_reads(list, config),
        0 <= i < list.len(),
        forall|j: int| 0 <= j < i ==> (#[trigger] list[j]).0@ != list[i].0@,
    ensures
        ({
            let key = list[i].0@;
            let value = list[i].1;
            &&& key == "host"@ ==> config.host is Some && value is Text && value->Text_0@
                == config.host->0@
            &&& key == "username"@ ==> config.username is Some && value is Text && value->Text_0@
                == config.username->0@
            &&& key == "port"@ ==> config.port is Some && value is Whole && value->Whole_0
                == config.port->0
            &&& key == "refresh_secs"@ ==> config.refresh_secs is Some && value is Whole
                && value->Whole_0 == config.refresh_secs->0
            &&& key == "https"@ ==> config.https is Some && value is Flag && value->Flag_0
                == config.https->0
            &&& key == "insecure"@ ==> config.insecure is Some && value is Flag && value->Flag_0
                == config.insecure->0
            &&& key == "delete_files"@ ==> config.delete_files is Some && value is Flag
                && value->Flag_0 == config.delete_files->0
        }),
{
    lemma_entry_at(list, i);
}

/// A key that a config file does not have leaves its setting to the other layers.
pub proof fn law_a_missing_key_fills_nothing(
    list: Seq<(String, TomlValue)>,
    config: Config,
    key: Seq<char>,
)
    requires
        file_reads(list, config),
        forall|j: int| 0 <= j < list.len() ==> (#[trigger] list[j]).0@ != key,
    ensures
        key == "host"@ ==> config.host is None,
        key == "username"@ ==> config.username is None,
        key == "port"@ ==> config.port is None,
        key == "refresh_secs"@ ==> config.refresh_secs is None,
        key == "https"@ ==> config.https is None,
        key == "insecure"@ ==> config.insecure is None,
        key == "delete_files"@ ==> config.delete_files is None,
{
    lemma_no_entry(list, key);
}

/// A cache file holds the sessions that it names: under each key the last one written there,
/// and none under a key that is not there.
pub proof fn law_a_cache_holds_what_it_names(list: Seq<(Seq<char>, Doc)>, key: Seq<char>, k: int)
    requires
        forall|j: int| 0 <= j < list.len() && k < j ==> (#[trigger] list[j]).0 != key,
    ensures
        0 <= k < list.len() && list[k].0 == key ==> texts_map(list).contains_key(key) && texts_map(
            list,
        )[key] == list[k].1->Str_0,
        k < 0 ==> !texts_map(list).contains_key(key),
    decreases list.len(),
{
    if list.len() > 0 {
        let head = list.drop_last();
        assert(list[list.len() - 1] == list.last());
        assert(forall|j: int| 0 <= j < head.len() ==> #[trigger] head[j] == list[j]);
        if k < list.len() - 1 {
            law_a_cache_holds_what_it_names(head, key, k);
        }
    }
}

} // verus!
