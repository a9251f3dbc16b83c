//! Tests for configuration reading, text helpers, identifier words, URL
//! building and the sweeper's per-entry decisions.

use termpad::config::{expand_tilde, Config, ConfigError, EnvSettings};
use termpad::error::Error;
use termpad::handlers::{gen_url, usage_not_found, UsageQuery};
use termpad::ident::{check_word, default_adjectives, default_nouns, IdGen};
use termpad::store::storage_name;
use termpad::sweep::{sweep_action, sweeper_enabled, SweepAction};
use termpad::text::{lower_ascii_str, parse_bool, parse_u64_bounded, u64_to_string};

fn env_with_output(output: &str) -> EnvSettings {
    EnvSettings {
        output: Some(output.to_string()),
        domain: None,
        https: None,
        port: None,
        delete_after: None,
        home: Some("/home/someone".to_string()),
    }
}

#[test]
fn config_defaults() {
    let c = Config::default();
    assert_eq!(c.output, "default");
    assert_eq!(c.domain, "localhost");
    assert!(!c.https);
    assert_eq!(c.port, 8000);
    assert_eq!(c.delete_after, 120);
}

#[test]
fn read_config_applies_defaults() {
    let c = Config::read_config(env_with_output("/var/pastes")).unwrap();
    assert_eq!(c.output, "/var/pastes");
    assert_eq!(c.domain, "localhost:8000");
    assert!(!c.https);
    assert_eq!(c.port, 8000);
    assert_eq!(c.delete_after, 120);
}

#[test]
fn read_config_requires_output() {
    let mut env = env_with_output("/var/pastes");
    env.output = None;
    assert_eq!(
        Config::read_config(env).unwrap_err(),
        ConfigError::MissingOutput
    );
}

#[test]
fn read_config_expands_tilde() {
    let c = Config::read_config(env_with_output("~/pastes")).unwrap();
    assert_eq!(c.output, "/home/someone/pastes");

    let mut env = env_with_output("~/pastes");
    env.home = None;
    assert_eq!(
        Config::read_config(env).unwrap_err(),
        ConfigError::TildeExpansion
    );
}

#[test]
fn read_config_parses_values() {
    let mut env = env_with_output("/p");
    env.domain = Some("paste.example.org".to_string());
    env.https = Some("true".to_string());
    env.port = Some("8443".to_string());
    env.delete_after = Some("0".to_string());
    let c = Config::read_config(env).unwrap();
    assert_eq!(c.domain, "paste.example.org");
    assert!(c.https);
    assert_eq!(c.port, 8443);
    assert_eq!(c.delete_after, 0);
}

#[test]
fn read_config_localhost_gets_port() {
    let mut env = env_with_output("/p");
    env.domain = Some("localhost".to_string());
    env.port = Some("3030".to_string());
    let c = Config::read_config(env).unwrap();
    assert_eq!(c.domain, "localhost:3030");
}

#[test]
fn read_config_rejects_bad_values() {
    let mut env = env_with_output("/p");
    env.https = Some("yes".to_string());
    assert_eq!(
        Config::read_config(env).unwrap_err(),
        ConfigError::InvalidHttps
    );

    let mut env = env_with_output("/p");
    env.port = Some("70000".to_string());
    assert_eq!(
        Config::read_config(env).unwrap_err(),
        ConfigError::InvalidPort
    );

    let mut env = env_with_output("/p");
    env.port = Some("-1".to_string());
    assert_eq!(
        Config::read_config(env).unwrap_err(),
        ConfigError::InvalidPort
    );

    let mut env = env_with_output("/p");
    env.delete_after = Some("12d".to_string());
    assert_eq!(
        Config::read_config(env).unwrap_err(),
        ConfigError::InvalidDeleteAfter
    );
}

#[test]
fn config_error_messages() {
    assert_eq!(ConfigError::MissingOutput.message(), "`OUTPUT` needs to be set");
    assert_eq!(ConfigError::InvalidPort.message(), "`PORT` is not a valid port");
    assert_eq!(Error::NotFound.message(), "Paste not found");
    assert_eq!(Error::IoFault.message(), "Something went wrong");
    assert_eq!(Error::SweepEntryFault.message(), "Something went wrong");
}

#[test]
fn options_into_config() {
    let o = termpad::options::Opt {
        output: "/p".to_string(),
        domain: "example.org".to_string(),
        https: true,
        port: 8443,
        delete_after: 30,
    };
    let c = o.into_config();
    assert_eq!(c.output, "/p");
    assert_eq!(c.domain, "example.org");
    assert!(c.https);
    assert_eq!(c.port, 8443);
    assert_eq!(c.delete_after, 30);
}

#[test]
fn tilde_expansion_cases() {
    let home = Some("/home/u");
    assert_eq!(expand_tilde("/abs/path", home).unwrap(), "/abs/path");
    assert_eq!(expand_tilde("rel/path", home).unwrap(), "rel/path");
    assert_eq!(expand_tilde("~tricky", home).unwrap(), "~tricky");
    assert_eq!(expand_tilde("~", home).unwrap(), "/home/u");
    assert_eq!(expand_tilde("~/data", home).unwrap(), "/home/u/data");
    assert_eq!(expand_tilde("~/data", Some("/home/u/")).unwrap(), "/home/u/data");
    assert_eq!(expand_tilde("~/data", Some("/")).unwrap(), "data");
    assert_eq!(expand_tilde("~", None), None);
    assert_eq!(expand_tilde("~/data", None), None);
    assert_eq!(expand_tilde("plain", None).unwrap(), "plain");
}

#[test]
fn url_building() {
    assert_eq!(
        gen_url("paste.example.org", "quietriver", false),
        "http://paste.example.org/quietriver"
    );
    assert_eq!(
        gen_url("paste.example.org", "quietriver", true),
        "https://paste.example.org/quietriver"
    );
    assert_eq!(
        gen_url("paste.example.org/", "quietriver", false),
        "http://paste.example.org/quietriver"
    );
}

#[test]
fn usage_flag() {
    assert!(!usage_not_found(None));
    assert!(!usage_not_found(Some(UsageQuery { not_found: false })));
    assert!(usage_not_found(Some(UsageQuery { not_found: true })));
}

#[test]
fn lowercasing_and_storage_names() {
    assert_eq!(lower_ascii_str("MiXeD123"), "mixed123");
    assert_eq!(lower_ascii_str(""), "");
    assert_eq!(storage_name("QuietRiver"), "quietriver.zst");
    assert_eq!(storage_name("already"), "already.zst");
}

#[test]
fn decimal_rendering() {
    assert_eq!(u64_to_string(0), "0");
    assert_eq!(u64_to_string(8000), "8000");
    assert_eq!(u64_to_string(65535), "65535");
    assert_eq!(u64_to_string(u64::MAX), u64::MAX.to_string());
}

#[test]
fn decimal_parsing() {
    assert_eq!(parse_u64_bounded("0", 65535), Some(0));
    assert_eq!(parse_u64_bounded("8000", 65535), Some(8000));
    assert_eq!(parse_u64_bounded("+8000", 65535), Some(8000));
    assert_eq!(parse_u64_bounded("007", 65535), Some(7));
    assert_eq!(parse_u64_bounded("65535", 65535), Some(65535));
    assert_eq!(parse_u64_bounded("65536", 65535), None);
    assert_eq!(parse_u64_bounded("", 65535), None);
    assert_eq!(parse_u64_bounded("+", 65535), None);
    assert_eq!(parse_u64_bounded("-1", 65535), None);
    assert_eq!(parse_u64_bounded("12d", 65535), None);
    assert_eq!(parse_u64_bounded("1e3", 65535), None);
    assert_eq!(parse_u64_bounded("١٢٣", 65535), None);
    assert_eq!(
        parse_u64_bounded("18446744073709551615", u64::MAX),
        Some(u64::MAX)
    );
    assert_eq!(parse_u64_bounded("18446744073709551616", u64::MAX), None);
}

#[test]
fn bool_parsing() {
    assert_eq!(parse_bool("true"), Some(true));
    assert_eq!(parse_bool("false"), Some(false));
    assert_eq!(parse_bool("True"), None);
    assert_eq!(parse_bool("1"), None);
    assert_eq!(parse_bool(""), None);
}

#[test]
fn word_checking() {
    assert!(check_word(&"quiet".to_string()));
    assert!(!check_word(&"".to_string()));
    assert!(!check_word(&"Quiet".to_string()));
    assert!(!check_word(&"qui3t".to_string()));
    assert!(!check_word(&"naïve".to_string()));
}

#[test]
fn generator_validates_lists() {
    assert!(IdGen::new(default_adjectives(), default_nouns(), false).is_some());
    assert!(IdGen::new(vec![], default_nouns(), false).is_none());
    assert!(IdGen::new(vec!["ok".to_string()], vec![], false).is_none());
    assert!(IdGen::new(vec!["Bad".to_string()], vec!["noun".to_string()], false).is_none());
}

#[test]
fn combine_builds_exactly_the_drawn_words() {
    let g = IdGen::new(
        vec!["icy".to_string(), "proud".to_string()],
        vec!["peak".to_string(), "river".to_string()],
        true,
    )
    .unwrap();
    assert_eq!(g.combine(0, 1, 0), "icyproudpeak");
    assert_eq!(g.combine(1, 1, 1), "proudproudriver");
    let single = IdGen::new(
        vec!["icy".to_string(), "proud".to_string()],
        vec!["peak".to_string(), "river".to_string()],
        false,
    )
    .unwrap();
    assert_eq!(single.combine(1, 0, 0), "proudpeak");
}

#[test]
fn generator_produces_known_combination() {
    let g = IdGen::new(
        vec!["icy".to_string()],
        vec!["peak".to_string()],
        false,
    )
    .unwrap();
    assert_eq!(g.generate(), "icypeak");
    let g2 = IdGen::new(
        vec!["icy".to_string()],
        vec!["peak".to_string()],
        true,
    )
    .unwrap();
    assert_eq!(g2.generate(), "icyicypeak");
}

#[test]
fn sweeper_start_decision() {
    assert!(!sweeper_enabled(0));
    assert!(sweeper_enabled(1));
    assert!(sweeper_enabled(120));
}

#[test]
fn sweep_decisions() {
    let day = 86400u64;
    // Retention disabled: always keep.
    assert_eq!(sweep_action(true, true, Some(0), u64::MAX, 0), SweepAction::Keep);
    // Unreadable metadata: skip the entry.
    assert_eq!(sweep_action(false, true, Some(0), 10 * day, 1), SweepAction::Keep);
    // Not a regular file: skip.
    assert_eq!(sweep_action(true, false, Some(0), 10 * day, 1), SweepAction::Keep);
    // No creation time available: abandon the pass.
    assert_eq!(sweep_action(true, true, None, 10 * day, 1), SweepAction::AbortPass);
    // Old enough: remove; exactly at the boundary counts as old.
    assert_eq!(sweep_action(true, true, Some(0), 3 * day, 3), SweepAction::Remove);
    assert_eq!(sweep_action(true, true, Some(day), 4 * day, 3), SweepAction::Remove);
    // Younger than the time-to-live: keep.
    assert_eq!(
        sweep_action(true, true, Some(day), 4 * day - 1, 3),
        SweepAction::Keep
    );
}
