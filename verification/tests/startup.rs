//! What is decided when the broker starts.

use openab::config::{CronConfig, HookConfig, OnFailure, SttConfig};
use openab::startup::{
    config_origin, config_source, load_config_raw_from_url, own_path, parse_id_set,
    remote_status_error, resolve_stt, usercron_path, validate_checksum, validate_hook,
    ConfigOrigin, MAX_CONFIG_BYTES,
};
use openab::table::Table;

#[test]
fn configuration_comes_from_a_file_or_an_address() {
    assert_eq!(config_source(None), "config.toml");
    assert_eq!(config_source(Some("x.toml".into())), "x.toml");
    assert_eq!(config_origin("https://example.com/config.toml"), ConfigOrigin::Https);
    assert_eq!(config_origin("http://example.com/config.toml"), ConfigOrigin::Http);
    assert_eq!(config_origin("my-config.toml"), ConfigOrigin::File);
}

#[test]
fn ids_that_are_no_numbers_are_left_out() {
    let ids = parse_id_set(&vec!["1".into(), "x".into(), "2".into()], "discord.allowed_users")
        .unwrap();
    assert_eq!(ids.len(), 2);
    assert!(ids.contains(&1) && ids.contains(&2));
    assert!(parse_id_set(&Vec::new(), "l").unwrap().is_empty());
    assert_eq!(
        parse_id_set(&vec!["x".into()], "discord.allowed_users").unwrap_err(),
        "all discord.allowed_users entries failed to parse — refusing to start with an empty allowlist"
    );
}

#[test]
fn speech_recognition_needs_a_key() {
    let mut stt = SttConfig::default();
    assert!(resolve_stt(&mut stt, None).is_ok());
    stt.enabled = true;
    assert!(resolve_stt(&mut stt, None).unwrap_err().contains("no API key found"));
    assert!(resolve_stt(&mut stt, Some("gk")).is_ok());
    assert_eq!(stt.api_key, "gk");
    let mut other = SttConfig::default();
    other.enabled = true;
    other.base_url = "https://api.openai.com/v1".into();
    assert!(resolve_stt(&mut other, Some("gk")).is_err());
}

#[test]
fn relative_job_files_are_the_brokers_own() {
    let cron = |enabled: bool, path: Option<&str>| CronConfig {
        usercron_enabled: enabled,
        usercron_path: path.map(|p| p.to_string()),
        jobs: Vec::new(),
    };
    assert_eq!(
        usercron_path(&cron(true, Some("cronjob.toml")), Some("/home/a")).as_deref(),
        Some("/home/a/.openab/cronjob.toml")
    );
    assert_eq!(
        usercron_path(&cron(true, Some("/etc/cronjob.toml")), None).as_deref(),
        Some("/etc/cronjob.toml")
    );
    assert_eq!(
        usercron_path(&cron(true, Some("cronjob.toml")), None).as_deref(),
        Some(".openab/cronjob.toml")
    );
    assert_eq!(usercron_path(&cron(false, Some("x")), None), None);
    assert_eq!(usercron_path(&cron(true, None), None), None);
    assert_eq!(own_path(Some("/h/"), "reminders.json"), "/h/.openab/reminders.json");
}

#[test]
fn fetched_configurations_are_checked() {
    let mut vars = Table::new();
    vars.insert("NAME".to_string(), "value".to_string());
    assert_eq!(
        load_config_raw_from_url("u", b"a = \"${NAME}\"".to_vec(), &vars).unwrap(),
        "a = \"value\""
    );
    assert!(load_config_raw_from_url("u", vec![0xff], &vars)
        .unwrap_err()
        .starts_with("remote config from u is not valid UTF-8: "));
    assert_eq!(
        load_config_raw_from_url("u", vec![b'a'; MAX_CONFIG_BYTES + 1], &vars).unwrap_err(),
        "remote config from u exceeds 1 MiB limit (1048577 bytes)"
    );
    assert_eq!(
        remote_status_error("u", "404 Not Found"),
        "remote config request to u returned HTTP 404 Not Found"
    );
}

fn hook(script: bool, inline: bool, url: bool) -> HookConfig {
    let text = |given: bool| if given { Some("x".to_string()) } else { None };
    HookConfig {
        script: text(script),
        inline: text(inline),
        url: text(url),
        sha256: None,
        timeout_seconds: 60,
        on_failure: OnFailure::Abort,
    }
}

#[test]
fn a_hook_has_exactly_one_script() {
    for (script, inline, url) in [(true, false, false), (false, true, false), (false, false, true)] {
        assert!(validate_hook("pre_boot", &hook(script, inline, url)).is_ok());
    }
    for (script, inline, url) in
        [(false, false, false), (true, true, false), (true, false, true), (false, true, true), (true, true, true)]
    {
        assert_eq!(
            validate_hook("pre_boot", &hook(script, inline, url)).unwrap_err(),
            "hooks.pre_boot: exactly one of script, inline, or url must be set"
        );
    }
}

#[test]
fn a_fetched_script_needs_a_checksum() {
    assert!(validate_checksum("pre_boot", &hook(true, false, false)).is_ok());
    let mut remote = hook(false, false, true);
    assert_eq!(
        validate_checksum("pre_boot", &remote).unwrap_err(),
        "hooks.pre_boot: sha256 is required with url"
    );
    remote.sha256 = Some("00".to_string());
    assert!(validate_checksum("pre_boot", &remote).is_ok());
}
