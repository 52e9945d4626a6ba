//! The weekday field, schedules, and the checks on jobs.

use chrono::{Datelike, Timelike, TimeZone};
use chrono_tz::Tz;
use openab::config::{
    default_cron_platform, default_cron_sender, default_cron_timezone,
    default_disable_on_success_timeout_secs, default_true, CronConfig, CronJobConfig,
};
use openab::adapter::ChannelRef;
use openab::cronjobs::{
    after_announce, after_check, after_thread, begin_run, check_disable_on_success, cron_sender,
    find_job, run_error, update_usercron_job, CheckOutcome, CronStep, DisableOnSuccessResult,
};
use openab::scheduler::{
    align_delay, fires_at, keep_usercron_jobs, parse_cron_expr, parse_job_list, should_fire,
    translate_posix_cron_expr, translate_posix_dow_field, validate_cronjobs, Scheduler,
};
use toml_edit::DocumentMut;

#[test]
fn translate_dow_star_passes_through() {
    assert_eq!(translate_posix_dow_field("*").unwrap(), "*");
}

#[test]
fn translate_dow_single_sunday_zero() {
    assert_eq!(translate_posix_dow_field("0").unwrap(), "1");
}

#[test]
fn translate_dow_single_sunday_seven() {
    assert_eq!(translate_posix_dow_field("7").unwrap(), "1");
}

#[test]
fn translate_dow_single_monday() {
    assert_eq!(translate_posix_dow_field("1").unwrap(), "2");
}

#[test]
fn translate_dow_single_saturday() {
    assert_eq!(translate_posix_dow_field("6").unwrap(), "7");
}

#[test]
fn translate_dow_weekday_range() {
    // POSIX 1-5 (Mon-Fri) -> cron crate 2-6
    assert_eq!(translate_posix_dow_field("1-5").unwrap(), "2-6");
}

#[test]
fn translate_dow_all_days_zero_to_six() {
    assert_eq!(translate_posix_dow_field("0-6").unwrap(), "*");
}

#[test]
fn translate_dow_all_days_zero_to_seven() {
    // POSIX `0-7` is a quirky but valid "all days" expression.
    assert_eq!(translate_posix_dow_field("0-7").unwrap(), "*");
}

#[test]
fn translate_dow_all_days_one_to_seven() {
    // POSIX `1-7` covers Mon..Sun = all 7 days.
    assert_eq!(translate_posix_dow_field("1-7").unwrap(), "*");
}

#[test]
fn translate_dow_range_three_to_five() {
    // POSIX 3-5 (Wed-Fri) -> cron crate 4-6
    assert_eq!(translate_posix_dow_field("3-5").unwrap(), "4-6");
}

#[test]
fn translate_dow_list_dedupes_zero_and_seven() {
    // Both 0 and 7 = Sunday; output is a single value.
    assert_eq!(translate_posix_dow_field("0,7").unwrap(), "1");
}

#[test]
fn translate_dow_list_non_contiguous() {
    // POSIX 1,3,5 (Mon,Wed,Fri) -> cron crate 2,4,6
    assert_eq!(translate_posix_dow_field("1,3,5").unwrap(), "2,4,6");
}

#[test]
fn translate_dow_list_compacts_contiguous_runs() {
    // POSIX 1,2,4,5 -> cron crate 2,3,5,6 -> "2-3,5-6"
    assert_eq!(translate_posix_dow_field("1,2,4,5").unwrap(), "2-3,5-6");
}

#[test]
fn translate_dow_step_from_star() {
    // POSIX */2 = 0,2,4,6 = Sun,Tue,Thu,Sat -> cron crate 1,3,5,7
    assert_eq!(translate_posix_dow_field("*/2").unwrap(), "1,3,5,7");
}

#[test]
fn translate_dow_step_from_range() {
    // POSIX 1-5/2 = 1,3,5 = Mon,Wed,Fri -> cron crate 2,4,6
    assert_eq!(translate_posix_dow_field("1-5/2").unwrap(), "2,4,6");
}

#[test]
fn translate_dow_names_pass_through() {
    assert_eq!(translate_posix_dow_field("Mon-Fri").unwrap(), "Mon-Fri");
    assert_eq!(
        translate_posix_dow_field("Mon,Wed,Fri").unwrap(),
        "Mon,Wed,Fri"
    );
    assert_eq!(translate_posix_dow_field("Sun").unwrap(), "Sun");
}

#[test]
fn translate_dow_step_from_singleton() {
    // POSIX 1/2 = from Mon through Sat, step 2 = {1,3,5} = Mon,Wed,Fri -> cron crate 2,4,6
    assert_eq!(translate_posix_dow_field("1/2").unwrap(), "2,4,6");
}

#[test]
fn translate_dow_step_from_singleton_sunday() {
    // POSIX 0/3 = from Sun through Sat, step 3 = {0,3,6} = Sun,Wed,Sat -> cron crate 1,4,7
    assert_eq!(translate_posix_dow_field("0/3").unwrap(), "1,4,7");
}

#[test]
fn translate_dow_step_from_singleton_seven() {
    // POSIX 7/2 = Sunday alias, same as 0/2 = {0,2,4,6} = Sun,Tue,Thu,Sat -> cron crate 1,3,5,7
    assert_eq!(translate_posix_dow_field("7/2").unwrap(), "1,3,5,7");
}

#[test]
fn translate_dow_rejects_mixed_notation() {
    assert!(translate_posix_dow_field("1,Mon").is_err());
    assert!(translate_posix_dow_field("Mon,1").is_err());
    assert!(translate_posix_dow_field("1-Fri").is_err());
}

#[test]
fn translate_dow_rejects_out_of_range() {
    assert!(translate_posix_dow_field("8").is_err());
    assert!(translate_posix_dow_field("0-8").is_err());
}

#[test]
fn translate_dow_rejects_reversed_range() {
    assert!(translate_posix_dow_field("5-3").is_err());
}

#[test]
fn translate_dow_rejects_empty() {
    assert!(translate_posix_dow_field("").is_err());
    assert!(translate_posix_dow_field(",1").is_err());
    assert!(translate_posix_dow_field("1,").is_err());
}

#[test]
fn translate_dow_rejects_zero_step() {
    assert!(translate_posix_dow_field("*/0").is_err());
}

#[test]
fn parse_rejects_too_few_fields() {
    assert!(parse_cron_expr("* * * *").is_err());
}

#[test]
fn weekday_schedule_does_not_fire_on_sunday() {
    // Regression for the reported bug: "0 7 * * 1-5" with timezone Asia/Taipei
    // was firing on Sunday 2026-05-10 because the cron crate's `1-5` means
    // Sun-Thu without translation.
    let schedule = parse_cron_expr("0 7 * * 1-5").unwrap();
    let tz: Tz = "Asia/Taipei".parse().unwrap();
    let sunday = tz.with_ymd_and_hms(2026, 5, 10, 7, 0, 0).unwrap();
    let before = sunday - chrono::Duration::seconds(1);
    let next = schedule.after(&before).next();
    assert_ne!(
        next,
        Some(sunday),
        "POSIX 1-5 must not fire on Sunday (got next = {:?})",
        next
    );
}

#[test]
fn weekday_schedule_fires_on_monday() {
    let schedule = parse_cron_expr("0 7 * * 1-5").unwrap();
    let tz: Tz = "Asia/Taipei".parse().unwrap();
    let monday = tz.with_ymd_and_hms(2026, 5, 11, 7, 0, 0).unwrap();
    let before = monday - chrono::Duration::seconds(1);
    let next = schedule.after(&before).next();
    assert_eq!(next, Some(monday), "POSIX 1-5 must fire on Monday");
}

#[test]
fn weekday_schedule_fires_on_friday_not_saturday() {
    let schedule = parse_cron_expr("0 7 * * 1-5").unwrap();
    let tz: Tz = "Asia/Taipei".parse().unwrap();
    // 2026-05-15 is Friday
    let friday = tz.with_ymd_and_hms(2026, 5, 15, 7, 0, 0).unwrap();
    let before = friday - chrono::Duration::seconds(1);
    let next = schedule.after(&before).next();
    assert_eq!(next, Some(friday), "POSIX 1-5 must fire on Friday");

    // 2026-05-16 is Saturday - should not fire
    let saturday = tz.with_ymd_and_hms(2026, 5, 16, 7, 0, 0).unwrap();
    let before = saturday - chrono::Duration::seconds(1);
    let next = schedule.after(&before).next();
    assert_ne!(next, Some(saturday), "POSIX 1-5 must not fire on Saturday");
}

#[test]
fn sunday_schedule_fires_on_sunday_via_zero() {
    let schedule = parse_cron_expr("0 7 * * 0").unwrap();
    let tz: Tz = "Asia/Taipei".parse().unwrap();
    let sunday = tz.with_ymd_and_hms(2026, 5, 10, 7, 0, 0).unwrap();
    let before = sunday - chrono::Duration::seconds(1);
    let next = schedule.after(&before).next();
    assert_eq!(next, Some(sunday), "POSIX `0` must fire on Sunday");
}

#[test]
fn sunday_schedule_fires_on_sunday_via_seven() {
    let schedule = parse_cron_expr("0 7 * * 7").unwrap();
    let tz: Tz = "Asia/Taipei".parse().unwrap();
    let sunday = tz.with_ymd_and_hms(2026, 5, 10, 7, 0, 0).unwrap();
    let before = sunday - chrono::Duration::seconds(1);
    let next = schedule.after(&before).next();
    assert_eq!(next, Some(sunday), "POSIX `7` must also fire on Sunday");
}

#[test]
fn saturday_schedule_fires_on_saturday_via_six() {
    let schedule = parse_cron_expr("0 7 * * 6").unwrap();
    let tz: Tz = "Asia/Taipei".parse().unwrap();
    // 2026-05-16 is Saturday
    let saturday = tz.with_ymd_and_hms(2026, 5, 16, 7, 0, 0).unwrap();
    let before = saturday - chrono::Duration::seconds(1);
    let next = schedule.after(&before).next();
    assert_eq!(next, Some(saturday), "POSIX `6` must fire on Saturday");
}

#[test]
fn name_based_weekday_still_works() {
    // Name-based notation should be unaffected by the translation.
    let schedule = parse_cron_expr("0 7 * * Mon-Fri").unwrap();
    let tz: Tz = "Asia/Taipei".parse().unwrap();
    let monday = tz.with_ymd_and_hms(2026, 5, 11, 7, 0, 0).unwrap();
    let before = monday - chrono::Duration::seconds(1);
    let next = schedule.after(&before).next();
    assert_eq!(next, Some(monday));

    let sunday = tz.with_ymd_and_hms(2026, 5, 10, 7, 0, 0).unwrap();
    let before = sunday - chrono::Duration::seconds(1);
    let next = schedule.after(&before).next();
    assert_ne!(next, Some(sunday));
}

#[test]
fn parse_valid_cron_expression() {
    let schedule = parse_cron_expr("0 9 * * 1-5").unwrap();
    let next = schedule.upcoming(chrono_tz::UTC).next();
    assert!(next.is_some());
}

#[test]
fn parse_every_minute_cron() {
    let schedule = parse_cron_expr("* * * * *").unwrap();
    let next = schedule.upcoming(chrono_tz::UTC).next();
    assert!(next.is_some());
}

#[test]
fn parse_invalid_cron_expression() {
    assert!(parse_cron_expr("not a cron").is_err());
}

#[test]
fn parse_invalid_cron_too_many_fields() {
    assert!(parse_cron_expr("0 0 9 * * 1-5").is_err());
}

#[test]
fn valid_timezone_parses() {
    assert!("Asia/Taipei".parse::<Tz>().is_ok());
}

#[test]
fn invalid_timezone_fails() {
    assert!("Mars/Olympus".parse::<Tz>().is_err());
}

#[test]
fn utc_timezone_parses() {
    assert!("UTC".parse::<Tz>().is_ok());
}

#[test]
fn should_fire_every_minute_returns_true() {
    let schedule = parse_cron_expr("* * * * *").unwrap();
    assert!(should_fire(&schedule, chrono_tz::UTC));
}

#[test]
fn should_fire_returns_false_for_distant_schedule() {
    let schedule = parse_cron_expr("0 0 1 1 *").unwrap();
    let now = chrono::Utc::now();
    if now.month() != 1 || now.day() != 1 || now.hour() != 0 {
        assert!(!should_fire(&schedule, chrono_tz::UTC));
    }
}

#[test]
fn should_fire_respects_timezone() {
    let schedule = parse_cron_expr("* * * * *").unwrap();
    let tz: Tz = "Asia/Taipei".parse().unwrap();
    assert!(should_fire(&schedule, tz));
}

#[test]
fn validate_cronjobs_rejects_baseline_disable_on_success() {
    let jobs = vec![CronJobConfig {
        id: Some("baseline-goal".into()),
        enabled: true,
        schedule: "* * * * *".into(),
        channel: "123".into(),
        message: "hi".into(),
        platform: "discord".into(),
        sender_name: "test".into(),
        thread_id: None,
        timezone: "UTC".into(),
        disable_on_success: Some("echo SUCCESS".into()),
        disable_on_success_match: Some("SUCCESS".into()),
        disable_on_success_timeout_secs: 60,
        disable_on_success_working_dir: None,
    }];
    let err = validate_cronjobs(&jobs, &["discord"]).unwrap_err();
    assert!(err.contains("only supported in usercron"));
}

#[test]
fn validate_cronjobs_valid_passes() {
    let jobs = vec![CronJobConfig {
        id: None,
        enabled: true,
        schedule: "0 9 * * 1-5".into(),
        channel: "123".into(),
        message: "hi".into(),
        platform: "discord".into(),
        sender_name: "test".into(),
        thread_id: None,
        timezone: "UTC".into(),
        disable_on_success: None,
        disable_on_success_match: None,
        disable_on_success_timeout_secs: 60,
        disable_on_success_working_dir: None,
    }];
    assert!(validate_cronjobs(&jobs, &["discord"]).is_ok());
}

#[test]
fn validate_cronjobs_invalid_cron_fails() {
    let jobs = vec![CronJobConfig {
        id: None,
        enabled: true,
        schedule: "bad".into(),
        channel: "123".into(),
        message: "hi".into(),
        platform: "discord".into(),
        sender_name: "test".into(),
        thread_id: None,
        timezone: "UTC".into(),
        disable_on_success: None,
        disable_on_success_match: None,
        disable_on_success_timeout_secs: 60,
        disable_on_success_working_dir: None,
    }];
    let err = validate_cronjobs(&jobs, &["discord"]).unwrap_err();
    assert!(err.contains("invalid cron expression"));
}

#[test]
fn validate_cronjobs_invalid_timezone_fails() {
    let jobs = vec![CronJobConfig {
        id: None,
        enabled: true,
        schedule: "* * * * *".into(),
        channel: "123".into(),
        message: "hi".into(),
        platform: "discord".into(),
        sender_name: "test".into(),
        thread_id: None,
        timezone: "Mars/Olympus".into(),
        disable_on_success: None,
        disable_on_success_match: None,
        disable_on_success_timeout_secs: 60,
        disable_on_success_working_dir: None,
    }];
    let err = validate_cronjobs(&jobs, &["discord"]).unwrap_err();
    assert!(err.contains("invalid timezone"));
}

#[test]
fn validate_cronjobs_unknown_platform_fails() {
    let jobs = vec![CronJobConfig {
        id: None,
        enabled: true,
        schedule: "* * * * *".into(),
        channel: "123".into(),
        message: "hi".into(),
        platform: "telegram".into(),
        sender_name: "test".into(),
        thread_id: None,
        timezone: "UTC".into(),
        disable_on_success: None,
        disable_on_success_match: None,
        disable_on_success_timeout_secs: 60,
        disable_on_success_working_dir: None,
    }];
    let err = validate_cronjobs(&jobs, &["discord"]).unwrap_err();
    assert!(err.contains("unknown platform"));
}

#[test]
fn validate_cronjobs_unconfigured_platform_fails() {
    let jobs = vec![CronJobConfig {
        id: None,
        enabled: true,
        schedule: "* * * * *".into(),
        channel: "123".into(),
        message: "hi".into(),
        platform: "slack".into(),
        sender_name: "test".into(),
        thread_id: None,
        timezone: "UTC".into(),
        disable_on_success: None,
        disable_on_success_match: None,
        disable_on_success_timeout_secs: 60,
        disable_on_success_working_dir: None,
    }];
    let err = validate_cronjobs(&jobs, &["discord"]).unwrap_err();
    assert!(err.contains("not configured"));
}

#[test]
fn validate_cronjobs_disabled_with_invalid_cron_passes() {
    let jobs = vec![CronJobConfig {
        id: None,
        enabled: false,
        schedule: "bad".into(),
        channel: "123".into(),
        message: "hi".into(),
        platform: "discord".into(),
        sender_name: "test".into(),
        thread_id: None,
        timezone: "UTC".into(),
        disable_on_success: None,
        disable_on_success_match: None,
        disable_on_success_timeout_secs: 60,
        disable_on_success_working_dir: None,
    }];
    assert!(validate_cronjobs(&jobs, &["discord"]).is_ok());
}

#[test]
fn validate_cronjobs_enabled_with_invalid_cron_still_fails() {
    let jobs = vec![CronJobConfig {
        id: None,
        enabled: true,
        schedule: "bad".into(),
        channel: "123".into(),
        message: "hi".into(),
        platform: "discord".into(),
        sender_name: "test".into(),
        thread_id: None,
        timezone: "UTC".into(),
        disable_on_success: None,
        disable_on_success_match: None,
        disable_on_success_timeout_secs: 60,
        disable_on_success_working_dir: None,
    }];
    assert!(validate_cronjobs(&jobs, &["discord"]).is_err());
}


fn job(schedule: &str, channel: &str, message: &str) -> CronJobConfig {
    CronJobConfig {
        id: None,
        enabled: default_true(),
        schedule: schedule.into(),
        channel: channel.into(),
        message: message.into(),
        platform: default_cron_platform(),
        sender_name: default_cron_sender(),
        thread_id: None,
        timezone: default_cron_timezone(),
        disable_on_success: None,
        disable_on_success_match: None,
        disable_on_success_timeout_secs: default_disable_on_success_timeout_secs(),
        disable_on_success_working_dir: None,
    }
}

#[test]
fn cronjob_config_defaults() {
    let job = job("0 9 * * 1-5", "123", "hello");
    assert_eq!(job.enabled, true);
    assert_eq!(job.platform, "discord");
    assert_eq!(job.sender_name, "openab-cron");
    assert_eq!(job.timezone, "UTC");
    assert!(job.thread_id.is_none());
    assert!(job.id.is_none());
    assert!(job.disable_on_success.is_none());
    assert!(job.disable_on_success_match.is_none());
    assert_eq!(job.disable_on_success_timeout_secs, 60);
    assert!(job.disable_on_success_working_dir.is_none());
}

#[test]
fn cron_config_defaults_when_omitted() {
    let cron = CronConfig::default();
    assert!(!cron.usercron_enabled);
    assert!(cron.usercron_path.is_none());
    assert!(cron.jobs.is_empty());
}

#[test]
fn load_usercron_valid_file() {
    let jobs = keep_usercron_jobs(vec![job("* * * * *", "123", "ping")], &["discord"]);
    assert_eq!(jobs.len(), 1);
    assert_eq!(jobs[0].message, "ping");
}

#[test]
fn load_usercron_skips_invalid_entries() {
    let jobs = keep_usercron_jobs(
        vec![job("* * * * *", "123", "good"), job("bad cron", "456", "bad")],
        &["discord"],
    );
    assert_eq!(jobs.len(), 1);
    assert_eq!(jobs[0].message, "good");
}

#[test]
fn load_usercron_skips_unconfigured_platform() {
    let mut slack = job("* * * * *", "456", "slack job");
    slack.platform = "slack".into();
    let jobs = keep_usercron_jobs(
        vec![job("* * * * *", "123", "discord job"), slack],
        &["discord"],
    );
    assert_eq!(jobs.len(), 1);
    assert_eq!(jobs[0].message, "discord job");
}

#[test]
fn load_usercron_skips_disable_on_success_without_id() {
    let mut j = job("* * * * *", "123", "missing id");
    j.disable_on_success = Some("echo SUCCESS".into());
    j.disable_on_success_match = Some("SUCCESS".into());
    assert!(keep_usercron_jobs(vec![j], &["discord"]).is_empty());
}

#[test]
fn load_usercron_skips_disable_on_success_without_match() {
    let mut j = job("* * * * *", "123", "missing marker");
    j.id = Some("goal".into());
    j.disable_on_success = Some("echo SUCCESS".into());
    assert!(keep_usercron_jobs(vec![j], &["discord"]).is_empty());
}

#[test]
fn load_usercron_empty_file_returns_empty() {
    assert!(keep_usercron_jobs(Vec::new(), &["discord"]).is_empty());
}

#[test]
fn update_usercron_job_sets_enabled_and_thread_id_by_id() {
    let content = r#"
[[jobs]]
id = "goal-a"
enabled = true
schedule = "* * * * *"
channel = "123"
message = "a"

[[jobs]]
id = "goal-b"
enabled = true
schedule = "* * * * *"
channel = "456"
message = "b"
"#;
    let updated = update_usercron_job(content, "goal-b", Some(false), Some("thread-456")).unwrap();
    let doc = updated.parse::<DocumentMut>().unwrap();
    let jobs = doc["jobs"].as_array_of_tables().unwrap();
    let job_a = jobs.iter().next().unwrap();
    let job_b = jobs.iter().nth(1).unwrap();
    assert_eq!(job_a["id"].as_str(), Some("goal-a"));
    assert_eq!(job_a["enabled"].as_bool(), Some(true));
    assert!(job_a.get("thread_id").is_none());
    assert_eq!(job_b["id"].as_str(), Some("goal-b"));
    assert_eq!(job_b["enabled"].as_bool(), Some(false));
    assert_eq!(job_b["thread_id"].as_str(), Some("thread-456"));
}

#[test]
fn update_usercron_job_errors_for_missing_id() {
    let content = r#"
[[jobs]]
id = "goal-a"
schedule = "* * * * *"
channel = "123"
message = "a"
"#;
    let err = update_usercron_job(content, "missing", Some(false), None).unwrap_err();
    assert!(err.contains("not found"));
}

#[test]
fn update_usercron_job_reports_a_broken_document() {
    assert!(update_usercron_job("not valid toml {{{", "a", Some(true), None).is_err());
    assert!(update_usercron_job("title = 1\n", "a", Some(true), None).is_err());
}

#[test]
fn disable_on_success_requires_exit_zero_and_marker() {
    let ran = |success: bool, output: &str| CheckOutcome::Exited {
        success,
        stdout: output.to_string(),
        stderr: String::new(),
    };
    assert!(matches!(
        check_disable_on_success(&ran(true, "SUCCESS"), "SUCCESS"),
        DisableOnSuccessResult::Achieved
    ));
    assert!(matches!(
        check_disable_on_success(&ran(true, "DONE"), "SUCCESS"),
        DisableOnSuccessResult::NotAchieved("success marker not found")
    ));
    assert!(matches!(
        check_disable_on_success(&ran(false, "SUCCESS"), "SUCCESS"),
        DisableOnSuccessResult::NotAchieved("command exited non-zero")
    ));
}

#[test]
fn disable_on_success_kills_child_on_timeout() {
    let result = check_disable_on_success(&CheckOutcome::TimedOut, "SUCCESS");
    assert!(matches!(
        result,
        DisableOnSuccessResult::NotAchieved("command timed out")
    ));
}

#[test]
fn marker_on_standard_error_counts() {
    let outcome = CheckOutcome::Exited {
        success: true,
        stdout: String::new(),
        stderr: "all SUCCESS here".to_string(),
    };
    assert!(matches!(
        check_disable_on_success(&outcome, "SUCCESS"),
        DisableOnSuccessResult::Achieved
    ));
}

#[test]
fn whole_expression_is_translated() {
    assert_eq!(
        translate_posix_cron_expr("0 7 * * 1-5").unwrap(),
        "0 7 * * 2-6"
    );
}

#[test]
fn ticks_start_on_the_minute() {
    assert_eq!(align_delay(120), 0);
    assert_eq!(align_delay(119), 1);
    assert_eq!(align_delay(61), 59);
}

#[test]
fn fires_at_the_minute_of_the_schedule_alone() {
    let schedule = parse_cron_expr("30 7 * * *").unwrap();
    let tz: Tz = "Asia/Taipei".parse().unwrap();
    let at = tz.with_ymd_and_hms(2026, 5, 11, 7, 30, 0).unwrap().timestamp();
    assert!(fires_at(&schedule, &tz, at));
    assert!(fires_at(&schedule, &tz, at + 59));
    assert!(!fires_at(&schedule, &tz, at + 60));
    assert!(!fires_at(&schedule, &tz, at - 1));
}

#[test]
fn a_running_job_is_not_started_again() {
    let baseline = parse_job_list(vec![job("* * * * *", "1", "a")], false);
    let mut scheduler = Scheduler::new(baseline, Vec::new(), None);
    assert_eq!(scheduler.tick(1_778_400_000), vec![0]);
    assert_eq!(scheduler.tick(1_778_400_060), Vec::<usize>::new());
    scheduler.finished(0);
    assert_eq!(scheduler.tick(1_778_400_120), vec![0]);
}

#[test]
fn disabled_jobs_are_not_taken_up() {
    let mut j = job("* * * * *", "1", "a");
    j.enabled = false;
    assert!(parse_job_list(vec![j], false).is_empty());
}

#[test]
fn a_changed_file_brings_its_jobs() {
    let baseline = parse_job_list(vec![job("* * * * *", "1", "a")], false);
    let mut scheduler = Scheduler::new(baseline, Vec::new(), None);
    assert!(scheduler.has_work(false));
    assert!(!scheduler.needs_reload(None));
    assert!(scheduler.needs_reload(Some((10, 0))));
    scheduler.tick(1_778_400_000);
    scheduler.reload(parse_job_list(vec![job("* * * * *", "2", "b")], true), Some((10, 0)));
    assert!(!scheduler.needs_reload(Some((10, 0))));
    assert!(scheduler.needs_reload(Some((10, 1))));
    assert_eq!(scheduler.tick(1_778_400_060), vec![1]);
    let empty = Scheduler::new(Vec::new(), Vec::new(), None);
    assert!(!empty.has_work(false));
    assert!(empty.has_work(true));
}

#[test]
fn a_run_without_an_adapter_stops() {
    assert!(matches!(begin_run(&job("* * * * *", "1", "a"), false), CronStep::Stop));
}

#[test]
fn a_run_posts_opens_a_thread_and_hands_on() {
    let j = job("* * * * *", "1", "good morning");
    match begin_run(&j, true) {
        CronStep::Announce { channel, text } => {
            assert_eq!(channel.channel_id, "1");
            assert_eq!(text, format!("🕐 [{}]: good morning", j.sender_name));
        }
        _ => panic!("the message is posted"),
    }
    assert!(matches!(after_announce(&j, false), CronStep::Stop));
    match after_announce(&j, true) {
        CronStep::CreateThread { title_of, .. } => assert_eq!(title_of, "good morning"),
        _ => panic!("a thread is opened"),
    }
    let thread = ChannelRef {
        parent_id: Some("1".to_string()),
        ..ChannelRef::plain("discord", "77")
    };
    match after_thread(&j, true, Ok(thread.clone())) {
        CronStep::Dispatch { channel, keep } => {
            assert_eq!(channel.channel_id, "77");
            assert!(keep.is_none());
        }
        _ => panic!("the message is handed on"),
    }
    let mut named = job("* * * * *", "1", "a");
    named.id = Some("daily".to_string());
    match after_thread(&named, true, Ok(thread.clone())) {
        CronStep::Dispatch { keep, .. } => {
            assert_eq!(keep, Some(("daily".to_string(), "77".to_string())));
        }
        _ => panic!("the message is handed on"),
    }
    match after_thread(&named, true, Err("denied".to_string())) {
        CronStep::Fail { text, .. } => {
            assert_eq!(text, "⚠️ cronjob: failed to create thread: denied");
        }
        _ => panic!("the failure is told"),
    }
    assert_eq!(run_error("down"), "⚠️ cronjob error: down");
    let sender = cron_sender(&j, &thread, "2026-05-11T07:30:00Z".to_string());
    assert_eq!(sender.sender_id, "openab-cron");
    assert_eq!(sender.channel_id, "1");
    assert_eq!(sender.thread_id.as_deref(), Some("77"));
    assert!(sender.is_bot);
}

#[test]
fn a_job_with_a_thread_is_answered_there() {
    let mut j = job("* * * * *", "1", "a");
    j.thread_id = Some("5".to_string());
    match after_announce(&j, true) {
        CronStep::Dispatch { channel, keep } => {
            assert_eq!(channel.thread_id.as_deref(), Some("5"));
            assert!(keep.is_none());
        }
        _ => panic!("the message is handed on"),
    }
}

#[test]
fn a_reached_goal_switches_the_job_off() {
    let mut j = job("* * * * *", "1", "a");
    j.id = Some("goal".to_string());
    j.disable_on_success = Some(" make check ".to_string());
    assert!(matches!(begin_run(&j, true), CronStep::Announce { .. }));
    j.disable_on_success_match = Some("PASS".to_string());
    j.disable_on_success_timeout_secs = 0;
    match begin_run(&j, true) {
        CronStep::RunCheck { marker, timeout_secs, working_dir, .. } => {
            assert_eq!(marker, "PASS");
            assert_eq!(timeout_secs, 1);
            assert!(working_dir.is_none());
        }
        _ => panic!("the check runs"),
    }
    match after_check(&j, true, "make check", "PASS", &DisableOnSuccessResult::Achieved) {
        CronStep::GoalReached { text, disable, .. } => {
            assert_eq!(text, "✅ Goal achieved: `make check` matched `PASS`. Disabling cronjob.");
            assert_eq!(disable.as_deref(), Some("goal"));
        }
        _ => panic!("the goal is reached"),
    }
    match after_check(&j, false, "make check", "PASS", &DisableOnSuccessResult::Achieved) {
        CronStep::GoalReached { disable, .. } => assert!(disable.is_none()),
        _ => panic!("the goal is reached"),
    }
    let not_yet = DisableOnSuccessResult::NotAchieved("timeout");
    assert!(matches!(
        after_check(&j, true, "make check", "PASS", &not_yet),
        CronStep::Announce { .. }
    ));
    let ids = vec![None, Some("x".to_string()), Some("goal".to_string())];
    assert_eq!(find_job(&ids, "goal"), Some(2));
    assert_eq!(find_job(&ids, "none"), None);
}

#[test]
fn a_rewritten_file_keeps_its_jobs() {
    let content = "# mine\n[[jobs]]\nid = \"a\"\nenabled = true # on\n\n[[jobs]]\nid = \"b\"\n[jobs.extra]\nx = 1\n";
    let once = update_usercron_job(content, "b", Some(false), Some("t\"1")).unwrap();
    let twice = update_usercron_job(&once, "a", Some(false), None).unwrap();
    let doc: DocumentMut = twice.parse().unwrap();
    let jobs = doc["jobs"].as_array_of_tables().unwrap();
    let ids: Vec<_> = jobs.iter().map(|t| t["id"].as_str().unwrap()).collect();
    assert_eq!(ids, ["a", "b"]);
    assert_eq!(jobs.get(0).unwrap()["enabled"].as_bool(), Some(false));
    assert_eq!(jobs.get(1).unwrap()["thread_id"].as_str(), Some("t\"1"));
    assert!(twice.starts_with("# mine"));
}

#[test]
fn a_write_back_touches_the_keys_asked_for() {
    let content = "[[jobs]]\nid = \"a\"\nmessage = \"m\"\n\n[[jobs]]\nid = \"b\"\nthread_id = \"old\"\n";
    let text = update_usercron_job(content, "a", Some(true), None).unwrap();
    let doc: DocumentMut = text.parse().unwrap();
    let jobs = doc["jobs"].as_array_of_tables().unwrap();
    let a = jobs.get(0).unwrap();
    assert_eq!(a["enabled"].as_bool(), Some(true));
    assert_eq!(a["message"].as_str(), Some("m"));
    assert!(a.get("thread_id").is_none());
    let text = update_usercron_job(&text, "b", None, Some("new")).unwrap();
    let doc: DocumentMut = text.parse().unwrap();
    let jobs = doc["jobs"].as_array_of_tables().unwrap();
    assert_eq!(jobs.get(0).unwrap()["enabled"].as_bool(), Some(true));
    assert_eq!(jobs.get(1).unwrap()["thread_id"].as_str(), Some("new"));
    assert!(jobs.get(1).unwrap().get("enabled").is_none());
}

#[test]
fn texts_with_quotes_read_back() {
    let content = "[[jobs]]\nid = \"a\"\n";
    let most = format!("{}x{}", "\"".repeat(255), "'".repeat(255));
    for id in ["it's \"so\"", "a\nb", "\u{1}\\", "'' \"\"\" \n", most.as_str()] {
        let text = update_usercron_job(content, "a", None, Some(id)).unwrap();
        let doc: DocumentMut = text.parse().unwrap();
        let jobs = doc["jobs"].as_array_of_tables().unwrap();
        assert_eq!(jobs.get(0).unwrap()["thread_id"].as_str(), Some(id));
    }
    for quote in ["\"", "'"] {
        let err = update_usercron_job(content, "a", None, Some(&quote.repeat(256))).unwrap_err();
        assert_eq!(err, "usercron thread id has too many quotes in a row");
    }
}

#[test]
fn a_write_back_keeps_the_rest_of_the_file() {
    let content = "title = \"mine\"\nlimit = 7\n\n[[jobs]]\nid = \"a\"\ndisable_on_success_timeout_secs = 30\n\n[[notes]]\ntext = \"n\"\n";
    let text = update_usercron_job(content, "a", Some(false), Some("t")).unwrap();
    let doc: DocumentMut = text.parse().unwrap();
    assert_eq!(doc["title"].as_str(), Some("mine"));
    assert_eq!(doc["limit"].as_integer(), Some(7));
    let job = doc["jobs"].as_array_of_tables().unwrap().get(0).unwrap();
    assert_eq!(job["disable_on_success_timeout_secs"].as_integer(), Some(30));
    let note = doc["notes"].as_array_of_tables().unwrap().get(0).unwrap();
    assert_eq!(note["text"].as_str(), Some("n"));
}
