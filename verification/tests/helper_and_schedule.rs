use weckpilot::helper::{
    helper_command, helper_log_path, helper_outcome, helper_outcome_text, helper_script_name,
    listing_mentions, missing_script_error, launch_failure, resource_dir_error, HelperAction,
    HELPER_LABEL, LEGACY_HELPER_LABEL,
};
use weckpilot::schedule::{wake_time_has_passed, Timestamp};
use weckpilot::schedule::{
    alarm_label, schedule_error, schedule_update_message, scheduled_wake, wake_candidate,
    LocalDateTime, ScheduleStep,
};
use weckpilot::{
    active_helper_paths, current_helper_installed, is_wake_helper_installed,
    legacy_helper_installed, log_tail, plan_wake, schedule_update, wake_helper_status,
    InstallProbe, WakeSchedule,
};

fn probe(helper_binary: bool, helper_plist: bool, legacy_binary: bool, legacy_plist: bool) -> InstallProbe {
    InstallProbe { helper_binary, helper_plist, legacy_binary, legacy_plist }
}

#[test]
fn installation_needs_program_and_daemon() {
    assert!(current_helper_installed(&probe(true, true, false, false)));
    assert!(!current_helper_installed(&probe(true, false, true, true)));
    assert!(legacy_helper_installed(&probe(false, false, true, true)));
    assert!(!legacy_helper_installed(&probe(true, true, false, true)));
    assert!(is_wake_helper_installed(true, &probe(false, false, true, true)));
    assert!(!is_wake_helper_installed(false, &probe(true, true, true, true)));
    assert!(!is_wake_helper_installed(true, &probe(true, false, false, true)));
}

#[test]
fn legacy_paths_only_for_a_legacy_installation() {
    assert_eq!(
        active_helper_paths(&probe(false, false, false, false)),
        ("/Users/Shared/WeckPilot", "/Users/Shared/WeckPilot/schedule.json", HELPER_LABEL)
    );
    assert_eq!(
        active_helper_paths(&probe(false, false, true, true)),
        ("/Users/Shared/AlarmMaster", "/Users/Shared/AlarmMaster/schedule.json", LEGACY_HELPER_LABEL)
    );
    assert_eq!(active_helper_paths(&probe(true, true, true, true)).2, HELPER_LABEL);
    assert_eq!(active_helper_paths(&probe(false, true, true, true)).2, LEGACY_HELPER_LABEL);
}

#[test]
fn log_tail_keeps_the_last_ten_lines() {
    let log: String = (1..=12).map(|i| format!("line {i}\n")).collect();
    let expected: Vec<String> = (3..=12).map(|i| format!("line {i}")).collect();
    assert_eq!(log_tail(&log), expected.join("\n"));
    assert_eq!(log_tail("a\r\nb\n\nc\r"), "a\nb\n\nc\r");
    assert_eq!(log_tail(""), "");
    assert_eq!(log_tail("\n"), "");
    assert_eq!(log_tail("only"), "only");
}

#[test]
fn status_reads_what_was_found() {
    let schedule = WakeSchedule {
        next_wake: Some("2026-03-01T06:30:00".to_string()),
        enabled: true,
        alarm_time: Some("06:30".to_string()),
        label: None,
    };
    let listing = format!("PID\tStatus\tLabel\n-\t0\t{}\n", HELPER_LABEL);
    let status = wake_helper_status(
        true,
        &probe(true, true, false, false),
        Some(listing.as_bytes()),
        Some(schedule),
        Some("one\ntwo\n"),
    );
    assert!(status.installed);
    assert!(status.daemon_loaded);
    assert!(status.has_schedule);
    assert_eq!(status.next_wake.as_deref(), Some("2026-03-01T06:30:00"));
    assert_eq!(status.log_tail.as_deref(), Some("one\ntwo"));

    // The legacy label is looked for where only the legacy helper is installed.
    let status = wake_helper_status(true, &probe(false, false, true, true), Some(listing.as_bytes()), None, None);
    assert!(status.installed);
    assert!(!status.daemon_loaded);
    assert!(!status.has_schedule);
    assert_eq!(status.next_wake, None);
    assert_eq!(status.log_tail, None);

    let disabled = WakeSchedule { next_wake: Some("x".to_string()), enabled: false, alarm_time: None, label: None };
    let status = wake_helper_status(true, &probe(true, true, false, false), None, Some(disabled), None);
    assert!(!status.daemon_loaded);
    assert!(!status.has_schedule);
    assert_eq!(status.next_wake.as_deref(), Some("x"));
}

#[test]
fn status_off_macos_reports_nothing() {
    let status = wake_helper_status(false, &probe(true, true, true, true), Some(b"anything"), None, Some("log"));
    assert!(!status.installed && !status.daemon_loaded && !status.has_schedule);
    assert_eq!(status.next_wake, None);
    assert_eq!(status.log_tail, None);
}

#[test]
fn listing_search_finds_substrings() {
    assert!(listing_mentions("123\t0\tde.little-tools.weckpilot.wake-helper", HELPER_LABEL));
    assert!(!listing_mentions("de.little-tools.weckpilot", HELPER_LABEL));
    assert!(listing_mentions("anything", ""));
    assert!(!listing_mentions("", "x"));
}

#[test]
fn helper_commands_and_errors() {
    assert_eq!(helper_script_name(HelperAction::Install), "install.sh");
    assert_eq!(helper_script_name(HelperAction::Uninstall), "uninstall.sh");
    assert_eq!(
        helper_command(HelperAction::Install, "/R/helpers/install.sh", "/R/helpers"),
        "do shell script \"bash '/R/helpers/install.sh' '/R/helpers'\" with administrator privileges"
    );
    assert_eq!(
        helper_command(HelperAction::Uninstall, "/R/helpers/uninstall.sh", "/R/helpers"),
        "do shell script \"bash '/R/helpers/uninstall.sh'\" with administrator privileges"
    );
    assert_eq!(missing_script_error(HelperAction::Install, "/x"), "Install script not found at: /x");
    assert_eq!(missing_script_error(HelperAction::Uninstall, "/y"), "Uninstall script not found at: /y");
    assert_eq!(launch_failure(HelperAction::Install, "boom"), "Failed to run installer: boom");
    assert_eq!(launch_failure(HelperAction::Uninstall, "boom"), "Failed to run uninstaller: boom");
    assert_eq!(resource_dir_error("gone"), "Resource dir error: gone");
    assert_eq!(helper_log_path("/Users/Shared/WeckPilot"), "/Users/Shared/WeckPilot/helper.log");
}

#[test]
fn helper_outcomes() {
    assert_eq!(
        helper_outcome_text(HelperAction::Install, true, "done", ""),
        Ok("Wake Helper installed successfully.\ndone".to_string())
    );
    assert_eq!(
        helper_outcome_text(HelperAction::Uninstall, true, "ignored", ""),
        Ok("Wake Helper uninstalled successfully.".to_string())
    );
    assert_eq!(
        helper_outcome_text(HelperAction::Install, false, "", "execution error: User canceled. (-128)"),
        Err("Installation canceled by the user.".to_string())
    );
    assert_eq!(
        helper_outcome_text(HelperAction::Uninstall, false, "", "error -128"),
        Err("Uninstallation canceled by the user.".to_string())
    );
    assert_eq!(
        helper_outcome_text(HelperAction::Install, false, "", "disk full"),
        Err("Installation failed: disk full".to_string())
    );
    assert_eq!(
        helper_outcome_text(HelperAction::Uninstall, false, "", "nope"),
        Err("Uninstallation failed: nope".to_string())
    );
    // Bytes are read as UTF-8, invalid ones replaced.
    assert_eq!(
        helper_outcome(HelperAction::Install, false, b"", b"bad \xff byte"),
        Err("Installation failed: bad \u{fffd} byte".to_string())
    );
    assert_eq!(
        helper_outcome(HelperAction::Install, true, "fertig ✓".as_bytes(), b""),
        Ok("Wake Helper installed successfully.\nfertig ✓".to_string())
    );
}

#[test]
fn schedule_update_enables_exactly_with_a_wake_time() {
    let s = schedule_update(Some("2026-01-02T07:00:00".to_string()), Some("07:00".to_string()), Some("Work".to_string()));
    assert!(s.enabled);
    assert_eq!(s.next_wake.as_deref(), Some("2026-01-02T07:00:00"));
    assert_eq!(s.alarm_time.as_deref(), Some("07:00"));
    assert_eq!(s.label.as_deref(), Some("Work"));
    assert_eq!(schedule_update_message(&s), "Wake schedule updated: 2026-01-02T07:00:00");

    let s = schedule_update(None, Some("07:00".to_string()), None);
    assert!(!s.enabled);
    assert_eq!(s.alarm_time.as_deref(), Some("07:00"));
    assert_eq!(schedule_update_message(&s), "Wake schedule disabled");
}

#[test]
fn schedule_errors() {
    assert_eq!(schedule_error(ScheduleStep::CreateDirectory, "e"), "Cannot create directory: e");
    assert_eq!(schedule_error(ScheduleStep::Encode, "e"), "JSON error: e");
    assert_eq!(schedule_error(ScheduleStep::WriteUpdate, "e"), "Cannot write schedule: e");
    assert_eq!(schedule_error(ScheduleStep::WriteWake, "e"), "Write error: e");
}

#[test]
fn alarm_label_pads_both_fields() {
    assert_eq!(alarm_label(6, 5), "06:05");
    assert_eq!(alarm_label(23, 59), "23:59");
    assert_eq!(alarm_label(0, 0), "00:00");
    assert_eq!(alarm_label(100, 7), "100:07");
}

#[test]
fn wake_today_when_still_ahead() {
    let candidate = wake_candidate(2026, 3, 14, 6, 30);
    assert_eq!(
        candidate,
        LocalDateTime { year: 2026, month: 3, day: 14, hour: 6, minute: 30, second: 0 }
    );
    let (schedule, message) = plan_wake(candidate, false);
    assert_eq!(schedule.next_wake.as_deref(), Some("2026-03-14T06:30:00"));
    assert!(schedule.enabled);
    assert_eq!(schedule.alarm_time.as_deref(), Some("06:30"));
    assert_eq!(schedule.label, None);
    assert_eq!(message, "Wake scheduled for 2026-03-14T06:30:00");
}

#[test]
fn wake_tomorrow_when_passed() {
    let (s, _) = plan_wake(wake_candidate(2024, 2, 28, 7, 0), true);
    assert_eq!(s.next_wake.as_deref(), Some("2024-02-29T07:00:00"));
    let (s, _) = plan_wake(wake_candidate(2023, 2, 28, 7, 0), true);
    assert_eq!(s.next_wake.as_deref(), Some("2023-03-01T07:00:00"));
    let (s, m) = plan_wake(wake_candidate(2025, 12, 31, 23, 59), true);
    assert_eq!(s.next_wake.as_deref(), Some("2026-01-01T23:59:00"));
    assert_eq!(m, "Wake scheduled for 2026-01-01T23:59:00");
    assert_eq!(s.alarm_time.as_deref(), Some("23:59"));
    let (s, _) = plan_wake(wake_candidate(1900, 2, 28, 0, 0), true);
    assert_eq!(s.next_wake.as_deref(), Some("1900-03-01T00:00:00"));
}

#[test]
fn wake_years_are_padded() {
    let (s, _) = plan_wake(wake_candidate(987, 1, 2, 3, 4), false);
    assert_eq!(s.next_wake.as_deref(), Some("0987-01-02T03:04:00"));
}

#[test]
fn scheduled_wake_takes_the_text_as_given() {
    let (s, m) = scheduled_wake("+12345-01-01T00:00:00".to_string(), 9, 15);
    assert_eq!(s.next_wake.as_deref(), Some("+12345-01-01T00:00:00"));
    assert_eq!(s.alarm_time.as_deref(), Some("09:15"));
    assert!(s.enabled);
    assert_eq!(m, "Wake scheduled for +12345-01-01T00:00:00");
}

#[test]
fn wake_years_outside_four_digits_carry_a_sign() {
    let (s, _) = plan_wake(wake_candidate(9999, 12, 31, 8, 0), true);
    assert_eq!(s.next_wake.as_deref(), Some("+10000-01-01T08:00:00"));
    let (s, _) = plan_wake(wake_candidate(-5, 3, 1, 8, 0), false);
    assert_eq!(s.next_wake.as_deref(), Some("-0005-03-01T08:00:00"));
    let (s, _) = plan_wake(wake_candidate(-1, 12, 31, 8, 0), true);
    assert_eq!(s.next_wake.as_deref(), Some("0000-01-01T08:00:00"));
    let (s, _) = plan_wake(wake_candidate(-4, 2, 28, 8, 0), true);
    assert_eq!(s.next_wake.as_deref(), Some("-0004-02-29T08:00:00"));
}

#[test]
fn wake_has_passed_when_not_after_now() {
    let t = |seconds, nanos| Timestamp { seconds, nanos };
    assert!(wake_time_has_passed(t(100, 0), t(100, 0)));
    assert!(wake_time_has_passed(t(99, 999_999_999), t(100, 0)));
    assert!(!wake_time_has_passed(t(100, 1), t(100, 0)));
    assert!(!wake_time_has_passed(t(101, 0), t(100, 500)));
    assert!(wake_time_has_passed(t(100, 500), t(100, 1_000_000_500)));
}
