use floatsort::config::{AppConfig, ScheduleType, TriggerMode, WatchFolder};
use floatsort::models::Timestamp;
use floatsort::monitor::{
    is_temporary_file, monitored_folders, FileSnapshot, MonitorError, Observation, Stability,
    StabilityTracker,
};
use floatsort::scheduler::{
    calculate_next_execution, daily_wait, is_temp_file, next_step, on_startup_folders,
    scheduled_folders, weekly_wait, LocalTime, ScheduleStep, WaitDuration,
};

fn sample(size: u64) -> Observation {
    Observation::Sampled(FileSnapshot { size, modified: Timestamp { secs: 5, nanos: 0 } })
}

fn folder(id: &str, enabled: bool, mode: TriggerMode) -> WatchFolder {
    WatchFolder {
        id: id.to_string(),
        path: format!("/w/{}", id),
        name: id.to_string(),
        enabled,
        rule_ids: vec![],
        processing_mode: None,
        trigger_mode: mode,
        schedule_type: None,
        schedule_interval_minutes: None,
        schedule_daily_time: None,
        schedule_weekly_day: None,
        schedule_weekly_time: None,
    }
}

fn at(weekday_from_monday: u32, h: u32, m: u32) -> LocalTime {
    LocalTime { weekday_from_monday, seconds_of_day: h * 3600 + m * 60, nanos: 0 }
}

#[test]
fn transient_names_are_discarded() {
    assert!(is_temporary_file("~$budget.xlsx"));
    assert!(is_temporary_file("movie.mp4.crdownload"));
    assert!(is_temporary_file("draft.txt~"));
    assert!(is_temporary_file("report.tmp.docx"));
    assert!(is_temporary_file("~RF1234.TMP"));
    assert!(!is_temporary_file("budget.xlsx"));
}

#[test]
fn scan_skips_hidden_and_partial_files() {
    assert!(is_temp_file(".DS_Store"));
    assert!(is_temp_file("~$budget.xlsx"));
    assert!(is_temp_file("song.part"));
    assert!(!is_temp_file("song.mp3"));
}

#[test]
fn changing_size_never_becomes_stable() {
    let mut t = StabilityTracker::new(2);
    for size in [1u64, 2, 3] {
        assert_eq!(t.state(), Stability::Sampling);
        t.record(sample(size));
    }
    assert_eq!(t.state(), Stability::Sampling);
    t.record(sample(4));
    assert_eq!(t.state(), Stability::TimedOut);
}

#[test]
fn identical_samples_become_stable() {
    let mut t = StabilityTracker::new(2);
    t.record(sample(7));
    assert_eq!(t.state(), Stability::Sampling);
    t.record(sample(7));
    assert_eq!(t.state(), Stability::Sampling);
    t.record(sample(7));
    assert_eq!(t.state(), Stability::Stable);
}

#[test]
fn a_lock_resets_the_run() {
    let mut t = StabilityTracker::new(2);
    t.record(sample(7));
    t.record(sample(7));
    t.record(Observation::Locked);
    assert_eq!(t.state(), Stability::Sampling);
    t.record(sample(7));
    assert_eq!(t.state(), Stability::TimedOut);
}

#[test]
fn unreadable_metadata_drops_the_file() {
    let mut t = StabilityTracker::new(3);
    t.record(Observation::Unreadable);
    assert_eq!(t.state(), Stability::Unreadable);
}

#[test]
fn zero_required_checks_times_out_at_once() {
    assert_eq!(StabilityTracker::new(0).state(), Stability::TimedOut);
}

#[test]
fn monitoring_needs_an_enabled_folder() {
    let mut c = AppConfig::default();
    c.folders = vec![folder("a", false, TriggerMode::Manual)];
    assert_eq!(monitored_folders(&c), Err(MonitorError::NoEnabledFolder));
    c.folders.push(folder("b", true, TriggerMode::Immediate));
    assert_eq!(monitored_folders(&c), Ok(vec![1]));
}

#[test]
fn folders_are_selected_by_trigger() {
    let mut c = AppConfig::default();
    c.folders = vec![
        folder("a", true, TriggerMode::OnStartup),
        folder("b", true, TriggerMode::Scheduled),
        folder("c", false, TriggerMode::OnStartup),
        folder("d", true, TriggerMode::OnStartup),
    ];
    assert_eq!(on_startup_folders(&c), vec![0, 3]);
    assert_eq!(scheduled_folders(&c), vec![1]);
}

#[test]
fn daily_before_and_after_the_time() {
    assert_eq!(daily_wait(at(2, 8, 0), 9, 0), WaitDuration { secs: 3600, nanos: 0 });
    assert_eq!(daily_wait(at(2, 9, 30), 9, 0), WaitDuration { secs: 23 * 3600 + 1800, nanos: 0 });
    assert_eq!(daily_wait(at(2, 9, 0), 9, 0), WaitDuration { secs: 24 * 3600, nanos: 0 });
}

#[test]
fn daily_folder_waits_for_configured_time() {
    let mut f = folder("d", true, TriggerMode::Scheduled);
    f.schedule_type = Some(ScheduleType::Daily);
    f.schedule_daily_time = Some("09:00".to_string());
    let now = LocalTime { weekday_from_monday: 0, seconds_of_day: 8 * 3600, nanos: 250_000_000 };
    assert_eq!(
        calculate_next_execution(&f, now),
        Some(WaitDuration { secs: 3599, nanos: 750_000_000 })
    );
    f.schedule_daily_time = None;
    assert_eq!(calculate_next_execution(&f, at(0, 9, 30)), Some(WaitDuration { secs: 84_600, nanos: 0 }));
    f.schedule_daily_time = Some("nine".to_string());
    assert_eq!(calculate_next_execution(&f, at(0, 9, 30)), None);
}

#[test]
fn weekly_counts_from_sunday_zero() {
    // Wednesday 10:00; Friday is 5 in configuration.
    assert_eq!(weekly_wait(at(2, 10, 0), 5, 10, 0), WaitDuration { secs: 2 * 86_400, nanos: 0 });
    // Sunday (0) from Wednesday: four days ahead.
    assert_eq!(weekly_wait(at(2, 10, 0), 0, 10, 0), WaitDuration { secs: 4 * 86_400, nanos: 0 });
    // Same weekday, time passed: next week.
    assert_eq!(weekly_wait(at(2, 10, 0), 3, 9, 0), WaitDuration { secs: 7 * 86_400 - 3600, nanos: 0 });
    // Same weekday, time ahead: today.
    assert_eq!(weekly_wait(at(2, 8, 0), 3, 9, 0), WaitDuration { secs: 3600, nanos: 0 });
}

#[test]
fn interval_and_missing_schedule() {
    let mut f = folder("i", true, TriggerMode::Scheduled);
    assert_eq!(
        next_step(&f, at(0, 0, 0)),
        ScheduleStep::RetryAfter(WaitDuration { secs: 60, nanos: 0 })
    );
    f.schedule_type = Some(ScheduleType::Interval);
    assert_eq!(calculate_next_execution(&f, at(0, 0, 0)), Some(WaitDuration { secs: 1800, nanos: 0 }));
    f.schedule_interval_minutes = Some(5);
    assert_eq!(
        next_step(&f, at(0, 0, 0)),
        ScheduleStep::ScanAfter(WaitDuration { secs: 300, nanos: 0 })
    );
}
