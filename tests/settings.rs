use floatsort::config::{AppConfig, ProcessingMode, ScheduleType, TriggerMode, WatchFolder};
use floatsort::i18n::{translate, Localizer};
use floatsort::models::{default_logic, ConflictStrategy, RuleAction, RuleCondition};

fn folder() -> WatchFolder {
    WatchFolder {
        id: "f".to_string(),
        path: "/w".to_string(),
        name: "w".to_string(),
        enabled: true,
        rule_ids: vec![],
        processing_mode: None,
        trigger_mode: TriggerMode::Scheduled,
        schedule_type: None,
        schedule_interval_minutes: None,
        schedule_daily_time: None,
        schedule_weekly_day: None,
        schedule_weekly_time: None,
    }
}

#[test]
fn trigger_display_texts() {
    let mut f = folder();
    assert_eq!(f.get_trigger_display(), "⏱️ 定时执行");
    f.schedule_type = Some(ScheduleType::Interval);
    assert_eq!(f.get_trigger_display(), "⏱️ 每30分钟");
    f.schedule_interval_minutes = Some(150);
    assert_eq!(f.get_trigger_display(), "⏱️ 每2小时");
    f.schedule_type = Some(ScheduleType::Daily);
    assert_eq!(f.get_trigger_display(), "⏰ 每天 09:00");
    f.schedule_type = Some(ScheduleType::Weekly);
    f.schedule_weekly_day = Some(0);
    f.schedule_weekly_time = Some("18:30".to_string());
    assert_eq!(f.get_trigger_display(), "📅 每周日 18:30");
    f.trigger_mode = TriggerMode::OnStartup;
    assert_eq!(f.get_trigger_display(), "🔄 启动时执行");
}

#[test]
fn processing_mode_migrates_into_trigger_mode() {
    let mut f = folder();
    f.processing_mode = Some(ProcessingMode::Auto);
    f.migrate_processing_mode();
    assert_eq!(f.trigger_mode, TriggerMode::Immediate);
    assert_eq!(f.processing_mode, None);
    f.trigger_mode = TriggerMode::OnStartup;
    f.migrate_processing_mode();
    assert_eq!(f.trigger_mode, TriggerMode::OnStartup);
}

#[test]
fn version_one_configuration_migrates() {
    let mut old = AppConfig::default();
    old.version = 1;
    old.folders = vec![];
    old.watch_paths = Some(vec!["/home/u/Downloads".to_string(), "/".to_string()]);
    old.auto_start = Some(true);
    old.log_level = "debug".to_string();
    let mut c = AppConfig::migrate_v1_to_v2(old);
    assert_eq!(c.version, 2);
    assert_eq!(c.log_level, "debug");
    assert_eq!(c.folders.len(), 2);
    assert_eq!(c.folders[0].id, "folder_1");
    assert_eq!(c.folders[0].name, "Downloads");
    assert_eq!(c.folders[1].id, "folder_2");
    assert_eq!(c.folders[1].name, "未命名文件夹");
    assert!(c.folders[1].enabled);
    assert_eq!(c.folders[0].rule_ids, vec!["rule_images".to_string(), "rule_documents".to_string()]);
    assert!(c.watch_paths.is_none());
    assert!(c.migrate_folder_modes());
    assert_eq!(c.folders[0].trigger_mode, TriggerMode::Manual);
    assert!(!c.migrate_folder_modes());
}

#[test]
fn default_configuration() {
    let c = AppConfig::default();
    assert_eq!(c.rules.len(), 2);
    assert_eq!(c.rules[0].id, "rule_images");
    assert_eq!(c.rules[1].priority, 2);
    assert_eq!(c.rules[1].conflict_strategy, ConflictStrategy::Skip);
    assert!(matches!(&c.rules[0].action, RuleAction::MoveTo { destination } if destination == "Pictures"));
    assert!(matches!(&c.rules[1].conditions[0], RuleCondition::Extension { values } if values.len() == 5));
    assert_eq!(c.file_stability_delay, 3);
    assert_eq!(c.file_stability_checks, 2);
    assert_eq!(default_logic(), "and");
    assert_eq!(ConflictStrategy::default(), ConflictStrategy::Skip);
    assert_eq!(TriggerMode::default(), TriggerMode::Manual);
}

#[test]
fn messages_follow_the_language() {
    let mut l = Localizer::new();
    assert_eq!(l.get_language(), "zh-CN");
    assert_eq!(l.t("file.stable"), "文件已稳定");
    l.set_language("en-US");
    assert_eq!(l.t("file.stable"), "File is stable");
    assert_eq!(l.t("no.such.key"), "no.such.key");
    assert_eq!(translate("window.hidden", "ja-JP"), "ウィンドウをトレイに隠しました");
    assert_eq!(translate("window.hidden", "fr-FR"), "window.hidden");
}
