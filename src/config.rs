//! Configuration snapshot: watched folders, their triggers, and global settings.

use vstd::prelude::*;
use vstd::string::StringExecFns;
use crate::models::{ConflictStrategy, Rule, RuleAction, RuleCondition};
use crate::paths::{file_name, file_name_of};
use crate::rule_engine::string_views;
use crate::text::{decimal, push_decimal};

verus! {

/// When a folder's files are evaluated.
#[derive(Clone, Copy, Debug, PartialEq, Eq, Structural)]
pub enum TriggerMode {
    /// On each change, processed at once.
    Immediate,
    /// On each change, processed after confirmation.
    Manual,
    /// Once, when monitoring starts.
    OnStartup,
    /// On a recurring timer.
    Scheduled,
}

impl Default for TriggerMode {
    fn default() -> (r: Self)
        ensures
            r == TriggerMode::Manual,
    {
        TriggerMode::Manual
    }
}

/// The recurrence of a scheduled folder.
#[derive(Clone, Copy, Debug, PartialEq, Eq, Structural)]
pub enum ScheduleType {
    /// Every N minutes.
    Interval,
    /// Every day at "HH:MM".
    Daily,
    /// Every week on a weekday (0 = Sunday) at "HH:MM".
    Weekly,
}

/// Processing mode of older configurations, superseded by `TriggerMode`.
#[derive(Clone, Copy, Debug, PartialEq, Eq, Structural)]
pub enum ProcessingMode {
    Auto,
    Manual,
}

impl Default for ProcessingMode {
    fn default() -> (r: Self)
        ensures
            r == ProcessingMode::Manual,
    {
        ProcessingMode::Manual
    }
}

/// A directory configured for monitoring.
#[derive(Debug, Clone)]
pub struct WatchFolder {
    pub id: String,
    pub path: String,
    /// Display name.
    pub name: String,
    pub enabled: bool,
    /// The rules that apply to this folder.
    pub rule_ids: Vec<String>,
    /// Older configurations only; migrated into `trigger_mode`.
    pub processing_mode: Option<ProcessingMode>,
    pub trigger_mode: TriggerMode,
    pub schedule_type: Option<ScheduleType>,
    /// For `Interval`.
    pub schedule_interval_minutes: Option<u32>,
    /// For `Daily`: "HH:MM".
    pub schedule_daily_time: Option<String>,
    /// For `Weekly`: 0 = Sunday, 1 = Monday, ..., 6 = Saturday.
    pub schedule_weekly_day: Option<u8>,
    /// For `Weekly`: "HH:MM".
    pub schedule_weekly_time: Option<String>,
}

pub open spec fn migrated_mode(m: ProcessingMode) -> TriggerMode {
    match m {
        ProcessingMode::Auto => TriggerMode::Immediate,
        ProcessingMode::Manual => TriggerMode::Manual,
    }
}

/// A folder after its processing mode has moved into its trigger mode.
pub open spec fn with_migrated_mode(f: WatchFolder) -> WatchFolder {
    match f.processing_mode {
        Some(m) => WatchFolder { trigger_mode: migrated_mode(m), processing_mode: None, ..f },
        None => f,
    }
}

pub open spec fn weekday_label(day: u8) -> Seq<char> {
    if day == 0 { "周日"@ }
    else if day == 1 { "周一"@ }
    else if day == 2 { "周二"@ }
    else if day == 3 { "周三"@ }
    else if day == 4 { "周四"@ }
    else if day == 5 { "周五"@ }
    else if day == 6 { "周六"@ }
    else { "周一"@ }
}

pub open spec fn time_or_default(t: Option<String>) -> Seq<char> {
    match t {
        Some(s) => s@,
        None => "09:00"@,
    }
}

/// The text that describes a folder's trigger.
pub open spec fn trigger_text(f: WatchFolder) -> Seq<char> {
    match f.trigger_mode {
        TriggerMode::Immediate => "🚀 立即执行"@,
        TriggerMode::Manual => "✋ 手动确认"@,
        TriggerMode::OnStartup => "🔄 启动时执行"@,
        TriggerMode::Scheduled => match f.schedule_type {
            Some(ScheduleType::Interval) => {
                let minutes = match f.schedule_interval_minutes {
                    Some(m) => m,
                    None => 30,
                };
                if minutes < 60 {
                    "⏱️ 每"@ + decimal(minutes as nat) + "分钟"@
                } else {
                    "⏱️ 每"@ + decimal((minutes / 60) as nat) + "小时"@
                }
            },
            Some(ScheduleType::Daily) => "⏰ 每天 "@ + time_or_default(f.schedule_daily_time),
            Some(ScheduleType::Weekly) => {
                let day = match f.schedule_weekly_day {
                    Some(d) => d,
                    None => 1,
                };
                "📅 每"@ + weekday_label(day) + " "@ + time_or_default(f.schedule_weekly_time)
            },
            None => "⏱️ 定时执行"@,
        },
    }
}

fn weekday_name(day: u8) -> (r: &'static str)
    ensures
        r@ == weekday_label(day),
{
    if day == 0 { "周日" }
    else if day == 1 { "周一" }
    else if day == 2 { "周二" }
    else if day == 3 { "周三" }
    else if day == 4 { "周四" }
    else if day == 5 { "周五" }
    else if day == 6 { "周六" }
    else { "周一" }
}

fn append_time(s: &mut String, t: &Option<String>)
    ensures
        final(s)@ == old(s)@ + time_or_default(*t),
{
    match t {
        Some(x) => s.append(x.as_str()),
        None => s.append("09:00"),
    }
}

impl WatchFolder {
    /// Moves an older configuration's processing mode into the trigger mode
    /// (Auto becomes Immediate, Manual stays Manual) and clears it.
    pub fn migrate_processing_mode(&mut self)
        ensures
            *final(self) == with_migrated_mode(*old(self)),
    {
        match self.processing_mode {
            Some(m) => {
                self.trigger_mode = match m {
                    ProcessingMode::Auto => TriggerMode::Immediate,
                    ProcessingMode::Manual => TriggerMode::Manual,
                };
                self.processing_mode = None;
            },
            None => {},
        }
    }

    /// The text that describes this folder's trigger.
    pub fn get_trigger_display(&self) -> (r: String)
        ensures
            r@ == trigger_text(*self),
    {
        match self.trigger_mode {
            TriggerMode::Immediate => String::from_str("🚀 立即执行"),
            TriggerMode::Manual => String::from_str("✋ 手动确认"),
            TriggerMode::OnStartup => String::from_str("🔄 启动时执行"),
            TriggerMode::Scheduled => match self.schedule_type {
                Some(ScheduleType::Interval) => {
                    let minutes = match self.schedule_interval_minutes {
                        Some(m) => m,
                        None => 30,
                    };
                    let mut s = String::from_str("⏱️ 每");
                    if minutes < 60 {
                        push_decimal(&mut s, minutes as u64);
                        s.append("分钟");
                    } else {
                        push_decimal(&mut s, (minutes / 60) as u64);
                        s.append("小时");
                    }
                    s
                },
                Some(ScheduleType::Daily) => {
                    let mut s = String::from_str("⏰ 每天 ");
                    append_time(&mut s, &self.schedule_daily_time);
                    s
                },
                Some(ScheduleType::Weekly) => {
                    let day = match self.schedule_weekly_day {
                        Some(d) => d,
                        None => 1,
                    };
                    let mut s = String::from_str("📅 每");
                    s.append(weekday_name(day));
                    s.append(" ");
                    append_time(&mut s, &self.schedule_weekly_time);
                    s
                },
                None => String::from_str("⏱️ 定时执行"),
            },
        }
    }
}

/// Application configuration.
#[derive(Debug, Clone)]
pub struct AppConfig {
    /// Format version, for migration.
    pub version: u32,
    pub folders: Vec<WatchFolder>,
    /// The global rule library.
    pub rules: Vec<Rule>,
    pub show_notifications: bool,
    pub log_level: String,
    /// Number of files above which a batch needs confirmation.
    pub batch_threshold: u32,
    pub window_width: u32,
    pub window_height: u32,
    /// "none", "fade" or "slide".
    pub animation: String,
    /// "fast", "normal" or "slow".
    pub animation_speed: String,
    /// Seconds to wait after detection before checking stability.
    pub file_stability_delay: u32,
    /// Consecutive identical samples needed to call a file stable.
    pub file_stability_checks: u32,
    /// Version 1 only: watched paths.
    pub watch_paths: Option<Vec<String>>,
    /// Version 1 only: whether watching started by itself.
    pub auto_start: Option<bool>,
}

pub fn default_version() -> (r: u32)
    ensures
        r == 2,
{
    2
}

pub fn default_batch_threshold() -> (r: u32)
    ensures
        r == 1,
{
    1
}

pub fn default_window_width() -> (r: u32)
    ensures
        r == 360,
{
    360
}

pub fn default_window_height() -> (r: u32)
    ensures
        r == 520,
{
    520
}

pub fn default_animation() -> (r: String)
    ensures
        r@ == "none"@,
{
    String::from_str("none")
}

pub fn default_animation_speed() -> (r: String)
    ensures
        r@ == "normal"@,
{
    String::from_str("normal")
}

/// Seconds.
pub fn default_stability_delay() -> (r: u32)
    ensures
        r == 3,
{
    3
}

pub fn default_stability_checks() -> (r: u32)
    ensures
        r == 2,
{
    2
}

/// The settings that a configuration takes from the defaults.
pub open spec fn default_settings(c: AppConfig) -> bool {
    &&& c.version == 2
    &&& c.batch_threshold == 1
    &&& c.window_width == 360
    &&& c.window_height == 520
    &&& c.animation@ == "none"@
    &&& c.animation_speed@ == "normal"@
    &&& c.file_stability_delay == 3
    &&& c.file_stability_checks == 2
    &&& c.watch_paths is None
    &&& c.auto_start is None
}

/// A built-in rule: enabled, "and", one extension condition, a move, Skip.
pub open spec fn builtin_rule(
    r: Rule,
    id: Seq<char>,
    name: Seq<char>,
    exts: Seq<Seq<char>>,
    dest: Seq<char>,
    priority: i32,
) -> bool {
    &&& r.id@ == id
    &&& r.name@ == name
    &&& r.enabled
    &&& r.logic@ == "and"@
    &&& r.conditions@.len() == 1
    &&& (r.conditions@[0] matches RuleCondition::Extension { values } && string_views(values@)
        == exts)
    &&& (r.action matches RuleAction::MoveTo { destination } && destination@ == dest)
    &&& r.priority == priority
    &&& r.conflict_strategy == ConflictStrategy::Skip
    &&& r.icon is None && r.icon_svg is None && r.color is None
}

fn extension_rule(
    id: &str,
    name: &str,
    exts: Vec<String>,
    dest: &str,
    priority: i32,
) -> (r: Rule)
    ensures
        builtin_rule(r, id@, name@, string_views(exts@), dest@, priority),
{
    let conditions = vec![RuleCondition::Extension { values: exts }];
    Rule {
        id: id.to_owned(),
        name: name.to_owned(),
        enabled: true,
        logic: String::from_str("and"),
        conditions,
        action: RuleAction::MoveTo { destination: dest.to_owned() },
        priority,
        conflict_strategy: ConflictStrategy::Skip,
        icon: None,
        icon_svg: None,
        color: None,
    }
}

impl Default for AppConfig {
    /// No folders, and two rules: images to "Pictures", documents to "Documents".
    fn default() -> (r: Self)
        ensures
            default_settings(r),
            r.folders@.len() == 0,
            r.show_notifications,
            r.log_level@ == "info"@,
            r.rules@.len() == 2,
            builtin_rule(
                r.rules@[0],
                "rule_images"@,
                "图片文件归类"@,
                seq!["jpg"@, "jpeg"@, "png"@, "gif"@, "bmp"@, "svg"@],
                "Pictures"@,
                1,
            ),
            builtin_rule(
                r.rules@[1],
                "rule_documents"@,
                "文档文件归类"@,
                seq!["pdf"@, "doc"@, "docx"@, "txt"@, "md"@],
                "Documents"@,
                2,
            ),
    {
        let images = vec![
            String::from_str("jpg"),
            String::from_str("jpeg"),
            String::from_str("png"),
            String::from_str("gif"),
            String::from_str("bmp"),
            String::from_str("svg"),
        ];
        assert(string_views(images@) =~= seq!["jpg"@, "jpeg"@, "png"@, "gif"@, "bmp"@, "svg"@]);
        let documents = vec![
            String::from_str("pdf"),
            String::from_str("doc"),
            String::from_str("docx"),
            String::from_str("txt"),
            String::from_str("md"),
        ];
        assert(string_views(documents@) =~= seq!["pdf"@, "doc"@, "docx"@, "txt"@, "md"@]);
        let rules = vec![
            extension_rule("rule_images", "图片文件归类", images, "Pictures", 1),
            extension_rule("rule_documents", "文档文件归类", documents, "Documents", 2),
        ];
        AppConfig {
            version: 2,
            folders: Vec::new(),
            rules,
            show_notifications: true,
            log_level: String::from_str("info"),
            batch_threshold: 1,
            window_width: 360,
            window_height: 520,
            animation: String::from_str("none"),
            animation_speed: String::from_str("normal"),
            file_stability_delay: default_stability_delay(),
            file_stability_checks: default_stability_checks(),
            watch_paths: None,
            auto_start: None,
        }
    }
}

/// The folder that version 2 makes of the `k`-th watched path of version 1.
pub open spec fn migrated_folder(
    f: WatchFolder,
    k: int,
    path: Seq<char>,
    enabled: bool,
    rule_ids: Seq<Seq<char>>,
) -> bool {
    &&& f.id@ == "folder_"@ + decimal((k + 1) as nat)
    &&& f.path@ == path
    &&& f.name@ == (match file_name_of(path) {
        Some(n) => n,
        None => "未命名文件夹"@,
    })
    &&& f.enabled == enabled
    &&& string_views(f.rule_ids@) == rule_ids
    &&& f.processing_mode == Some(ProcessingMode::Manual)
    &&& f.trigger_mode == TriggerMode::Manual
    &&& f.schedule_type is None
    &&& f.schedule_interval_minutes is None
    &&& f.schedule_daily_time is None
    &&& f.schedule_weekly_day is None
    &&& f.schedule_weekly_time is None
}

pub open spec fn rule_ids_of(rules: Seq<Rule>) -> Seq<Seq<char>> {
    rules.map_values(|r: Rule| r.id@)
}

fn collect_rule_ids(rules: &Vec<Rule>) -> (r: Vec<String>)
    ensures
        string_views(r@) == rule_ids_of(rules@),
{
    let mut ids: Vec<String> = Vec::new();
    let mut i: usize = 0;
    while i < rules.len()
        invariant
            i <= rules@.len(),
            ids@.len() == i,
            forall|j: int| 0 <= j < i ==> (#[trigger] ids@[j])@ == rules@[j].id@,
        decreases rules@.len() - i,
    {
        ids.push(rules[i].id.clone());
        i = i + 1;
    }
    assert(string_views(ids@) =~= rule_ids_of(rules@));
    ids
}

fn copy_ids(ids: &Vec<String>) -> (r: Vec<String>)
    ensures
        string_views(r@) == string_views(ids@),
{
    let mut out: Vec<String> = Vec::new();
    let mut i: usize = 0;
    while i < ids.len()
        invariant
            i <= ids@.len(),
            out@.len() == i,
            forall|j: int| 0 <= j < i ==> (#[trigger] out@[j])@ == ids@[j]@,
        decreases ids@.len() - i,
    {
        out.push(ids[i].clone());
        i = i + 1;
    }
    assert(string_views(out@) =~= string_views(ids@));
    out
}

impl AppConfig {
    /// Turns a version 1 configuration into version 2: each watched path
    /// becomes a folder (enabled when version 1 started by itself) that uses
    /// every rule; rules, notifications and log level carry over, everything
    /// else takes its default.
    pub fn migrate_v1_to_v2(old_config: AppConfig) -> (r: AppConfig)
        ensures
            default_settings(r),
            r.rules == old_config.rules,
            r.show_notifications == old_config.show_notifications,
            r.log_level == old_config.log_level,
            r.folders@.len() == match old_config.watch_paths {
                Some(p) => p@.len(),
                None => 0,
            },
            forall|k: int|
                0 <= k < r.folders@.len() ==> migrated_folder(
                    #[trigger] r.folders@[k],
                    k,
                    old_config.watch_paths.unwrap()@[k]@,
                    match old_config.auto_start {
                        Some(b) => b,
                        None => false,
                    },
                    rule_ids_of(old_config.rules@),
                ),
    {
        let mut folders: Vec<WatchFolder> = Vec::new();
        let enabled = match old_config.auto_start {
            Some(b) => b,
            None => false,
        };
        let ids = collect_rule_ids(&old_config.rules);
        match &old_config.watch_paths {
            Some(paths) => {
                let mut k: usize = 0;
                while k < paths.len()
                    invariant
                        old_config.watch_paths == Some(*paths),
                        k <= paths@.len(),
                        folders@.len() == k,
                        string_views(ids@) == rule_ids_of(old_config.rules@),
                        forall|j: int|
                            0 <= j < k ==> migrated_folder(
                                #[trigger] folders@[j],
                                j,
                                paths@[j]@,
                                enabled,
                                rule_ids_of(old_config.rules@),
                            ),
                    decreases paths@.len() - k,
                {
                    let path = paths[k].clone();
                    let name = match file_name(path.as_str()) {
                        Some(n) => n,
                        None => String::from_str("未命名文件夹"),
                    };
                    let mut id = String::from_str("folder_");
                    push_decimal(&mut id, (k as u64) + 1);
                    let folder = WatchFolder {
                        id,
                        path,
                        name,
                        enabled,
                        rule_ids: copy_ids(&ids),
                        processing_mode: Some(ProcessingMode::Manual),
                        trigger_mode: TriggerMode::Manual,
                        schedule_type: None,
                        schedule_interval_minutes: None,
                        schedule_daily_time: None,
                        schedule_weekly_day: None,
                        schedule_weekly_time: None,
                    };
                    folders.push(folder);
                    k = k + 1;
                }
            },
            None => {},
        }
        AppConfig {
            version: 2,
            folders,
            rules: old_config.rules,
            show_notifications: old_config.show_notifications,
            log_level: old_config.log_level,
            batch_threshold: 1,
            window_width: 360,
            window_height: 520,
            animation: String::from_str("none"),
            animation_speed: String::from_str("normal"),
            file_stability_delay: default_stability_delay(),
            file_stability_checks: default_stability_checks(),
            watch_paths: None,
            auto_start: None,
        }
    }
}

impl AppConfig {
    /// Moves every folder's processing mode into its trigger mode; `true` when
    /// some folder had one, so that the configuration should be written back.
    pub fn migrate_folder_modes(&mut self) -> (changed: bool)
        ensures
            final(self).folders@.len() == old(self).folders@.len(),
            forall|i: int|
                0 <= i < old(self).folders@.len() ==> #[trigger] final(self).folders@[i]
                    == with_migrated_mode(old(self).folders@[i]),
            changed == exists|i: int|
                0 <= i < old(self).folders@.len() && (#[trigger] old(self).folders@[i]).processing_mode
                    is Some,
            final(self).version == old(self).version,
            final(self).rules == old(self).rules,
    {
        let ghost start = self.folders@;
        let mut changed = false;
        let mut i: usize = 0;
        while i < self.folders.len()
            invariant
                self.folders@.len() == start.len(),
                i <= start.len(),
                self.version == old(self).version,
                self.rules == old(self).rules,
                start == old(self).folders@,
                forall|k: int| 0 <= k < i ==> #[trigger] self.folders@[k] == with_migrated_mode(start[k]),
                forall|k: int| i <= k < start.len() ==> #[trigger] self.folders@[k] == start[k],
                changed == exists|k: int| 0 <= k < i && (#[trigger] start[k]).processing_mode is Some,
            decreases start.len() - i,
        {
            if self.folders[i].processing_mode.is_some() {
                changed = true;
            }
            self.folders[i].migrate_processing_mode();
            i = i + 1;
        }
        changed
    }
}

} // verus!
