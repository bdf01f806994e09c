//! Scheduler decisions: which folders run at startup or on a timer, how long
//! to wait before a scheduled folder's next scan, and which files a scan emits.

use vstd::prelude::*;
use vstd::string::StringExecFns;
use crate::clock::{hour_minute_of, parse_hour_minute};
use crate::config::{AppConfig, ScheduleType, TriggerMode, WatchFolder};
use crate::text::{ends_with, has_prefix, has_suffix, starts_with};

verus! {

pub const NANOS_PER_SEC: u64 = 1_000_000_000;

pub const SECS_PER_DAY: u64 = 86_400;

/// Seconds to wait before retrying a folder whose next run cannot be computed.
pub const RETRY_DELAY_SECS: u64 = 60;

/// Interval used when an interval folder gives none, in minutes.
pub const DEFAULT_INTERVAL_MINUTES: u32 = 30;

/// A reading of the local wall clock.
#[derive(Clone, Copy, Debug, PartialEq, Eq, Structural)]
pub struct LocalTime {
    /// 0 = Monday, ..., 6 = Sunday.
    pub weekday_from_monday: u32,
    pub seconds_of_day: u32,
    pub nanos: u32,
}

impl LocalTime {
    pub open spec fn wf(&self) -> bool {
        self.weekday_from_monday < 7 && self.seconds_of_day < 86_400 && self.nanos < 1_000_000_000
    }

    /// Nanoseconds since local midnight.
    pub open spec fn nanos_of_day(&self) -> int {
        self.seconds_of_day * 1_000_000_000 + self.nanos
    }
}

/// A span of time: whole seconds and the nanoseconds past them.
#[derive(Clone, Copy, Debug, PartialEq, Eq, Structural)]
pub struct WaitDuration {
    pub secs: u64,
    pub nanos: u32,
}

impl WaitDuration {
    pub open spec fn total_nanos(&self) -> int {
        self.secs * 1_000_000_000 + self.nanos
    }

    pub open spec fn wf(&self) -> bool {
        self.nanos < 1_000_000_000
    }
}

/// Nanoseconds from local midnight to hour:minute.
pub open spec fn clock_nanos(hour: int, minute: int) -> int {
    (hour * 3600 + minute * 60) * 1_000_000_000
}

/// Whole days until the next hour:minute: today if it is still ahead, else tomorrow.
pub open spec fn daily_days_ahead(now: LocalTime, hour: int, minute: int) -> int {
    if now.nanos_of_day() >= clock_nanos(hour, minute) {
        1
    } else {
        0
    }
}

/// A configured weekday (0 = Sunday, 1 = Monday, ...) counted from Monday.
pub open spec fn weekday_from_monday(day: int) -> int {
    if day == 0 {
        6
    } else {
        day - 1
    }
}

/// Whole days until the next configured weekday at hour:minute; the same
/// weekday counts when the time is still ahead, else it is a week away.
pub open spec fn weekly_days_ahead(now: LocalTime, day: int, hour: int, minute: int) -> int {
    let current = now.weekday_from_monday as int;
    let target = weekday_from_monday(day);
    if current < target {
        target - current
    } else if current > target {
        7 - (current - target)
    } else if now.nanos_of_day() >= clock_nanos(hour, minute) {
        7
    } else {
        0
    }
}

/// Nanoseconds from `now` to hour:minute, `days` days ahead.
pub open spec fn wait_nanos(now: LocalTime, days: int, hour: int, minute: int) -> int {
    days * 86_400_000_000_000 + clock_nanos(hour, minute) - now.nanos_of_day()
}

/// How long a scheduled folder waits before its next scan at `now`, in
/// nanoseconds; `None` when the schedule cannot be computed.
pub open spec fn next_wait(f: WatchFolder, now: LocalTime) -> Option<int> {
    match f.schedule_type {
        Some(ScheduleType::Interval) => {
            let minutes = match f.schedule_interval_minutes {
                Some(m) => m,
                None => DEFAULT_INTERVAL_MINUTES,
            };
            Some(minutes * 60 * 1_000_000_000)
        },
        Some(ScheduleType::Daily) => match hour_minute_of(time_text(f.schedule_daily_time)) {
            Some(t) => Some(wait_nanos(now, daily_days_ahead(now, t.0 as int, t.1 as int), t.0 as int, t.1 as int)),
            None => None,
        },
        Some(ScheduleType::Weekly) => {
            let day = match f.schedule_weekly_day {
                Some(d) => d,
                None => 1,
            };
            match hour_minute_of(time_text(f.schedule_weekly_time)) {
                Some(t) => Some(
                    wait_nanos(
                        now,
                        weekly_days_ahead(now, day as int, t.0 as int, t.1 as int),
                        t.0 as int,
                        t.1 as int,
                    ),
                ),
                None => None,
            }
        },
        None => None,
    }
}

pub open spec fn time_text(t: Option<String>) -> Seq<char> {
    match t {
        Some(s) => s@,
        None => "09:00"@,
    }
}

fn from_nanos(total: u64) -> (r: WaitDuration)
    ensures
        r.wf(),
        r.total_nanos() == total,
{
    WaitDuration { secs: total / NANOS_PER_SEC, nanos: (total % NANOS_PER_SEC) as u32 }
}

fn time_of_day_nanos(now: LocalTime) -> (r: u64)
    requires
        now.wf(),
    ensures
        r == now.nanos_of_day(),
{
    (now.seconds_of_day as u64) * NANOS_PER_SEC + now.nanos as u64
}

/// The wait from `now` until the next hour:minute: today if that time is
/// still ahead, else tomorrow.
pub fn daily_wait(now: LocalTime, hour: u32, minute: u32) -> (r: WaitDuration)
    requires
        now.wf(),
        hour < 24,
        minute < 60,
    ensures
        r.wf(),
        r.total_nanos() == wait_nanos(now, daily_days_ahead(now, hour as int, minute as int), hour as int, minute as int),
        r.total_nanos() > 0,
{
    let current = time_of_day_nanos(now);
    let target = ((hour as u64) * 3600 + (minute as u64) * 60) * NANOS_PER_SEC;
    let days: u64 = if current >= target { 1 } else { 0 };
    let total = days * SECS_PER_DAY * NANOS_PER_SEC + target - current;
    from_nanos(total)
}

/// The wait from `now` until the next configured weekday (0 = Sunday) at
/// hour:minute; the same weekday counts only while that time is ahead.
pub fn weekly_wait(now: LocalTime, day: u8, hour: u32, minute: u32) -> (r: WaitDuration)
    requires
        now.wf(),
        hour < 24,
        minute < 60,
    ensures
        r.wf(),
        r.total_nanos() == wait_nanos(now, weekly_days_ahead(now, day as int, hour as int, minute as int), hour as int, minute as int),
        r.total_nanos() > 0,
{
    let current = time_of_day_nanos(now);
    let target = ((hour as u64) * 3600 + (minute as u64) * 60) * NANOS_PER_SEC;
    let cur_day = now.weekday_from_monday as u64;
    let target_day: u64 = if day == 0 { 6 } else { (day - 1) as u64 };
    let days: u64 = if cur_day < target_day {
        target_day - cur_day
    } else if cur_day > target_day {
        7 - (cur_day - target_day)
    } else if current >= target {
        7
    } else {
        0
    };
    let total = days * SECS_PER_DAY * NANOS_PER_SEC + target - current;
    from_nanos(total)
}

/// How long a scheduled folder waits before its next scan: the interval for
/// interval folders, else until the configured time (default "09:00") and,
/// for weekly folders, weekday (default Monday). `None` when the folder has
/// no schedule type or its time does not parse as "HH:MM".
pub fn calculate_next_execution(folder: &WatchFolder, now: LocalTime) -> (r: Option<WaitDuration>)
    requires
        now.wf(),
    ensures
        match next_wait(*folder, now) {
            Some(n) => r matches Some(d) && d.wf() && d.total_nanos() == n,
            None => r is None,
        },
{
    match folder.schedule_type {
        Some(ScheduleType::Interval) => {
            let minutes = match folder.schedule_interval_minutes {
                Some(m) => m,
                None => DEFAULT_INTERVAL_MINUTES,
            };
            Some(WaitDuration { secs: (minutes as u64) * 60, nanos: 0 })
        },
        Some(ScheduleType::Daily) => {
            let parsed = match &folder.schedule_daily_time {
                Some(t) => parse_hour_minute(t.as_str()),
                None => parse_hour_minute("09:00"),
            };
            match parsed {
                Some(t) => Some(daily_wait(now, t.0, t.1)),
                None => None,
            }
        },
        Some(ScheduleType::Weekly) => {
            let day = match folder.schedule_weekly_day {
                Some(d) => d,
                None => 1,
            };
            let parsed = match &folder.schedule_weekly_time {
                Some(t) => parse_hour_minute(t.as_str()),
                None => parse_hour_minute("09:00"),
            };
            match parsed {
                Some(t) => Some(weekly_wait(now, day, t.0, t.1)),
                None => None,
            }
        },
        None => None,
    }
}

/// What a scheduled folder's loop does next.
#[derive(Clone, Copy, Debug, PartialEq, Eq, Structural)]
pub enum ScheduleStep {
    /// Sleep this long, then scan the folder.
    ScanAfter(WaitDuration),
    /// The next run cannot be computed: sleep this long and compute again.
    RetryAfter(WaitDuration),
}

/// The next step of a scheduled folder's loop at `now`.
pub fn next_step(folder: &WatchFolder, now: LocalTime) -> (r: ScheduleStep)
    requires
        now.wf(),
    ensures
        match next_wait(*folder, now) {
            Some(n) => r matches ScheduleStep::ScanAfter(d) && d.wf() && d.total_nanos() == n,
            None => r == ScheduleStep::RetryAfter(WaitDuration { secs: RETRY_DELAY_SECS, nanos: 0 }),
        },
{
    match calculate_next_execution(folder, now) {
        Some(d) => ScheduleStep::ScanAfter(d),
        None => ScheduleStep::RetryAfter(WaitDuration { secs: RETRY_DELAY_SECS, nanos: 0 }),
    }
}

/// The positions, in order, of the enabled folders with trigger `mode`.
pub open spec fn folders_with_trigger(folders: Seq<WatchFolder>, mode: TriggerMode, r: Seq<usize>) -> bool {
    &&& forall|j: int| 0 <= j < r.len() ==> (#[trigger] r[j]) < folders.len()
        && folders[r[j] as int].enabled && folders[r[j] as int].trigger_mode == mode
    &&& forall|j: int, k: int| 0 <= j < k < r.len() ==> #[trigger] r[j] < #[trigger] r[k]
    &&& forall|i: int| 0 <= i < folders.len() && (#[trigger] folders[i]).enabled
        && folders[i].trigger_mode == mode ==> r.contains(i as usize)
}

fn select_folders(folders: &Vec<WatchFolder>, mode: TriggerMode) -> (r: Vec<usize>)
    ensures
        folders_with_trigger(folders@, mode, r@),
{
    let mut out: Vec<usize> = Vec::new();
    let mut i: usize = 0;
    while i < folders.len()
        invariant
            i <= folders@.len(),
            forall|j: int| 0 <= j < out@.len() ==> (#[trigger] out@[j]) < i
                && folders@[out@[j] as int].enabled && folders@[out@[j] as int].trigger_mode == mode,
            forall|j: int, k: int| 0 <= j < k < out@.len() ==> #[trigger] out@[j] < #[trigger] out@[k],
            forall|m: int| 0 <= m < i && (#[trigger] folders@[m]).enabled
                && folders@[m].trigger_mode == mode ==> out@.contains(m as usize),
        decreases folders@.len() - i,
    {
        if folders[i].enabled && folders[i].trigger_mode == mode {
            let ghost before = out@;
            out.push(i);
            proof {
                assert forall|m: int| 0 <= m < i + 1 && (#[trigger] folders@[m]).enabled
                    && folders@[m].trigger_mode == mode implies out@.contains(m as usize) by {
                    if m < i {
                        let w = choose|w: int| 0 <= w < before.len() && before[w] == m as usize;
                        assert(out@[w] == m as usize);
                    } else {
                        assert(out@[before.len() as int] == i);
                    }
                }
            }
        }
        i = i + 1;
    }
    out
}

/// The enabled folders that are scanned once when monitoring starts.
pub fn on_startup_folders(config: &AppConfig) -> (r: Vec<usize>)
    ensures
        folders_with_trigger(config.folders@, TriggerMode::OnStartup, r@),
{
    select_folders(&config.folders, TriggerMode::OnStartup)
}

/// The enabled folders that run on a timer.
pub fn scheduled_folders(config: &AppConfig) -> (r: Vec<usize>)
    ensures
        folders_with_trigger(config.folders@, TriggerMode::Scheduled, r@),
{
    select_folders(&config.folders, TriggerMode::Scheduled)
}

/// Names a periodic scan passes over: Office lock files ("~$"), hidden
/// files, and partial or temporary downloads.
pub open spec fn scan_skips(name: Seq<char>) -> bool {
    has_prefix(name, "~$"@) || has_prefix(name, "."@) || has_suffix(name, ".tmp"@) || has_suffix(
        name,
        ".temp"@,
    ) || has_suffix(name, ".crdownload"@) || has_suffix(name, ".part"@) || has_suffix(
        name,
        ".download"@,
    )
}

/// Whether a periodic scan passes over a file of this name.
pub fn is_temp_file(name: &str) -> (r: bool)
    ensures
        r == scan_skips(name@),
{
    starts_with(name, "~$") || starts_with(name, ".") || ends_with(name, ".tmp") || ends_with(
        name,
        ".temp",
    ) || ends_with(name, ".crdownload") || ends_with(name, ".part") || ends_with(name, ".download")
}

} // verus!
