//! Data model: file snapshots, rule conditions, actions and rules.

use vstd::prelude::*;
use vstd::string::StringExecFns;

verus! {

/// An instant in UTC: whole seconds since the Unix epoch and the nanoseconds
/// past that second (at or above 10^9 only within a leap second).
#[derive(Clone, Copy, Debug, PartialEq, Eq, Structural)]
pub struct Timestamp {
    pub secs: i64,
    pub nanos: u32,
}

/// Nanoseconds since the Unix epoch.
pub open spec fn instant_nanos(t: Timestamp) -> int {
    t.secs * 1_000_000_000 + t.nanos
}

/// Chronological order of two instants.
pub open spec fn earlier(a: Timestamp, b: Timestamp) -> bool {
    a.secs < b.secs || (a.secs == b.secs && a.nanos < b.nanos)
}

impl Timestamp {
    pub fn is_before(&self, other: &Timestamp) -> (r: bool)
        ensures
            r == earlier(*self, *other),
    {
        self.secs < other.secs || (self.secs == other.secs && self.nanos < other.nanos)
    }
}

/// Snapshot of one filesystem entry, taken once per processing attempt.
#[derive(Debug, Clone)]
pub struct FileInfo {
    pub path: String,
    pub name: String,
    pub extension: String,
    pub size: u64,
    pub created_at: Option<Timestamp>,
    pub modified_at: Option<Timestamp>,
    pub is_directory: bool,
}

/// One predicate of a rule; all conditions of a rule must hold.
#[derive(Debug, Clone)]
pub enum RuleCondition {
    /// "file", "folder" or "both".
    FileType { file_type: String },
    /// Extension in the set, compared case-insensitively.
    Extension { values: Vec<String> },
    /// Size in bytes within the inclusive bounds that are given.
    SizeRange { min: Option<u64>, max: Option<u64> },
    /// Case-insensitive substring of the file name.
    NameContains { pattern: String },
    /// Regular expression found in the file name; its groups are kept.
    NameRegex { pattern: String },
    /// Whole days since creation within the inclusive bounds that are given.
    CreatedDaysAgo { min: Option<u64>, max: Option<u64> },
    /// Whole days since modification within the inclusive bounds that are given.
    ModifiedDaysAgo { min: Option<u64>, max: Option<u64> },
    /// Creation time "before"/"after" a "relative" (days ago) or "absolute" (RFC 3339) instant.
    CreatedTime {
        time_type: String,
        comparison: String,
        days: Option<u64>,
        datetime: Option<String>,
    },
    /// Modification time "before"/"after" a "relative" (days ago) or "absolute" (RFC 3339) instant.
    ModifiedTime {
        time_type: String,
        comparison: String,
        days: Option<u64>,
        datetime: Option<String>,
    },
}

/// What to do when the destination already holds a file.
#[derive(Clone, Copy, Debug, PartialEq, Eq, Structural)]
pub enum ConflictStrategy {
    /// Leave the existing file untouched and abandon the operation.
    Skip,
    /// Replace the existing file.
    Overwrite,
    /// Write under the first free " (copy)" / " (copy N)" name.
    Rename,
}

impl Default for ConflictStrategy {
    fn default() -> (r: Self)
        ensures
            r == ConflictStrategy::Skip,
    {
        ConflictStrategy::Skip
    }
}

/// What a matched rule does with the file.
#[derive(Debug, Clone)]
pub enum RuleAction {
    /// Move into a destination directory (template); `{recycle}` sends to the trash.
    MoveTo { destination: String },
    /// Copy into a destination directory (template).
    CopyTo { destination: String },
    /// Rename within the same directory (template).
    Rename { pattern: String },
    /// Delete the file.
    Delete,
}

/// An organizing rule.
#[derive(Debug, Clone)]
pub struct Rule {
    pub id: String,
    pub name: String,
    pub enabled: bool,
    /// Always "and": every condition must hold.
    pub logic: String,
    pub conditions: Vec<RuleCondition>,
    pub action: RuleAction,
    /// Lower values are evaluated first.
    pub priority: i32,
    pub conflict_strategy: ConflictStrategy,
    pub icon: Option<String>,
    pub icon_svg: Option<String>,
    pub color: Option<String>,
}

/// A filesystem change seen for a path.
#[derive(Debug, Clone)]
pub struct FileEvent {
    pub event_type: String,
    pub file_path: String,
    pub timestamp: Timestamp,
}

/// The condition combinator every rule uses.
pub fn default_logic() -> (r: String)
    ensures
        r@ == "and"@,
{
    String::from_str("and")
}

} // verus!
