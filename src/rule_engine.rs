//! Rule matching and destination resolution.

use vstd::prelude::*;
use vstd::string::StrSliceExecFns;
use vstd::string::StringExecFns;
use crate::clock::{now_utc, parse_rfc3339, rfc3339_instant, utc_calendar_date, utc_date};
use crate::models::{instant_nanos, FileInfo, Rule, RuleAction, RuleCondition, Timestamp};
use crate::paths::{absolute_path, is_absolute, join_path, joined_path, parent, parent_of};
use crate::text::{
    lemma_decimal_digits, lemma_decimal_injective, lemma_decimal_len_monotonic, lemma_replace_absent,
    lemma_replace_whole, contains, contains_seq, decimal, decimal_string, ends_with, has_suffix, lowercase_of,
    occurs_at, push_decimal, replace_all, replace_str, str_eq, to_lower, zero_padded,
};

verus! {

pub const NANOS_PER_DAY: i128 = 86_400_000_000_000;

pub const SECS_PER_DAY: i128 = 86_400;

// ---------------------------------------------------------------------------
// Regular expressions

pub uninterp spec fn regex_compiles(pattern: Seq<char>) -> bool;

pub uninterp spec fn regex_groups(pattern: Seq<char>, text: Seq<char>) -> Option<
    Seq<Option<Seq<char>>>,
>;

#[verifier::external_type_specification]
#[verifier::external_body]
pub struct ExRegex(regex::Regex);

/// A compiled name pattern, together with the text it was compiled from.
pub struct NamePattern {
    re: regex::Regex,
    source: Ghost<Seq<char>>,
}

impl NamePattern {
    pub closed spec fn source(&self) -> Seq<char> {
        self.source@
    }
}

/// Relies on `regex::Regex::new`: whether a pattern compiles depends on its text alone.
#[verifier::external_body]
fn compile_pattern(pattern: &str) -> (r: Option<NamePattern>)
    ensures
        r.is_some() == regex_compiles(pattern@),
        r matches Some(c) ==> c.source() == pattern@,
{
    match regex::Regex::new(pattern) {
        Ok(re) => Some(NamePattern { re, source: Ghost(pattern@) }),
        Err(_) => None,
    }
}

/// Relies on `regex::Regex::captures`: for the leftmost match in `text`, every
/// group in order (group 0 is the whole match, `None` marks a group that took
/// no part); `None` when the pattern does not match.
#[verifier::external_body]
fn capture_groups(p: &NamePattern, text: &str) -> (r: Option<Vec<Option<String>>>)
    ensures
        r.is_some() == regex_groups(p.source(), text@).is_some(),
        r matches Some(v) ==> option_views(v@) == regex_groups(p.source(), text@).unwrap(),
{
    p.re.captures(text).map(|c| c.iter().map(|m| m.map(|m| m.as_str().to_string())).collect())
}

pub open spec fn option_views(v: Seq<Option<String>>) -> Seq<Option<Seq<char>>> {
    v.map_values(|o: Option<String>| match o { Some(s) => Some(s@), None => None })
}

pub open spec fn string_views(v: Seq<String>) -> Seq<Seq<char>> {
    v.map_values(|s: String| s@)
}

/// The groups of `g` that took part in the match, in order.
pub open spec fn present_groups(g: Seq<Option<Seq<char>>>) -> Seq<Seq<char>>
    decreases g.len(),
{
    if g.len() == 0 {
        seq![]
    } else {
        let rest = present_groups(g.drop_last());
        match g.last() {
            Some(s) => rest.push(s),
            None => rest,
        }
    }
}

/// The numbered groups (1 and up) of a match that took part in it.
pub open spec fn numbered_captures(g: Seq<Option<Seq<char>>>) -> Seq<Seq<char>> {
    if g.len() == 0 {
        seq![]
    } else {
        present_groups(g.subrange(1, g.len() as int))
    }
}

// ---------------------------------------------------------------------------
// Condition semantics

pub open spec fn within(v: int, min: Option<u64>, max: Option<u64>) -> bool {
    (match min { Some(m) => v >= m, None => true }) && (match max {
        Some(m) => v <= m,
        None => true,
    })
}

/// Whole days from `from` to `to`, truncated toward zero.
pub open spec fn whole_days(from: Timestamp, to: Timestamp) -> int {
    let d = instant_nanos(to) - instant_nanos(from);
    if d >= 0 {
        d / (NANOS_PER_DAY as int)
    } else {
        -((-d) / (NANOS_PER_DAY as int))
    }
}

pub open spec fn days_ago_holds(
    stamp: Option<Timestamp>,
    min: Option<u64>,
    max: Option<u64>,
    now: Timestamp,
) -> bool {
    match stamp {
        Some(t) => within(whole_days(t, now), min, max),
        None => false,
    }
}

/// The (seconds, nanoseconds) instant a time condition compares against.
pub open spec fn time_target(
    time_type: Seq<char>,
    days: Option<u64>,
    datetime: Option<Seq<char>>,
    now: Timestamp,
) -> Option<(int, int)> {
    if time_type == "relative"@ {
        match days {
            Some(d) => Some((now.secs - d * SECS_PER_DAY, now.nanos as int)),
            None => None,
        }
    } else if time_type == "absolute"@ {
        match datetime {
            Some(s) => match rfc3339_instant(s) {
                Some(p) => Some((p.0 as int, p.1 as int)),
                None => None,
            },
            None => None,
        }
    } else {
        None
    }
}

pub open spec fn precedes(a: (int, int), b: (int, int)) -> bool {
    a.0 < b.0 || (a.0 == b.0 && a.1 < b.1)
}

pub open spec fn time_holds(
    stamp: Option<Timestamp>,
    time_type: Seq<char>,
    comparison: Seq<char>,
    days: Option<u64>,
    datetime: Option<Seq<char>>,
    now: Timestamp,
) -> bool {
    match stamp {
        None => false,
        Some(t) => match time_target(time_type, days, datetime, now) {
            None => false,
            Some(target) => if comparison == "before"@ {
                precedes((t.secs as int, t.nanos as int), target)
            } else if comparison == "after"@ {
                precedes(target, (t.secs as int, t.nanos as int))
            } else {
                false
            },
        },
    }
}

pub open spec fn opt_view(s: Option<String>) -> Option<Seq<char>> {
    match s {
        Some(x) => Some(x@),
        None => None,
    }
}

/// Some value of the list equals the extension, ignoring case.
pub open spec fn extension_listed(values: Seq<String>, ext: Seq<char>) -> bool {
    exists|i: int| 0 <= i < values.len() && lowercase_of(#[trigger] values[i]@) == lowercase_of(ext)
}

/// Whether one condition holds of a file at instant `now`.
pub open spec fn condition_holds(c: RuleCondition, f: FileInfo, now: Timestamp) -> bool {
    match c {
        RuleCondition::FileType { file_type } => if file_type@ == "file"@ {
            !f.is_directory
        } else if file_type@ == "folder"@ {
            f.is_directory
        } else {
            file_type@ == "both"@
        },
        RuleCondition::Extension { values } => extension_listed(values@, f.extension@),
        RuleCondition::SizeRange { min, max } => within(f.size as int, min, max),
        RuleCondition::NameContains { pattern } => contains_seq(
            lowercase_of(f.name@),
            lowercase_of(pattern@),
        ),
        RuleCondition::NameRegex { pattern } => regex_compiles(pattern@) && regex_groups(
            pattern@,
            f.name@,
        ).is_some(),
        RuleCondition::CreatedDaysAgo { min, max } => days_ago_holds(f.created_at, min, max, now),
        RuleCondition::ModifiedDaysAgo { min, max } => days_ago_holds(
            f.modified_at,
            min,
            max,
            now,
        ),
        RuleCondition::CreatedTime { time_type, comparison, days, datetime } => time_holds(
            f.created_at,
            time_type@,
            comparison@,
            days,
            opt_view(datetime),
            now,
        ),
        RuleCondition::ModifiedTime { time_type, comparison, days, datetime } => time_holds(
            f.modified_at,
            time_type@,
            comparison@,
            days,
            opt_view(datetime),
            now,
        ),
    }
}

/// The captures one condition contributes, or `None` when it fails.
pub open spec fn condition_captures(c: RuleCondition, f: FileInfo, now: Timestamp) -> Option<
    Seq<Seq<char>>,
> {
    match c {
        RuleCondition::NameRegex { pattern } => if !regex_compiles(pattern@) {
            None
        } else {
            match regex_groups(pattern@, f.name@) {
                Some(g) => Some(numbered_captures(g)),
                None => None,
            }
        },
        _ => if condition_holds(c, f, now) {
            Some(seq![])
        } else {
            None
        },
    }
}

/// The captures of a list of conditions, accumulated in order, or `None` when one fails.
pub open spec fn conditions_captures(
    conds: Seq<RuleCondition>,
    f: FileInfo,
    now: Timestamp,
) -> Option<Seq<Seq<char>>>
    decreases conds.len(),
{
    if conds.len() == 0 {
        Some(seq![])
    } else {
        match conditions_captures(conds.drop_last(), f, now) {
            None => None,
            Some(caps) => match condition_captures(conds.last(), f, now) {
                None => None,
                Some(more) => Some(caps + more),
            },
        }
    }
}

/// What a rule's conditions yield for a file: `None` when the list is empty or one fails.
pub open spec fn rule_captures(r: Rule, f: FileInfo, now: Timestamp) -> Option<Seq<Seq<char>>> {
    if r.conditions@.len() == 0 {
        None
    } else {
        conditions_captures(r.conditions@, f, now)
    }
}

pub open spec fn rule_applies(r: Rule, f: FileInfo, now: Timestamp) -> bool {
    r.enabled && rule_captures(r, f, now).is_some()
}

/// Rule `i` is evaluated before rule `j`: lower priority first, then configured order.
pub open spec fn ranks_before(rules: Seq<Rule>, i: int, j: int) -> bool {
    rules[i].priority < rules[j].priority || (rules[i].priority == rules[j].priority && i < j)
}

/// Rule `i` is the one selected for `f`: it applies, and ranks before every other that does.
pub open spec fn selects(rules: Seq<Rule>, f: FileInfo, now: Timestamp, i: int) -> bool {
    &&& 0 <= i < rules.len()
    &&& rule_applies(rules[i], f, now)
    &&& forall|j: int|
        0 <= j < rules.len() && j != i && rule_applies(#[trigger] rules[j], f, now) ==> ranks_before(
            rules,
            i,
            j,
        )
}

// ---------------------------------------------------------------------------
// Placeholder semantics

pub open spec fn dollar_token(k: nat) -> Seq<char> {
    seq!['$'] + decimal(k)
}

pub open spec fn braced_token(k: nat) -> Seq<char> {
    seq!['$', '{'] + decimal(k) + seq!['}']
}

/// `s` with capture `k` put in place of `$k` and of `${k}`.
pub open spec fn capture_step(s: Seq<char>, caps: Seq<Seq<char>>, k: nat) -> Seq<char> {
    replace_all(replace_all(s, dollar_token(k), caps[k - 1]), braced_token(k), caps[k - 1])
}

/// `s` after substituting captures `k`, `k - 1`, ..., 1, in that order, for
/// `$i` and `${i}`. Higher numbers go first, so that `$10` stands for
/// capture 10 and is never read as `$1` followed by "0".
pub open spec fn substitute_captures(s: Seq<char>, caps: Seq<Seq<char>>, k: nat) -> Seq<char>
    decreases k,
{
    if k == 0 {
        s
    } else {
        substitute_captures(capture_step(s, caps, k), caps, (k - 1) as nat)
    }
}

/// The file name without "." and its extension, when it ends so.
pub open spec fn base_name(f: FileInfo) -> Seq<char> {
    let suffix = seq!['.'] + f.extension@;
    if has_suffix(f.name@, suffix) {
        f.name@.subrange(0, f.name@.len() - suffix.len())
    } else {
        f.name@
    }
}

/// A year as chrono's "%Y" writes it: four digits within 0..=9999, else signed.
pub open spec fn year_text(y: int) -> Seq<char> {
    if 0 <= y <= 9999 {
        zero_padded(y as nat, 4)
    } else if y < 0 {
        seq!['-'] + zero_padded((-y) as nat, 4)
    } else {
        seq!['+'] + zero_padded(y as nat, 4)
    }
}

/// A (year, month, day) calendar date.
pub type CalendarDate = (i32, u32, u32);

pub open spec fn date_substituted(s: Seq<char>, date: Option<CalendarDate>) -> Seq<char> {
    match date {
        Some(d) => replace_all(
            replace_all(
                replace_all(s, "{year}"@, year_text(d.0 as int)),
                "{month}"@,
                zero_padded(d.1 as nat, 2),
            ),
            "{day}"@,
            zero_padded(d.2 as nat, 2),
        ),
        None => s,
    }
}

/// A template with its placeholders expanded for file `f`, regex captures
/// `caps` and calendar date `date` (date placeholders stay when there is none).
pub open spec fn expanded(
    template: Seq<char>,
    f: FileInfo,
    caps: Seq<Seq<char>>,
    date: Option<CalendarDate>,
) -> Seq<char> {
    let s = substitute_captures(template, caps, caps.len());
    let s = replace_all(s, "{name}"@, base_name(f));
    let s = replace_all(s, "{ext}"@, f.extension@);
    date_substituted(s, date)
}

/// The instant whose date fills the date placeholders, when the file has one.
pub open spec fn file_stamp(f: FileInfo) -> Option<Timestamp> {
    match f.modified_at {
        Some(t) => Some(t),
        None => f.created_at,
    }
}

/// The file's own calendar date, when it has a time stamp within chrono's range.
pub open spec fn file_date(f: FileInfo) -> Option<CalendarDate> {
    match file_stamp(f) {
        Some(t) => utc_calendar_date(t.secs as int),
        None => None,
    }
}

/// The date that fills the date placeholders at instant `now`: the file's
/// own (modification, else creation) when it has one, else the UTC date of `now`.
pub open spec fn placeholder_date(f: FileInfo, now: Timestamp) -> Option<CalendarDate> {
    if file_date(f) is Some {
        file_date(f)
    } else {
        utc_calendar_date(now.secs as int)
    }
}

pub open spec fn recycle_sentinel() -> Seq<char> {
    "{recycle}"@
}

/// Where an action sends the file, for the given captures and date.
pub open spec fn destination_text(
    action: RuleAction,
    f: FileInfo,
    base: Seq<char>,
    caps: Seq<Seq<char>>,
    date: Option<CalendarDate>,
) -> Option<Seq<char>> {
    match action {
        RuleAction::MoveTo { destination } => placed(destination@, f, base, caps, date),
        RuleAction::CopyTo { destination } => placed(destination@, f, base, caps, date),
        RuleAction::Rename { pattern } => match parent_of(f.path@) {
            Some(dir) => Some(joined_path(dir, expanded(pattern@, f, caps, date))),
            None => None,
        },
        RuleAction::Delete => None,
    }
}

pub open spec fn placed(
    destination: Seq<char>,
    f: FileInfo,
    base: Seq<char>,
    caps: Seq<Seq<char>>,
    date: Option<CalendarDate>,
) -> Option<Seq<char>> {
    if destination == recycle_sentinel() {
        Some(recycle_sentinel())
    } else {
        let resolved = expanded(destination, f, caps, date);
        if absolute_path(resolved) {
            Some(resolved)
        } else {
            Some(joined_path(base, resolved))
        }
    }
}

/// The outcome `found` (rule and captures) is right for `f` at `now`: nothing
/// when no rule applies, else the selected rule with its captures.
pub open spec fn match_outcome(
    rules: Seq<Rule>,
    f: FileInfo,
    now: Timestamp,
    found: Option<(Rule, Seq<Seq<char>>)>,
) -> bool {
    &&& (found is None <==> forall|i: int|
        0 <= i < rules.len() ==> !rule_applies(#[trigger] rules[i], f, now))
    &&& (found matches Some(m) ==> exists|i: int|
        selects(rules, f, now, i) && m.0 == rules[i] && m.1 == rule_captures(
            rules[i],
            f,
            now,
        ).unwrap())
}

pub open spec fn found_view(r: Option<RuleMatch>) -> Option<(Rule, Seq<Seq<char>>)> {
    match r {
        Some(m) => Some((*m.rule, string_views(m.regex_captures@))),
        None => None,
    }
}

// ---------------------------------------------------------------------------
// Engine

/// The rule selected for a file, with the regex captures its conditions produced.
#[derive(Debug)]
pub struct RuleMatch<'a> {
    pub rule: &'a Rule,
    pub regex_captures: Vec<String>,
}

/// Holds the configured rules, in configuration order.
pub struct RuleEngine {
    rules: Vec<Rule>,
}

impl RuleEngine {
    pub closed spec fn rules(&self) -> Seq<Rule> {
        self.rules@
    }

    pub fn new(rules: Vec<Rule>) -> (r: Self)
        ensures
            r.rules() == rules@,
    {
        RuleEngine { rules }
    }

    /// The enabled rule of lowest priority (earliest among equals) whose
    /// conditions all hold of the file at instant `now`.
    pub fn find_matching_rule_at<'a>(&'a self, file_info: &FileInfo, now: Timestamp) -> (r:
        Option<RuleMatch<'a>>)
        ensures
            match_outcome(self.rules(), *file_info, now, found_view(r)),
    {
        let n = self.rules.len();
        let mut best: Option<usize> = None;
        let mut best_caps: Vec<String> = Vec::new();
        let mut i: usize = 0;
        while i < n
            invariant
                n == self.rules@.len(),
                i <= n,
                best is None ==> forall|k: int|
                    0 <= k < i ==> !rule_applies(#[trigger] self.rules@[k], *file_info, now),
                best matches Some(b) ==> {
                    &&& b < i
                    &&& rule_applies(self.rules@[b as int], *file_info, now)
                    &&& string_views(best_caps@) == rule_captures(
                        self.rules@[b as int],
                        *file_info,
                        now,
                    ).unwrap()
                    &&& forall|k: int|
                        0 <= k < i && k != b && rule_applies(#[trigger] self.rules@[k], *file_info, now)
                            ==> ranks_before(self.rules@, b as int, k)
                },
            decreases n - i,
        {
            let rule = &self.rules[i];
            let contender = match best {
                None => true,
                Some(b) => rule.priority < self.rules[b].priority,
            };
            if rule.enabled && contender {
                let caps = self.check_conditions_with_captures(
                    rule.conditions.as_slice(),
                    rule.logic.as_str(),
                    file_info,
                    now,
                );
                match caps {
                    Some(c) => {
                        best = Some(i);
                        best_caps = c;
                    },
                    None => {},
                }
            }
            i = i + 1;
        }
        match best {
            None => None,
            Some(b) => {
                assert(selects(self.rules@, *file_info, now, b as int));
                Some(RuleMatch { rule: &self.rules[b], regex_captures: best_caps })
            },
        }
    }

    /// The rule selected for a file at the current instant.
    pub fn find_matching_rule<'a>(&'a self, file_info: &FileInfo) -> (r: Option<RuleMatch<'a>>)
        ensures
            exists|now: Timestamp| match_outcome(self.rules(), *file_info, now, found_view(r)),
    {
        let now = now_utc();
        self.find_matching_rule_at(file_info, now)
    }

    /// Evaluates the conditions in order, stopping at the first that fails, and
    /// collects the regex captures; an empty list matches nothing.
    pub fn check_conditions_with_captures(
        &self,
        conditions: &[RuleCondition],
        logic: &str,
        file_info: &FileInfo,
        now: Timestamp,
    ) -> (r: Option<Vec<String>>)
        ensures
            conditions@.len() == 0 ==> r is None,
            conditions@.len() > 0 ==> match r {
                None => conditions_captures(conditions@, *file_info, now) is None,
                Some(v) => conditions_captures(conditions@, *file_info, now) == Some(
                    string_views(v@),
                ),
            },
    {
        if conditions.len() == 0 {
            return None;
        }
        let mut captures: Vec<String> = Vec::new();
        let mut i: usize = 0;
        while i < conditions.len()
            invariant
                i <= conditions@.len(),
                conditions_captures(conditions@.subrange(0, i as int), *file_info, now) == Some(
                    string_views(captures@),
                ),
            decreases conditions@.len() - i,
        {
            let c = &conditions[i];
            proof {
                let pre = conditions@.subrange(0, i + 1);
                assert(pre.drop_last() =~= conditions@.subrange(0, i as int));
                assert(pre.last() == conditions@[i as int]);
            }
            match c {
                RuleCondition::NameRegex { pattern } => {
                    let found = match compile_pattern(pattern.as_str()) {
                        None => None,
                        Some(p) => capture_groups(&p, file_info.name.as_str()),
                    };
                    match found {
                        None => {
                            proof {
                                lemma_prefix_fails(conditions@, *file_info, now, i as int);
                            }
                            return None;
                        },
                        Some(groups) => {
                            let before = Ghost(captures@);
                            append_numbered(&mut captures, &groups);
                            assert(string_views(captures@) =~= string_views(before@)
                                + numbered_captures(option_views(groups@)));
                        },
                    }
                },
                _ => {
                    if !self.check_single_condition(c, file_info, now) {
                        proof {
                            lemma_prefix_fails(conditions@, *file_info, now, i as int);
                        }
                        return None;
                    }
                    assert(string_views(captures@) =~= string_views(captures@) + seq![]);
                },
            }
            i = i + 1;
        }
        assert(conditions@.subrange(0, i as int) =~= conditions@);
        Some(captures)
    }

    /// Whether one condition holds of the file at instant `now`.
    pub fn check_single_condition(
        &self,
        condition: &RuleCondition,
        file_info: &FileInfo,
        now: Timestamp,
    ) -> (r: bool)
        ensures
            r == condition_holds(*condition, *file_info, now),
    {
        match condition {
            RuleCondition::FileType { file_type } => {
                if str_eq(file_type.as_str(), "file") {
                    !file_info.is_directory
                } else if str_eq(file_type.as_str(), "folder") {
                    file_info.is_directory
                } else {
                    str_eq(file_type.as_str(), "both")
                }
            },
            RuleCondition::Extension { values } => {
                let ext = to_lower(file_info.extension.as_str());
                let mut i: usize = 0;
                while i < values.len()
                    invariant
                        *condition == (RuleCondition::Extension { values: *values }),
                        ext@ == lowercase_of(file_info.extension@),
                        i <= values@.len(),
                        forall|k: int|
                            0 <= k < i ==> lowercase_of(#[trigger] values@[k]@) != ext@,
                    decreases values@.len() - i,
                {
                    let v = to_lower(values[i].as_str());
                    if v == ext {
                        assert(lowercase_of(values@[i as int]@) == lowercase_of(
                            file_info.extension@,
                        ));
                        assert(extension_listed(values@, file_info.extension@));
                        return true;
                    }
                    i = i + 1;
                }
                false
            },
            RuleCondition::SizeRange { min, max } => {
                let min_ok = match min {
                    Some(m) => file_info.size >= *m,
                    None => true,
                };
                let max_ok = match max {
                    Some(m) => file_info.size <= *m,
                    None => true,
                };
                min_ok && max_ok
            },
            RuleCondition::NameContains { pattern } => {
                let name = to_lower(file_info.name.as_str());
                let pat = to_lower(pattern.as_str());
                contains(name.as_str(), pat.as_str())
            },
            RuleCondition::NameRegex { pattern } => {
                match compile_pattern(pattern.as_str()) {
                    None => false,
                    Some(p) => capture_groups(&p, file_info.name.as_str()).is_some(),
                }
            },
            RuleCondition::CreatedDaysAgo { min, max } => {
                days_ago_check(file_info.created_at, *min, *max, now)
            },
            RuleCondition::ModifiedDaysAgo { min, max } => {
                days_ago_check(file_info.modified_at, *min, *max, now)
            },
            RuleCondition::CreatedTime { time_type, comparison, days, datetime } => {
                time_check(file_info.created_at, time_type, comparison, *days, datetime, now)
            },
            RuleCondition::ModifiedTime { time_type, comparison, days, datetime } => {
                time_check(file_info.modified_at, time_type, comparison, *days, datetime, now)
            },
        }
    }

    /// Expands the placeholders of a template, taking the date from the file's
    /// modification time, else its creation time, else the current instant
    /// (in UTC).
    pub fn resolve_placeholders(
        &self,
        template: &str,
        file_info: &FileInfo,
        regex_captures: &[String],
    ) -> (r: String)
        ensures
            file_date(*file_info) is Some ==> r@ == expanded(
                template@,
                *file_info,
                string_views(regex_captures@),
                file_date(*file_info),
            ),
            exists|now: Timestamp|
                r@ == expanded(
                    template@,
                    *file_info,
                    string_views(regex_captures@),
                    #[trigger] placeholder_date(*file_info, now),
                ),
    {
        let now = now_utc();
        let date = date_at(file_info, now);
        expand_template(template, file_info, regex_captures, date)
    }

    /// The destination of an action for a file: a directory for moves and
    /// copies (joined under `base_path` when relative), the new path for a
    /// rename, the `{recycle}` sentinel for the trash, nothing for a delete.
    pub fn get_destination_path(
        &self,
        action: &RuleAction,
        file_info: &FileInfo,
        base_path: &str,
        regex_captures: &[String],
    ) -> (r: Option<String>)
        ensures
            file_date(*file_info) is Some ==> opt_view(r) == destination_text(
                *action,
                *file_info,
                base_path@,
                string_views(regex_captures@),
                file_date(*file_info),
            ),
            exists|now: Timestamp|
                opt_view(r) == destination_text(
                    *action,
                    *file_info,
                    base_path@,
                    string_views(regex_captures@),
                    #[trigger] placeholder_date(*file_info, now),
                ),
    {
        let now = now_utc();
        let date = date_at(file_info, now);
        destination_on(action, file_info, base_path, regex_captures, date)
    }
}

proof fn lemma_prefix_fails(conds: Seq<RuleCondition>, f: FileInfo, now: Timestamp, i: int)
    requires
        0 <= i < conds.len(),
        conditions_captures(conds.subrange(0, i + 1), f, now) is None,
    ensures
        conditions_captures(conds, f, now) is None,
    decreases conds.len() - i,
{
    if i + 1 < conds.len() {
        let pre = conds.subrange(0, i + 2);
        assert(pre.drop_last() =~= conds.subrange(0, i + 1));
        if i + 2 == conds.len() {
            assert(pre =~= conds);
        } else {
            lemma_prefix_fails(conds, f, now, i + 1);
        }
    } else {
        assert(conds.subrange(0, i + 1) =~= conds);
    }
}

/// Appends the numbered groups (1 and up) that took part in a match.
fn append_numbered(out: &mut Vec<String>, groups: &Vec<Option<String>>)
    ensures
        string_views(final(out)@) == string_views(old(out)@) + numbered_captures(
            option_views(groups@),
        ),
{
    let ghost start = string_views(out@);
    let n = groups.len();
    if n == 0 {
        assert(string_views(out@) =~= start + seq![]);
        return;
    }
    let ghost g = option_views(groups@);
    let mut i: usize = 1;
    assert(g.subrange(1, 1) =~= Seq::<Option<Seq<char>>>::empty());
    while i < n
        invariant
            n == groups@.len(),
            1 <= i <= n,
            g == option_views(groups@),
            string_views(out@) == start + present_groups(g.subrange(1, i as int)),
        decreases n - i,
    {
        proof {
            let s = g.subrange(1, i + 1);
            assert(s.drop_last() =~= g.subrange(1, i as int));
        }
        match &groups[i] {
            Some(s) => {
                let ghost prev = out@;
                out.push(s.clone());
                proof {
                    let s2 = g.subrange(1, i + 1);
                    assert(g[i as int] == Some(s@));
                    assert(s2.last() == g[i as int]);
                    assert(s2.drop_last() =~= g.subrange(1, i as int));
                    assert(present_groups(s2) == present_groups(g.subrange(1, i as int)).push(s@));
                    assert(string_views(out@) =~= string_views(prev).push(s@));
                    assert(string_views(out@) =~= start + present_groups(s2));
                }
            },
            None => {},
        }
        i = i + 1;
    }
    assert(g.subrange(1, n as int) =~= g.subrange(1, g.len() as int));
}

fn days_ago_check(stamp: Option<Timestamp>, min: Option<u64>, max: Option<u64>, now: Timestamp) -> (r:
    bool)
    ensures
        r == days_ago_holds(stamp, min, max, now),
{
    match stamp {
        None => false,
        Some(t) => {
            let diff: i128 = (now.secs as i128 - t.secs as i128) * 1_000_000_000 + (now.nanos as i128
                - t.nanos as i128);
            assert(diff == instant_nanos(now) - instant_nanos(t));
            let days: i128 = if diff >= 0 {
                diff / NANOS_PER_DAY
            } else {
                -((-diff) / NANOS_PER_DAY)
            };
            let min_ok = match min {
                Some(m) => days >= m as i128,
                None => true,
            };
            let max_ok = match max {
                Some(m) => days <= m as i128,
                None => true,
            };
            min_ok && max_ok
        },
    }
}

fn time_check(
    stamp: Option<Timestamp>,
    time_type: &String,
    comparison: &String,
    days: Option<u64>,
    datetime: &Option<String>,
    now: Timestamp,
) -> (r: bool)
    ensures
        r == time_holds(stamp, time_type@, comparison@, days, opt_view(*datetime), now),
{
    let t = match stamp {
        None => return false,
        Some(t) => t,
    };
    let target: (i128, i128) = if str_eq(time_type.as_str(), "relative") {
        match days {
            Some(d) => (now.secs as i128 - (d as i128) * SECS_PER_DAY, now.nanos as i128),
            None => return false,
        }
    } else if str_eq(time_type.as_str(), "absolute") {
        match datetime {
            Some(s) => match parse_rfc3339(s.as_str()) {
                Some(p) => (p.secs as i128, p.nanos as i128),
                None => return false,
            },
            None => return false,
        }
    } else {
        return false;
    };
    let ts = t.secs as i128;
    let tn = t.nanos as i128;
    if str_eq(comparison.as_str(), "before") {
        ts < target.0 || (ts == target.0 && tn < target.1)
    } else if str_eq(comparison.as_str(), "after") {
        target.0 < ts || (target.0 == ts && target.1 < tn)
    } else {
        false
    }
}

/// The date for the date placeholders at instant `now`: the file's own,
/// else the UTC date of `now`.
pub fn date_at(file_info: &FileInfo, now: Timestamp) -> (r: Option<CalendarDate>)
    ensures
        r == placeholder_date(*file_info, now),
{
    let stamp = match file_info.modified_at {
        Some(t) => Some(t),
        None => file_info.created_at,
    };
    let own = match stamp {
        Some(t) => utc_date(t.secs),
        None => None,
    };
    match own {
        Some(d) => Some(d),
        None => utc_date(now.secs),
    }
}

/// Appends `n` in decimal, left-padded with zeros to at least `w` characters.
fn push_zero_padded(out: &mut String, n: u64, w: usize)
    ensures
        final(out)@ == old(out)@ + zero_padded(n as nat, w as nat),
{
    let ghost start = out@;
    let digits = decimal_string(n);
    let len = digits.unicode_len();
    proof {
        reveal_strlit("0");
    }
    let mut k: usize = len;
    assert(Seq::new(0, |j: int| '0') =~= Seq::<char>::empty());
    assert(out@ =~= start + Seq::new((k - len) as nat, |j: int| '0'));
    while k < w
        invariant
            len == decimal(n as nat).len(),
            len <= k,
            len >= w ==> k == len,
            len < w ==> k <= w,
            out@ == start + Seq::new((k - len) as nat, |j: int| '0'),
        decreases w - k,
    {
        proof {
            reveal_strlit("0");
        }
        out.append("0");
        k = k + 1;
        assert(out@ =~= start + Seq::new((k - len) as nat, |j: int| '0'));
    }
    out.append(digits.as_str());
    assert(out@ =~= start + zero_padded(n as nat, w as nat));
}

/// A year as chrono's "%Y" writes it.
fn year_string(y: i32) -> (r: String)
    ensures
        r@ == year_text(y as int),
{
    proof {
        reveal_strlit("-");
        reveal_strlit("+");
    }
    let mut s = String::new();
    if 0 <= y && y <= 9999 {
        push_zero_padded(&mut s, y as u64, 4);
    } else if y < 0 {
        s.append("-");
        let m: i64 = -(y as i64);
        push_zero_padded(&mut s, m as u64, 4);
    } else {
        s.append("+");
        push_zero_padded(&mut s, y as u64, 4);
    }
    assert(s@ =~= year_text(y as int));
    s
}

/// The file name without "." and its extension, when it ends so.
fn name_without_extension(file_info: &FileInfo) -> (r: String)
    ensures
        r@ == base_name(*file_info),
{
    proof {
        reveal_strlit(".");
    }
    let mut suffix = String::from_str(".");
    suffix.append(file_info.extension.as_str());
    assert(suffix@ =~= seq!['.'] + file_info.extension@);
    let name = file_info.name.as_str();
    if ends_with(name, suffix.as_str()) {
        let n = name.unicode_len();
        let k = suffix.as_str().unicode_len();
        name.substring_char(0, n - k).to_owned()
    } else {
        name.to_owned()
    }
}

/// Expands the placeholders of `template`: `$i` and `${i}` become regex
/// capture `i` (in index order), `{name}` the file name without its extension,
/// `{ext}` the extension, and `{year}`, `{month}`, `{day}` the parts of `date`.
pub fn expand_template(
    template: &str,
    file_info: &FileInfo,
    regex_captures: &[String],
    date: Option<CalendarDate>,
) -> (r: String)
    ensures
        r@ == expanded(template@, *file_info, string_views(regex_captures@), date),
{
    let ghost caps = string_views(regex_captures@);
    proof {
        reveal_strlit("$");
        reveal_strlit("${");
        reveal_strlit("}");
        reveal_strlit("{name}");
        reveal_strlit("{ext}");
        reveal_strlit("{year}");
        reveal_strlit("{month}");
        reveal_strlit("{day}");
    }
    let mut result = template.to_owned();
    let n = regex_captures.len();
    let mut i: usize = n;
    while i > 0
        invariant
            n == regex_captures@.len(),
            caps == string_views(regex_captures@),
            i <= n,
            substitute_captures(result@, caps, i as nat) == substitute_captures(
                template@,
                caps,
                n as nat,
            ),
        decreases i,
    {
        proof {
            reveal_strlit("$");
            reveal_strlit("${");
            reveal_strlit("}");
        }
        let idx: u64 = i as u64;
        let mut tok = String::from_str("$");
        push_decimal(&mut tok, idx);
        assert(tok@ =~= dollar_token(idx as nat));
        let mut btok = String::from_str("${");
        push_decimal(&mut btok, idx);
        btok.append("}");
        assert(btok@ =~= braced_token(idx as nat));
        let cap = regex_captures[i - 1].as_str();
        let ghost before = result@;
        result = replace_str(result.as_str(), tok.as_str(), cap);
        result = replace_str(result.as_str(), btok.as_str(), cap);
        assert(result@ == capture_step(before, caps, i as nat));
        i = i - 1;
    }
    let base = name_without_extension(file_info);
    result = replace_str(result.as_str(), "{name}", base.as_str());
    result = replace_str(result.as_str(), "{ext}", file_info.extension.as_str());
    match date {
        Some(d) => {
            let y = year_string(d.0);
            result = replace_str(result.as_str(), "{year}", y.as_str());
            let mut m = String::new();
            push_zero_padded(&mut m, d.1 as u64, 2);
            result = replace_str(result.as_str(), "{month}", m.as_str());
            let mut dd = String::new();
            push_zero_padded(&mut dd, d.2 as u64, 2);
            result = replace_str(result.as_str(), "{day}", dd.as_str());
        },
        None => {},
    }
    result
}

fn place(
    destination: &String,
    file_info: &FileInfo,
    base_path: &str,
    regex_captures: &[String],
    date: Option<CalendarDate>,
) -> (r: Option<String>)
    ensures
        opt_view(r) == placed(
            destination@,
            *file_info,
            base_path@,
            string_views(regex_captures@),
            date,
        ),
{
    if str_eq(destination.as_str(), "{recycle}") {
        return Some(String::from_str("{recycle}"));
    }
    let resolved = expand_template(destination.as_str(), file_info, regex_captures, date);
    if is_absolute(resolved.as_str()) {
        Some(resolved)
    } else {
        Some(join_path(base_path, resolved.as_str()))
    }
}

/// The destination of an action for the given captures and calendar date.
pub fn destination_on(
    action: &RuleAction,
    file_info: &FileInfo,
    base_path: &str,
    regex_captures: &[String],
    date: Option<CalendarDate>,
) -> (r: Option<String>)
    ensures
        opt_view(r) == destination_text(
            *action,
            *file_info,
            base_path@,
            string_views(regex_captures@),
            date,
        ),
{
    match action {
        RuleAction::MoveTo { destination } => place(
            destination,
            file_info,
            base_path,
            regex_captures,
            date,
        ),
        RuleAction::CopyTo { destination } => place(
            destination,
            file_info,
            base_path,
            regex_captures,
            date,
        ),
        RuleAction::Rename { pattern } => match parent(file_info.path.as_str()) {
            None => None,
            Some(dir) => {
                let new_name = expand_template(pattern.as_str(), file_info, regex_captures, date);
                Some(join_path(dir.as_str(), new_name.as_str()))
            },
        },
        RuleAction::Delete => None,
    }
}

// ---------------------------------------------------------------------------
// Laws

proof fn lemma_single_selected(rules: Seq<Rule>, f: FileInfo, now: Timestamp, i: int, k: int)
    requires
        selects(rules, f, now, i),
        selects(rules, f, now, k),
    ensures
        i == k,
{
    if i != k {
        assert(ranks_before(rules, i, k));
        assert(ranks_before(rules, k, i));
    }
}

/// A rule whose one condition is an extension set holding the file's
/// extension (compared without case) is the rule found, when no other
/// enabled rule that applies ranks before it; it brings no captures.
pub proof fn lemma_extension_rule_found(
    rules: Seq<Rule>,
    f: FileInfo,
    now: Timestamp,
    i: int,
    found: Option<(Rule, Seq<Seq<char>>)>,
)
    requires
        match_outcome(rules, f, now, found),
        0 <= i < rules.len(),
        rules[i].enabled,
        rules[i].conditions@.len() == 1,
        rules[i].conditions@[0] matches RuleCondition::Extension { values } && extension_listed(
            values@,
            f.extension@,
        ),
        forall|j: int|
            0 <= j < rules.len() && j != i && rule_applies(#[trigger] rules[j], f, now)
                ==> ranks_before(rules, i, j),
    ensures
        found == Some((rules[i], Seq::<Seq<char>>::empty())),
{
    let conds = rules[i].conditions@;
    assert(conds.drop_last() =~= Seq::<RuleCondition>::empty());
    assert(condition_captures(conds[0], f, now) == Some(Seq::<Seq<char>>::empty()));
    assert(conditions_captures(conds.drop_last(), f, now) == Some(Seq::<Seq<char>>::empty()));
    assert(conds.last() == conds[0]);
    assert(rule_captures(rules[i], f, now) == Some(Seq::<Seq<char>>::empty() + Seq::<Seq<char>>::empty()));
    assert(Seq::<Seq<char>>::empty() + Seq::<Seq<char>>::empty() =~= Seq::<Seq<char>>::empty());
    assert(rule_applies(rules[i], f, now));
    assert(selects(rules, f, now, i));
    let m = found.unwrap();
    let k = choose|k: int|
        selects(rules, f, now, k) && m.0 == rules[k] && m.1 == rule_captures(rules[k], f, now).unwrap();
    lemma_single_selected(rules, f, now, i, k);
}

/// Of two enabled rules that both apply and share a priority, the one later
/// in configuration order is never the one selected; the earlier one is,
/// when no other rule that applies ranks before it.
pub proof fn lemma_equal_priority_earlier_wins(
    rules: Seq<Rule>,
    f: FileInfo,
    now: Timestamp,
    i: int,
    j: int,
    found: Option<(Rule, Seq<Seq<char>>)>,
)
    requires
        match_outcome(rules, f, now, found),
        0 <= i < j < rules.len(),
        rule_applies(rules[i], f, now),
        rule_applies(rules[j], f, now),
        rules[i].priority == rules[j].priority,
    ensures
        found is Some,
        !selects(rules, f, now, j),
        (forall|k: int|
            0 <= k < rules.len() && k != i && rule_applies(#[trigger] rules[k], f, now)
                ==> ranks_before(rules, i, k)) ==> found == Some(
            (rules[i], rule_captures(rules[i], f, now).unwrap()),
        ),
{
    if selects(rules, f, now, j) {
        assert(ranks_before(rules, j, i));
    }
    if forall|k: int|
        0 <= k < rules.len() && k != i && rule_applies(#[trigger] rules[k], f, now)
            ==> ranks_before(rules, i, k) {
        assert(selects(rules, f, now, i));
        let m = found.unwrap();
        let k = choose|k: int|
            selects(rules, f, now, k) && m.0 == rules[k] && m.1 == rule_captures(rules[k], f, now).unwrap();
        lemma_single_selected(rules, f, now, i, k);
    }
}

/// With two enabled rules of equal priority whose conditions (a non-empty
/// list each) all hold, the first one configured is the one found.
pub proof fn lemma_tie_goes_to_first_rule(
    rules: Seq<Rule>,
    f: FileInfo,
    now: Timestamp,
    found: Option<(Rule, Seq<Seq<char>>)>,
)
    requires
        match_outcome(rules, f, now, found),
        rules.len() == 2,
        rules[0].enabled && rules[1].enabled,
        rules[0].priority == rules[1].priority,
        rules[0].conditions@.len() > 0 && conditions_captures(rules[0].conditions@, f, now) is Some,
        rules[1].conditions@.len() > 0 && conditions_captures(rules[1].conditions@, f, now) is Some,
    ensures
        found == Some((rules[0], rule_captures(rules[0], f, now).unwrap())),
{
    assert(rule_applies(rules[0], f, now));
    assert(rule_applies(rules[1], f, now));
    assert(ranks_before(rules, 0, 1));
    lemma_equal_priority_earlier_wins(rules, f, now, 0, 1, found);
}

/// A template holding neither '$' nor '{' has no placeholders.
pub open spec fn placeholder_free(t: Seq<char>) -> bool {
    forall|k: int| 0 <= k < t.len() ==> t[k] != '$' && t[k] != '{'
}

proof fn lemma_free_of_token(t: Seq<char>, p: Seq<char>, r: Seq<char>)
    requires
        placeholder_free(t),
        p.len() > 0,
        p[0] == '$' || p[0] == '{',
    ensures
        replace_all(t, p, r) == t,
{
    assert forall|i: int| !occurs_at(t, p, i) by {
        if occurs_at(t, p, i) {
            assert(t.subrange(i, i + p.len())[0] == p[0]);
        }
    }
    lemma_replace_absent(t, p, r);
}

proof fn lemma_captures_leave_plain(t: Seq<char>, caps: Seq<Seq<char>>, k: nat)
    requires
        placeholder_free(t),
        k <= caps.len(),
    ensures
        substitute_captures(t, caps, k) == t,
    decreases k,
{
    if k > 0 {
        lemma_free_of_token(t, dollar_token(k), caps[k - 1]);
        lemma_free_of_token(t, braced_token(k), caps[k - 1]);
        lemma_captures_leave_plain(t, caps, (k - 1) as nat);
    }
}

/// Expanding a template without placeholders gives it back unchanged, and a
/// move or copy destination without placeholders is the template itself
/// when absolute, else the template joined under the base path.
pub proof fn lemma_plain_template(
    action: RuleAction,
    f: FileInfo,
    base: Seq<char>,
    caps: Seq<Seq<char>>,
    date: Option<CalendarDate>,
)
    requires
        action matches RuleAction::MoveTo { destination } ==> placeholder_free(destination@),
        action matches RuleAction::CopyTo { destination } ==> placeholder_free(destination@),
        action matches RuleAction::Rename { pattern } ==> placeholder_free(pattern@),
    ensures
        forall|t: Seq<char>| placeholder_free(t) ==> #[trigger] expanded(t, f, caps, date) == t,
        action matches RuleAction::MoveTo { destination } ==> destination_text(action, f, base, caps, date)
            == Some(
            if absolute_path(destination@) {
                destination@
            } else {
                joined_path(base, destination@)
            },
        ),
        action matches RuleAction::CopyTo { destination } ==> destination_text(action, f, base, caps, date)
            == Some(
            if absolute_path(destination@) {
                destination@
            } else {
                joined_path(base, destination@)
            },
        ),
{
    reveal_strlit("{name}");
    reveal_strlit("{ext}");
    reveal_strlit("{year}");
    reveal_strlit("{month}");
    reveal_strlit("{day}");
    reveal_strlit("{recycle}");
    assert forall|t: Seq<char>| placeholder_free(t) implies #[trigger] expanded(t, f, caps, date) == t by {
        lemma_captures_leave_plain(t, caps, caps.len());
        lemma_free_of_token(t, "{name}"@, base_name(f));
        lemma_free_of_token(t, "{ext}"@, f.extension@);
        match date {
            Some(d) => {
                lemma_free_of_token(t, "{year}"@, year_text(d.0 as int));
                lemma_free_of_token(t, "{month}"@, zero_padded(d.1 as nat, 2));
                lemma_free_of_token(t, "{day}"@, zero_padded(d.2 as nat, 2));
            },
            None => {},
        }
    }
    match action {
        RuleAction::MoveTo { destination } => {
            assert(destination@ != recycle_sentinel()) by {
                if destination@ == recycle_sentinel() {
                    assert(destination@[0] == '{');
                }
            }
            assert(expanded(destination@, f, caps, date) == destination@);
        },
        RuleAction::CopyTo { destination } => {
            assert(destination@ != recycle_sentinel()) by {
                if destination@ == recycle_sentinel() {
                    assert(destination@[0] == '{');
                }
            }
            assert(expanded(destination@, f, caps, date) == destination@);
        },
        _ => {},
    }
}

/// `$m` and `${m}` do not occur in `$k` when `m > k`.
proof fn lemma_higher_tokens_absent(k: nat, m: nat)
    requires
        1 <= k < m,
    ensures
        !contains_seq(dollar_token(k), dollar_token(m)),
        !contains_seq(dollar_token(k), braced_token(m)),
{
    let t = dollar_token(k);
    lemma_decimal_digits(k);
    lemma_decimal_len_monotonic(k, m);
    assert forall|i: int| !occurs_at(t, dollar_token(m), i) by {
        if occurs_at(t, dollar_token(m), i) {
            assert(i == 0);
            assert(t.subrange(0, t.len() as int) =~= t);
            assert(decimal(k) =~= t.subrange(1, t.len() as int));
            assert(decimal(m) =~= dollar_token(m).subrange(1, dollar_token(m).len() as int));
            lemma_decimal_injective(k, m);
        }
    }
    assert forall|i: int| !occurs_at(t, braced_token(m), i) by {
        if occurs_at(t, braced_token(m), i) {
            assert(t.subrange(i, i + braced_token(m).len())[1] == '{');
            assert(t[i + 1] == '{');
            assert(t[i + 1] == decimal(k)[i]);
        }
    }
}

proof fn lemma_token_substituted(k: nat, caps: Seq<Seq<char>>, m: nat)
    requires
        1 <= k <= m <= caps.len(),
        forall|i: int| 0 <= i < caps.len() ==> placeholder_free(#[trigger] caps[i]),
    ensures
        substitute_captures(dollar_token(k), caps, m) == caps[k - 1],
    decreases m,
{
    let t = dollar_token(k);
    let c = caps[k - 1];
    assert(placeholder_free(c));
    if m == k {
        lemma_replace_whole(t, c);
        lemma_free_of_token(c, braced_token(k), c);
        assert(capture_step(t, caps, k) == c);
        lemma_captures_leave_plain(c, caps, (k - 1) as nat);
    } else {
        lemma_higher_tokens_absent(k, m);
        lemma_replace_absent(t, dollar_token(m), caps[m - 1]);
        lemma_replace_absent(t, braced_token(m), caps[m - 1]);
        assert(capture_step(t, caps, m) == t);
        lemma_token_substituted(k, caps, (m - 1) as nat);
    }
}

/// `$k` stands for capture `k`, for every `k` up to the number of captures,
/// ten and above included: a template that is just `$k` expands to that
/// capture, when no capture holds '$' or '{'.
pub proof fn lemma_numbered_capture(
    k: nat,
    f: FileInfo,
    caps: Seq<Seq<char>>,
    date: Option<CalendarDate>,
)
    requires
        1 <= k <= caps.len(),
        forall|i: int| 0 <= i < caps.len() ==> placeholder_free(#[trigger] caps[i]),
    ensures
        expanded(dollar_token(k), f, caps, date) == caps[k - 1],
{
    reveal_strlit("{name}");
    reveal_strlit("{ext}");
    reveal_strlit("{year}");
    reveal_strlit("{month}");
    reveal_strlit("{day}");
    let c = caps[k - 1];
    assert(placeholder_free(c));
    lemma_token_substituted(k, caps, caps.len());
    lemma_free_of_token(c, "{name}"@, base_name(f));
    lemma_free_of_token(c, "{ext}"@, f.extension@);
    match date {
        Some(d) => {
            lemma_free_of_token(c, "{year}"@, year_text(d.0 as int));
            lemma_free_of_token(c, "{month}"@, zero_padded(d.1 as nat, 2));
            lemma_free_of_token(c, "{day}"@, zero_padded(d.2 as nat, 2));
        },
        None => {},
    }
}

} // verus!
