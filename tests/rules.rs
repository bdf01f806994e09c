use floatsort::clock::instant_from_epoch;
use floatsort::models::{ConflictStrategy, FileInfo, Rule, RuleAction, RuleCondition, Timestamp};
use floatsort::rule_engine::{destination_on, expand_template, RuleEngine};

fn rule(id: &str, priority: i32, conditions: Vec<RuleCondition>, action: RuleAction) -> Rule {
    Rule {
        id: id.to_string(),
        name: format!("Rule {}", id),
        enabled: true,
        logic: "and".to_string(),
        conditions,
        action,
        priority,
        conflict_strategy: ConflictStrategy::Skip,
        icon: None,
        icon_svg: None,
        color: None,
    }
}

fn file(path: &str, name: &str, extension: &str, size: u64) -> FileInfo {
    FileInfo {
        path: path.to_string(),
        name: name.to_string(),
        extension: extension.to_string(),
        size,
        created_at: None,
        modified_at: None,
        is_directory: false,
    }
}

fn ext(values: &[&str]) -> RuleCondition {
    RuleCondition::Extension { values: values.iter().map(|v| v.to_string()).collect() }
}

fn move_to(d: &str) -> RuleAction {
    RuleAction::MoveTo { destination: d.to_string() }
}

#[test]
fn test_extension_condition() {
    let rule = Rule {
        id: "test".to_string(),
        name: "Test Rule".to_string(),
        enabled: true,
        logic: "and".to_string(),
        conditions: vec![RuleCondition::Extension {
            values: vec!["jpg".to_string(), "png".to_string()],
        }],
        action: RuleAction::MoveTo { destination: "Images".to_string() },
        priority: 1,
        conflict_strategy: ConflictStrategy::Skip,
        icon: None,
        icon_svg: None,
        color: None,
    };

    let engine = RuleEngine::new(vec![rule]);

    let file_info = FileInfo {
        path: "test.jpg".to_string(),
        name: "test.jpg".to_string(),
        extension: "jpg".to_string(),
        size: 1024,
        created_at: None,
        modified_at: None,
        is_directory: false,
    };

    assert!(engine.find_matching_rule(&file_info).is_some());
}

#[test]
fn extension_match_ignores_case_and_lower_priority_rules() {
    let engine = RuleEngine::new(vec![
        rule("docs", 5, vec![ext(&["pdf"])], move_to("Docs")),
        rule("images", 2, vec![ext(&["JPG", "png"])], move_to("Images")),
        rule("big", 9, vec![RuleCondition::SizeRange { min: Some(1), max: None }], move_to("Big")),
    ]);
    let f = file("/in/Photo.Jpg", "Photo.Jpg", "Jpg", 10);
    let m = engine.find_matching_rule(&f).expect("a rule applies");
    assert_eq!(m.rule.id, "images");
    assert!(m.regex_captures.is_empty());
}

#[test]
fn lower_priority_value_is_evaluated_first() {
    let engine = RuleEngine::new(vec![
        rule("late", 7, vec![ext(&["txt"])], move_to("A")),
        rule("early", 3, vec![ext(&["txt"])], move_to("B")),
    ]);
    let f = file("/in/a.txt", "a.txt", "txt", 1);
    assert_eq!(engine.find_matching_rule(&f).unwrap().rule.id, "early");
}

#[test]
fn equal_priority_keeps_configured_order() {
    let engine = RuleEngine::new(vec![
        rule("first", 4, vec![ext(&["txt"])], move_to("A")),
        rule("second", 4, vec![ext(&["txt"])], move_to("B")),
    ]);
    let f = file("/in/a.txt", "a.txt", "txt", 1);
    assert_eq!(engine.find_matching_rule(&f).unwrap().rule.id, "first");
}

#[test]
fn disabled_rules_and_empty_condition_lists_never_match() {
    let mut off = rule("off", 1, vec![ext(&["txt"])], move_to("A"));
    off.enabled = false;
    let empty = rule("empty", 2, vec![], move_to("B"));
    let engine = RuleEngine::new(vec![off, empty]);
    let f = file("/in/a.txt", "a.txt", "txt", 1);
    assert!(engine.find_matching_rule(&f).is_none());
}

#[test]
fn name_regex_captures_feed_destination() {
    let engine = RuleEngine::new(vec![rule(
        "rx",
        1,
        vec![RuleCondition::NameRegex { pattern: r"^(\d+)-(.+)\.txt$".to_string() }],
        move_to("Archive/$1/${2}"),
    )]);
    let f = file("/in/42-report.txt", "42-report.txt", "txt", 5);
    let m = engine.find_matching_rule(&f).expect("the pattern matches");
    assert_eq!(m.regex_captures, vec!["42".to_string(), "report".to_string()]);
    let dest = engine
        .get_destination_path(&m.rule.action, &f, "/base", &m.regex_captures)
        .unwrap();
    assert_eq!(dest, "/base/Archive/42/report");
}

#[test]
fn captures_accumulate_and_skip_groups_that_took_no_part() {
    let engine = RuleEngine::new(vec![rule(
        "two",
        1,
        vec![
            RuleCondition::NameRegex { pattern: r"^(a)?(\w+)".to_string() },
            RuleCondition::NameRegex { pattern: r"\.(\w+)$".to_string() },
        ],
        move_to("X"),
    )]);
    let f = file("/in/report.csv", "report.csv", "csv", 5);
    let m = engine.find_matching_rule(&f).unwrap();
    assert_eq!(m.regex_captures, vec!["report".to_string(), "csv".to_string()]);
}

#[test]
fn invalid_regex_never_matches() {
    let engine = RuleEngine::new(vec![rule(
        "bad",
        1,
        vec![RuleCondition::NameRegex { pattern: "(unclosed".to_string() }],
        move_to("X"),
    )]);
    let f = file("/in/(unclosed", "(unclosed", "", 5);
    assert!(engine.find_matching_rule(&f).is_none());
}

#[test]
fn name_contains_ignores_case() {
    let engine = RuleEngine::new(vec![rule(
        "c",
        1,
        vec![RuleCondition::NameContains { pattern: "REPORT".to_string() }],
        move_to("X"),
    )]);
    assert!(engine.find_matching_rule(&file("/in/q3-report.pdf", "q3-report.pdf", "pdf", 1)).is_some());
    assert!(engine.find_matching_rule(&file("/in/q3-rep.pdf", "q3-rep.pdf", "pdf", 1)).is_none());
}

#[test]
fn size_range_bounds_are_inclusive() {
    let engine = RuleEngine::new(vec![rule(
        "s",
        1,
        vec![RuleCondition::SizeRange { min: Some(10), max: Some(20) }],
        move_to("X"),
    )]);
    let now = Timestamp { secs: 0, nanos: 0 };
    assert!(engine.find_matching_rule_at(&file("/a", "a", "", 10), now).is_some());
    assert!(engine.find_matching_rule_at(&file("/a", "a", "", 20), now).is_some());
    assert!(engine.find_matching_rule_at(&file("/a", "a", "", 21), now).is_none());
    assert!(engine.find_matching_rule_at(&file("/a", "a", "", 9), now).is_none());
}

#[test]
fn file_type_condition() {
    let engine = RuleEngine::new(vec![rule(
        "folders",
        1,
        vec![RuleCondition::FileType { file_type: "folder".to_string() }],
        move_to("X"),
    )]);
    let mut d = file("/in/dir", "dir", "", 0);
    assert!(engine.find_matching_rule(&d).is_none());
    d.is_directory = true;
    assert!(engine.find_matching_rule(&d).is_some());
}

#[test]
fn days_ago_uses_whole_days() {
    let day = 86_400;
    let now = Timestamp { secs: 100 * day, nanos: 0 };
    let mut f = file("/in/a", "a", "", 0);
    f.modified_at = Some(Timestamp { secs: 100 * day - 3 * day + 1, nanos: 0 });
    let engine = RuleEngine::new(vec![rule(
        "old",
        1,
        vec![RuleCondition::ModifiedDaysAgo { min: Some(3), max: None }],
        move_to("X"),
    )]);
    assert!(engine.find_matching_rule_at(&f, now).is_none());
    f.modified_at = Some(Timestamp { secs: 100 * day - 3 * day, nanos: 0 });
    assert!(engine.find_matching_rule_at(&f, now).is_some());
    f.modified_at = None;
    assert!(engine.find_matching_rule_at(&f, now).is_none());
}

#[test]
fn absolute_time_condition_parses_rfc3339() {
    let engine = RuleEngine::new(vec![rule(
        "t",
        1,
        vec![RuleCondition::CreatedTime {
            time_type: "absolute".to_string(),
            comparison: "before".to_string(),
            days: None,
            datetime: Some("2024-01-01T00:00:00+08:00".to_string()),
        }],
        move_to("X"),
    )]);
    let now = Timestamp { secs: 2_000_000_000, nanos: 0 };
    let mut f = file("/in/a", "a", "", 0);
    // 2023-12-31T16:00:00Z is 1704038400.
    f.created_at = Some(Timestamp { secs: 1_704_038_399, nanos: 0 });
    assert!(engine.find_matching_rule_at(&f, now).is_some());
    f.created_at = Some(Timestamp { secs: 1_704_038_400, nanos: 0 });
    assert!(engine.find_matching_rule_at(&f, now).is_none());
}

#[test]
fn relative_time_condition_counts_back_from_now() {
    let engine = RuleEngine::new(vec![rule(
        "t",
        1,
        vec![RuleCondition::ModifiedTime {
            time_type: "relative".to_string(),
            comparison: "after".to_string(),
            days: Some(7),
            datetime: None,
        }],
        move_to("X"),
    )]);
    let now = Timestamp { secs: 1_000_000, nanos: 0 };
    let mut f = file("/in/a", "a", "", 0);
    f.modified_at = Some(Timestamp { secs: 1_000_000 - 7 * 86_400, nanos: 1 });
    assert!(engine.find_matching_rule_at(&f, now).is_some());
    f.modified_at = Some(Timestamp { secs: 1_000_000 - 7 * 86_400, nanos: 0 });
    assert!(engine.find_matching_rule_at(&f, now).is_none());
    let mut g = file("/in/b", "b", "", 0);
    g.modified_at = Some(Timestamp { secs: 0, nanos: 0 });
    let bad = RuleEngine::new(vec![rule(
        "u",
        1,
        vec![RuleCondition::ModifiedTime {
            time_type: "sometime".to_string(),
            comparison: "after".to_string(),
            days: Some(1),
            datetime: None,
        }],
        move_to("X"),
    )]);
    assert!(bad.find_matching_rule(&g).is_none());
}

#[test]
fn placeholders_expand_from_file_and_date() {
    let mut f = file("/in/notes.final.md", "notes.final.md", "md", 0);
    // 2024-03-05T10:00:00Z
    f.modified_at = Some(Timestamp { secs: 1_709_632_800, nanos: 0 });
    let engine = RuleEngine::new(vec![]);
    let out = engine.resolve_placeholders("{year}/{month}/{day}/{name}.{ext}", &f, &[]);
    assert_eq!(out, "2024/03/05/notes.final.md");
}

#[test]
fn creation_time_fills_date_when_modification_time_is_missing() {
    let mut f = file("/in/a.txt", "a.txt", "txt", 0);
    // 1999-12-31T23:59:59Z
    f.created_at = Some(Timestamp { secs: 946_684_799, nanos: 0 });
    let engine = RuleEngine::new(vec![]);
    assert_eq!(engine.resolve_placeholders("{year}-{month}-{day}", &f, &[]), "1999-12-31");
}

#[test]
fn year_outside_four_digits_is_signed() {
    let f = file("/in/a.txt", "a.txt", "txt", 0);
    assert_eq!(expand_template("{year}|{month}|{day}", &f, &[], Some((12345, 1, 2))), "+12345|01|02");
    assert_eq!(expand_template("{year}", &f, &[], Some((-7, 1, 2))), "-0007");
    assert_eq!(expand_template("{year}", &f, &[], Some((33, 1, 2))), "0033");
    assert_eq!(expand_template("{year}", &f, &[], None), "{year}");
}

#[test]
fn dollar_placeholders_use_capture_order() {
    let f = file("/in/a.txt", "a.txt", "txt", 0);
    let caps = vec!["x".to_string(), "y".to_string()];
    assert_eq!(expand_template("$2-${1}-$3", &f, &caps, None), "y-x-$3");
}

#[test]
fn plain_template_comes_back_unchanged() {
    let f = file("/in/a.txt", "a.txt", "txt", 0);
    let engine = RuleEngine::new(vec![]);
    assert_eq!(engine.resolve_placeholders("Sorted/Plain", &f, &[]), "Sorted/Plain");
    let rel = engine.get_destination_path(&move_to("Sorted/Plain"), &f, "/in", &[]);
    assert_eq!(rel.as_deref(), Some("/in/Sorted/Plain"));
    let abs = engine.get_destination_path(&move_to("/srv/plain"), &f, "/in", &[]);
    assert_eq!(abs.as_deref(), Some("/srv/plain"));
}

#[test]
fn recycle_and_delete_destinations() {
    let f = file("/in/a.txt", "a.txt", "txt", 0);
    let engine = RuleEngine::new(vec![]);
    assert_eq!(
        engine.get_destination_path(&move_to("{recycle}"), &f, "/in", &[]).as_deref(),
        Some("{recycle}")
    );
    assert!(engine.get_destination_path(&RuleAction::Delete, &f, "/in", &[]).is_none());
}

#[test]
fn rename_stays_in_the_parent_directory() {
    let f = file("/in/IMG_1.jpg", "IMG_1.jpg", "jpg", 0);
    let action = RuleAction::Rename { pattern: "photo-{name}.{ext}".to_string() };
    assert_eq!(
        destination_on(&action, &f, "/elsewhere", &[], None).as_deref(),
        Some("/in/photo-IMG_1.jpg")
    );
    let rootless = file("", "", "", 0);
    assert!(destination_on(&action, &rootless, "/elsewhere", &[], None).is_none());
}

#[test]
fn tenth_capture_is_not_first_followed_by_zero() {
    let f = file("/in/a.txt", "a.txt", "txt", 0);
    let caps: Vec<String> = (1..=10).map(|i| format!("c{}", i)).collect();
    assert_eq!(expand_template("$10|${10}|$1|${2}", &f, &caps, None), "c10|c10|c1|c2");
    let engine = RuleEngine::new(vec![]);
    assert_eq!(
        engine.get_destination_path(&move_to("$10"), &f, "/b", &caps).as_deref(),
        Some("/b/c10")
    );
}

#[test]
fn future_files_count_negative_days() {
    let now = Timestamp { secs: 10 * 86_400, nanos: 0 };
    let mut f = file("/in/a", "a", "", 0);
    f.modified_at = Some(Timestamp { secs: 15 * 86_400, nanos: 0 });
    let at_least_three = RuleEngine::new(vec![rule(
        "old",
        1,
        vec![RuleCondition::ModifiedDaysAgo { min: Some(3), max: None }],
        move_to("X"),
    )]);
    assert!(at_least_three.find_matching_rule_at(&f, now).is_none());
    let at_most_zero = RuleEngine::new(vec![rule(
        "new",
        1,
        vec![RuleCondition::ModifiedDaysAgo { min: None, max: Some(0) }],
        move_to("X"),
    )]);
    assert!(at_most_zero.find_matching_rule_at(&f, now).is_some());
}

#[test]
fn undated_file_takes_the_current_date() {
    let f = file("/in/a.txt", "a.txt", "txt", 0);
    let engine = RuleEngine::new(vec![]);
    let out = engine.resolve_placeholders("{year}-{month}-{day}", &f, &[]);
    assert_eq!(out.len(), 10);
    assert!(!out.contains('{'));
    assert!(out.chars().enumerate().all(|(i, c)| if i == 4 || i == 7 { c == '-' } else { c.is_ascii_digit() }));
}

#[test]
fn instants_before_and_after_the_epoch() {
    assert_eq!(instant_from_epoch(true, 5, 250), Timestamp { secs: 5, nanos: 250 });
    assert_eq!(instant_from_epoch(false, 5, 0), Timestamp { secs: -5, nanos: 0 });
    assert_eq!(instant_from_epoch(false, 5, 250_000_000), Timestamp { secs: -6, nanos: 750_000_000 });
    assert_eq!(instant_from_epoch(true, u64::MAX, 7), Timestamp { secs: i64::MAX, nanos: 7 });
    assert_eq!(instant_from_epoch(false, u64::MAX, 7), Timestamp { secs: i64::MIN, nanos: 0 });
}
