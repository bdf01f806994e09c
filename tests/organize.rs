use floatsort::file_ops::{
    generate_copy_name, plan_action, plan_organize, resolve_conflict, target_path, ActionPlan,
    OrganizeError,
};
use floatsort::models::{ConflictStrategy, FileInfo, Rule, RuleAction, RuleCondition};
use floatsort::rule_engine::RuleEngine;

fn file(path: &str, name: &str, extension: &str) -> FileInfo {
    FileInfo {
        path: path.to_string(),
        name: name.to_string(),
        extension: extension.to_string(),
        size: 1,
        created_at: None,
        modified_at: None,
        is_directory: false,
    }
}

fn names(v: &[&str]) -> Vec<String> {
    v.iter().map(|s| s.to_string()).collect()
}

#[test]
fn skip_leaves_existing_destination_alone() {
    let r = resolve_conflict("/dst/x.txt", true, ConflictStrategy::Skip, &names(&["x.txt"]));
    assert_eq!(r, Ok(None));
}

#[test]
fn overwrite_and_free_targets_write_in_place() {
    assert_eq!(
        resolve_conflict("/dst/x.txt", true, ConflictStrategy::Overwrite, &names(&["x.txt"])),
        Ok(Some("/dst/x.txt".to_string()))
    );
    assert_eq!(
        resolve_conflict("/dst/x.txt", false, ConflictStrategy::Skip, &names(&[])),
        Ok(Some("/dst/x.txt".to_string()))
    );
}

#[test]
fn rename_conflicts_take_successive_copy_names() {
    let first = resolve_conflict("/dst/x.txt", true, ConflictStrategy::Rename, &names(&["x.txt"]));
    assert_eq!(first, Ok(Some("/dst/x (copy).txt".to_string())));
    let second = resolve_conflict(
        "/dst/x.txt",
        true,
        ConflictStrategy::Rename,
        &names(&["x.txt", "x (copy).txt"]),
    );
    assert_eq!(second, Ok(Some("/dst/x (copy 2).txt".to_string())));
}

#[test]
fn copy_name_without_extension() {
    assert_eq!(
        generate_copy_name("/dst/Makefile", &names(&["Makefile", "Makefile (copy)"])),
        Ok("/dst/Makefile (copy 2)".to_string())
    );
    assert_eq!(generate_copy_name("/dst/.bashrc", &names(&[])), Ok("/dst/.bashrc (copy)".to_string()));
}

#[test]
fn copy_names_run_out() {
    let mut taken = names(&["x.txt", "x (copy).txt"]);
    for i in 2..1000 {
        taken.push(format!("x (copy {}).txt", i));
    }
    assert_eq!(generate_copy_name("/dst/x.txt", &taken), Err(OrganizeError::NoFreeCopyName));
    taken.pop();
    assert_eq!(generate_copy_name("/dst/x.txt", &taken), Ok("/dst/x (copy 999).txt".to_string()));
}

#[test]
fn copy_name_needs_parent_and_name() {
    assert_eq!(generate_copy_name("/", &names(&[])), Err(OrganizeError::NoParentDirectory));
    assert_eq!(generate_copy_name("/dst/..", &names(&[])), Err(OrganizeError::NoFileName));
}

#[test]
fn target_keeps_the_source_name() {
    assert_eq!(target_path("/in/a.txt", "/dst"), Ok("/dst/a.txt".to_string()));
    assert_eq!(target_path("/", "/dst"), Err(OrganizeError::NoFileName));
}

#[test]
fn plans_follow_the_action() {
    let f = file("/in/a.txt", "a.txt", "txt");
    let mv = RuleAction::MoveTo { destination: "Texts".to_string() };
    match plan_action(&mv, &f, &[], None) {
        Ok(ActionPlan::Move { dest_dir }) => assert_eq!(dest_dir, "/in/Texts"),
        other => panic!("unexpected {:?}", other),
    }
    let cp = RuleAction::CopyTo { destination: "/backup".to_string() };
    match plan_action(&cp, &f, &[], None) {
        Ok(ActionPlan::Copy { dest_dir }) => assert_eq!(dest_dir, "/backup"),
        other => panic!("unexpected {:?}", other),
    }
    let trash = RuleAction::MoveTo { destination: "{recycle}".to_string() };
    assert!(matches!(plan_action(&trash, &f, &[], None), Ok(ActionPlan::Trash)));
    assert!(matches!(plan_action(&RuleAction::Delete, &f, &[], None), Ok(ActionPlan::Delete)));
    let rn = RuleAction::Rename { pattern: "b.{ext}".to_string() };
    match plan_action(&rn, &f, &[], None) {
        Ok(ActionPlan::Rename { new_path }) => assert_eq!(new_path, "/in/b.txt"),
        other => panic!("unexpected {:?}", other),
    }
    let nowhere = file("", "", "");
    assert!(matches!(plan_action(&rn, &nowhere, &[], None), Err(OrganizeError::NoDestination)));
}

#[test]
fn organize_plan_names_the_rule() {
    let rule = Rule {
        id: "r".to_string(),
        name: "Texts".to_string(),
        enabled: true,
        logic: "and".to_string(),
        conditions: vec![RuleCondition::Extension { values: vec!["txt".to_string()] }],
        action: RuleAction::MoveTo { destination: "T".to_string() },
        priority: 1,
        conflict_strategy: ConflictStrategy::Rename,
        icon: None,
        icon_svg: None,
        color: None,
    };
    let engine = RuleEngine::new(vec![rule]);
    let p = plan_organize(&engine, &file("/in/a.txt", "a.txt", "txt")).unwrap();
    assert_eq!(p.rule_name, "Texts");
    assert_eq!(p.conflict_strategy, ConflictStrategy::Rename);
    assert!(matches!(p.plan, Ok(ActionPlan::Move { ref dest_dir }) if dest_dir == "/in/T"));
    assert!(plan_organize(&engine, &file("/in/a.md", "a.md", "md")).is_none());
}
