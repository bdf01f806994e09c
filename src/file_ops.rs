//! Decisions of the file-operation executor: which physical operation an
//! action calls for, where the file lands, and how a name conflict resolves.
//! The filesystem calls themselves are made by the caller.

use vstd::prelude::*;
use vstd::string::StringExecFns;
use crate::clock::now_utc;
use crate::models::{ConflictStrategy, FileInfo, Rule, RuleAction, Timestamp};
use crate::paths::{
    file_name, file_name_of, join_path, joined_path, parent, parent_of, split_extension,
    stem_and_extension,
};
use crate::rule_engine::{
    date_at, destination_on, destination_text, match_outcome, placeholder_date, recycle_sentinel,
    rule_applies, rule_captures, selects, string_views, CalendarDate, RuleEngine,
};
use crate::text::{decimal, lemma_decimal_injective, lemma_decimal_len, push_decimal, str_eq};

verus! {

/// Candidates " (copy 1)" to " (copy 999)" are probed; the first is written " (copy)".
pub const MAX_COPY_ATTEMPTS: u64 = 1000;

/// Why an operation could not be carried out.
#[derive(Clone, Copy, Debug, PartialEq, Eq, Structural)]
pub enum OrganizeError {
    /// The action yields no destination.
    NoDestination,
    /// The path has no final component to take a name from.
    NoFileName,
    /// The path has no parent directory.
    NoParentDirectory,
    /// Every " (copy N)" candidate is taken.
    NoFreeCopyName,
}

/// The physical operation that an action calls for.
#[derive(Debug)]
pub enum ActionPlan {
    /// Send the file to the trash.
    Trash,
    /// Move the file into this directory.
    Move { dest_dir: String },
    /// Copy the file into this directory.
    Copy { dest_dir: String },
    /// Rename the file to this path.
    Rename { new_path: String },
    /// Delete the file.
    Delete,
}

/// The directory that relative destinations are joined under: the file's
/// parent directory, else ".".
pub open spec fn base_dir(f: FileInfo) -> Seq<char> {
    match parent_of(f.path@) {
        Some(p) => p,
        None => "."@,
    }
}

/// The plan `r` is the one `action` calls for, with captures `caps` and date `date`.
pub open spec fn plans(
    action: RuleAction,
    f: FileInfo,
    caps: Seq<Seq<char>>,
    date: Option<CalendarDate>,
    r: Result<ActionPlan, OrganizeError>,
) -> bool {
    let dest = destination_text(action, f, base_dir(f), caps, date);
    match action {
        RuleAction::MoveTo { destination } => if destination@ == recycle_sentinel() {
            r matches Ok(ActionPlan::Trash)
        } else {
            r matches Ok(ActionPlan::Move { dest_dir }) && dest == Some(dest_dir@)
        },
        RuleAction::CopyTo { destination } => r matches Ok(ActionPlan::Copy { dest_dir }) && dest
            == Some(dest_dir@),
        RuleAction::Rename { pattern } => match dest {
            Some(d) => r matches Ok(ActionPlan::Rename { new_path }) && new_path@ == d,
            None => r == Err::<ActionPlan, OrganizeError>(OrganizeError::NoDestination),
        },
        RuleAction::Delete => r matches Ok(ActionPlan::Delete),
    }
}

/// The physical operation for a matched rule's action.
pub fn plan_action(
    action: &RuleAction,
    file_info: &FileInfo,
    regex_captures: &[String],
    date: Option<CalendarDate>,
) -> (r: Result<ActionPlan, OrganizeError>)
    ensures
        plans(*action, *file_info, string_views(regex_captures@), date, r),
{
    let base = match parent(file_info.path.as_str()) {
        Some(p) => p,
        None => String::from_str("."),
    };
    match action {
        RuleAction::MoveTo { destination } => {
            if str_eq(destination.as_str(), "{recycle}") {
                return Ok(ActionPlan::Trash);
            }
            match destination_on(action, file_info, base.as_str(), regex_captures, date) {
                Some(d) => Ok(ActionPlan::Move { dest_dir: d }),
                None => Err(OrganizeError::NoDestination),
            }
        },
        RuleAction::CopyTo { destination } => {
            match destination_on(action, file_info, base.as_str(), regex_captures, date) {
                Some(d) => Ok(ActionPlan::Copy { dest_dir: d }),
                None => Err(OrganizeError::NoDestination),
            }
        },
        RuleAction::Rename { pattern } => {
            match destination_on(action, file_info, base.as_str(), regex_captures, date) {
                Some(d) => Ok(ActionPlan::Rename { new_path: d }),
                None => Err(OrganizeError::NoDestination),
            }
        },
        RuleAction::Delete => Ok(ActionPlan::Delete),
    }
}

/// The path a moved or copied file takes inside `dest_dir`: its own name there.
pub fn target_path(source: &str, dest_dir: &str) -> (r: Result<String, OrganizeError>)
    ensures
        match file_name_of(source@) {
            Some(n) => r matches Ok(p) && p@ == joined_path(dest_dir@, n),
            None => r == Err::<String, OrganizeError>(OrganizeError::NoFileName),
        },
{
    match file_name(source) {
        Some(n) => Ok(join_path(dest_dir, n.as_str())),
        None => Err(OrganizeError::NoFileName),
    }
}

/// What organizing a file calls for.
#[derive(Debug)]
pub struct OrganizePlan {
    /// Name of the matched rule.
    pub rule_name: String,
    /// Its conflict strategy.
    pub conflict_strategy: ConflictStrategy,
    /// The operation its action plans, or why there is none.
    pub plan: Result<ActionPlan, OrganizeError>,
}

/// `r` is right for `f` at instant `now` with placeholder date `date`:
/// nothing when no rule applies, else the selected rule's name, strategy
/// and plan.
pub open spec fn organize_outcome(
    rules: Seq<Rule>,
    f: FileInfo,
    now: Timestamp,
    date: Option<CalendarDate>,
    r: Option<OrganizePlan>,
) -> bool {
    &&& date == placeholder_date(f, now)
    &&& match r {
        None => forall|i: int| 0 <= i < rules.len() ==> !rule_applies(#[trigger] rules[i], f, now),
        Some(p) => exists|i: int|
            selects(rules, f, now, i) && p.rule_name@ == (#[trigger] rules[i]).name@
                && p.conflict_strategy == rules[i].conflict_strategy && plans(
                rules[i].action,
                f,
                rule_captures(rules[i], f, now).unwrap(),
                date,
                p.plan,
            ),
    }
}

/// Finds the rule for a file and plans what its action does.
pub fn plan_organize(engine: &RuleEngine, file_info: &FileInfo) -> (r: Option<OrganizePlan>)
    ensures
        exists|now: Timestamp, date: Option<CalendarDate>|
            organize_outcome(engine.rules(), *file_info, now, date, r),
{
    let now = now_utc();
    let found = engine.find_matching_rule_at(file_info, now);
    let date = date_at(file_info, now);
    match found {
        None => {
            assert(organize_outcome(engine.rules(), *file_info, now, date, None));
            None
        },
        Some(m) => {
            let plan = plan_action(&m.rule.action, file_info, m.regex_captures.as_slice(), date);
            let r = OrganizePlan {
                rule_name: m.rule.name.clone(),
                conflict_strategy: m.rule.conflict_strategy,
                plan,
            };
            assert(organize_outcome(engine.rules(), *file_info, now, date, Some(r)));
            Some(r)
        },
    }
}

/// The name of copy candidate `i`: "stem (copy).ext" for the first, then
/// "stem (copy i).ext"; without ".ext" when the extension is empty.
pub open spec fn copy_name(stem: Seq<char>, ext: Seq<char>, i: nat) -> Seq<char> {
    let marker = if i == 1 {
        " (copy)"@
    } else {
        " (copy "@ + decimal(i) + ")"@
    };
    if ext.len() == 0 {
        stem + marker
    } else {
        stem + marker + "."@ + ext
    }
}

pub open spec fn name_taken(taken: Seq<String>, name: Seq<char>) -> bool {
    exists|j: int| 0 <= j < taken.len() && (#[trigger] taken[j])@ == name
}

/// Candidate `i` is the first one whose name is not taken.
pub open spec fn first_free_copy(
    stem: Seq<char>,
    ext: Seq<char>,
    taken: Seq<String>,
    i: nat,
) -> bool {
    &&& 1 <= i < MAX_COPY_ATTEMPTS
    &&& !name_taken(taken, copy_name(stem, ext, i))
    &&& forall|k: nat| 1 <= k < i ==> name_taken(taken, #[trigger] copy_name(stem, ext, k))
}

/// Stem and extension ("" when there is none) of the file a path names.
pub open spec fn path_stem_ext(p: Seq<char>) -> (Seq<char>, Seq<char>) {
    let split = stem_and_extension(file_name_of(p).unwrap());
    (
        split.0,
        match split.1 {
            Some(e) => e,
            None => seq![],
        },
    )
}

/// What probing for a free copy name yields for `path`, given the names
/// already present in its directory.
pub open spec fn copy_name_result(
    p: Seq<char>,
    taken: Seq<String>,
    r: Result<String, OrganizeError>,
) -> bool {
    match parent_of(p) {
        None => r == Err::<String, OrganizeError>(OrganizeError::NoParentDirectory),
        Some(dir) => match file_name_of(p) {
            None => r == Err::<String, OrganizeError>(OrganizeError::NoFileName),
            Some(_) => {
                let (stem, ext) = path_stem_ext(p);
                match r {
                    Ok(q) => exists|i: nat|
                        first_free_copy(stem, ext, taken, i) && q@ == joined_path(
                            dir,
                            #[trigger] copy_name(stem, ext, i),
                        ),
                    Err(e) => e == OrganizeError::NoFreeCopyName && forall|k: nat|
                        1 <= k < MAX_COPY_ATTEMPTS ==> name_taken(
                            taken,
                            #[trigger] copy_name(stem, ext, k),
                        ),
                }
            },
        },
    }
}

fn copy_candidate(stem: &str, ext: &str, i: u64) -> (r: String)
    requires
        i >= 1,
    ensures
        r@ == copy_name(stem@, ext@, i as nat),
{
    proof {
        reveal_strlit(" (copy)");
        reveal_strlit(" (copy ");
        reveal_strlit(")");
        reveal_strlit(".");
    }
    let mut s = stem.to_owned();
    if i == 1 {
        s.append(" (copy)");
    } else {
        s.append(" (copy ");
        push_decimal(&mut s, i);
        s.append(")");
    }
    let ghost marker = if i == 1 {
        " (copy)"@
    } else {
        " (copy "@ + decimal(i as nat) + ")"@
    };
    assert(s@ =~= stem@ + marker);
    if ext.unicode_len() != 0 {
        s.append(".");
        s.append(ext);
        assert(s@ =~= stem@ + marker + "."@ + ext@);
    }
    s
}

fn is_taken(taken: &Vec<String>, name: &String) -> (r: bool)
    ensures
        r == name_taken(taken@, name@),
{
    let mut j: usize = 0;
    while j < taken.len()
        invariant
            j <= taken@.len(),
            forall|k: int| 0 <= k < j ==> (#[trigger] taken@[k])@ != name@,
        decreases taken@.len() - j,
    {
        if taken[j] == *name {
            return true;
        }
        j = j + 1;
    }
    false
}

/// The first free "(copy)" / "(copy N)" path beside `path`, given the names
/// `taken` that its directory already holds.
pub fn generate_copy_name(path: &str, taken: &Vec<String>) -> (r: Result<String, OrganizeError>)
    ensures
        copy_name_result(path@, taken@, r),
{
    let dir = match parent(path) {
        Some(d) => d,
        None => return Err(OrganizeError::NoParentDirectory),
    };
    let name = match file_name(path) {
        Some(n) => n,
        None => return Err(OrganizeError::NoFileName),
    };
    let (stem, ext_opt) = split_extension(name.as_str());
    let ext = match ext_opt {
        Some(e) => e,
        None => String::new(),
    };
    let ghost se = path_stem_ext(path@);
    assert(stem@ == se.0 && ext@ == se.1);
    let mut i: u64 = 1;
    while i < MAX_COPY_ATTEMPTS
        invariant
            1 <= i <= MAX_COPY_ATTEMPTS,
            parent_of(path@) == Some(dir@),
            file_name_of(path@).is_some(),
            se == path_stem_ext(path@),
            stem@ == se.0,
            ext@ == se.1,
            forall|k: nat| 1 <= k < i ==> name_taken(taken@, #[trigger] copy_name(se.0, se.1, k)),
        decreases MAX_COPY_ATTEMPTS - i,
    {
        let candidate = copy_candidate(stem.as_str(), ext.as_str(), i);
        if !is_taken(taken, &candidate) {
            let q = join_path(dir.as_str(), candidate.as_str());
            assert(first_free_copy(se.0, se.1, taken@, i as nat));
            assert(q@ == joined_path(dir@, copy_name(se.0, se.1, i as nat)));
            return Ok(q);
        }
        i = i + 1;
    }
    Err(OrganizeError::NoFreeCopyName)
}

/// Where the file is written once the conflict strategy has been applied, or
/// `None` when the operation is skipped; `exists` says whether `target` is
/// already present and `taken` lists the names its directory holds.
pub fn resolve_conflict(
    target: &str,
    exists: bool,
    strategy: ConflictStrategy,
    taken: &Vec<String>,
) -> (r: Result<Option<String>, OrganizeError>)
    ensures
        !exists ==> (r matches Ok(Some(p)) && p@ == target@),
        exists && strategy == ConflictStrategy::Skip ==> r == Ok::<Option<String>, OrganizeError>(
            None,
        ),
        exists && strategy == ConflictStrategy::Overwrite ==> (r matches Ok(Some(p)) && p@
            == target@),
        exists && strategy == ConflictStrategy::Rename ==> match r {
            Ok(Some(p)) => copy_name_result(target@, taken@, Ok(p)),
            Ok(None) => false,
            Err(e) => copy_name_result(target@, taken@, Err(e)),
        },
{
    if !exists {
        return Ok(Some(target.to_owned()));
    }
    match strategy {
        ConflictStrategy::Skip => Ok(None),
        ConflictStrategy::Overwrite => Ok(Some(target.to_owned())),
        ConflictStrategy::Rename => match generate_copy_name(target, taken) {
            Ok(p) => Ok(Some(p)),
            Err(e) => Err(e),
        },
    }
}

proof fn lemma_copy_name_injective(stem: Seq<char>, ext: Seq<char>, i: nat, j: nat)
    requires
        i >= 1,
        j >= 1,
        copy_name(stem, ext, i) == copy_name(stem, ext, j),
    ensures
        i == j,
{
    reveal_strlit(" (copy)");
    reveal_strlit(" (copy ");
    reveal_strlit(")");
    reveal_strlit(".");
    let mi = if i == 1 { " (copy)"@ } else { " (copy "@ + decimal(i) + ")"@ };
    let mj = if j == 1 { " (copy)"@ } else { " (copy "@ + decimal(j) + ")"@ };
    let ci = copy_name(stem, ext, i);
    let tail = if ext.len() == 0 { 0 } else { ext.len() + 1 };
    assert(ci.subrange(stem.len() as int, ci.len() - tail) =~= mi);
    assert(ci.subrange(stem.len() as int, ci.len() - tail) =~= mj);
    if i != j {
        if i >= 2 && j >= 2 {
            assert(decimal(i) =~= mi.subrange(7, mi.len() - 1));
            assert(decimal(j) =~= mj.subrange(7, mj.len() - 1));
            lemma_decimal_injective(i, j);
        } else {
            lemma_decimal_len(if i >= 2 { i } else { j });
            assert(mi.len() != mj.len());
        }
    }
}

/// Successive conflicts on one path take successive copy names: once the
/// first free candidate `i` has been written, the next conflict gets
/// candidate `i + 1` when that one is free.
pub proof fn lemma_copy_names_advance(
    stem: Seq<char>,
    ext: Seq<char>,
    taken: Seq<String>,
    i: nat,
    written: String,
)
    requires
        first_free_copy(stem, ext, taken, i),
        written@ == copy_name(stem, ext, i),
        i + 1 < MAX_COPY_ATTEMPTS,
        !name_taken(taken, copy_name(stem, ext, i + 1)),
    ensures
        first_free_copy(stem, ext, taken.push(written), i + 1),
{
    let t2 = taken.push(written);
    assert(t2[taken.len() as int] == written);
    assert forall|k: nat| 1 <= k < i + 1 implies name_taken(t2, #[trigger] copy_name(stem, ext, k)) by {
        if k == i {
            assert(t2[taken.len() as int]@ == copy_name(stem, ext, k));
        } else {
            let j = choose|j: int| 0 <= j < taken.len() && (#[trigger] taken[j])@ == copy_name(stem, ext, k);
            assert(t2[j] == taken[j]);
        }
    }
    if name_taken(t2, copy_name(stem, ext, i + 1)) {
        let j = choose|j: int| 0 <= j < t2.len() && (#[trigger] t2[j])@ == copy_name(stem, ext, i + 1);
        if j < taken.len() {
            assert(t2[j] == taken[j]);
        } else {
            lemma_copy_name_injective(stem, ext, i, i + 1);
        }
    }
}

} // verus!
