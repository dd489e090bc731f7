use stack_status::checks::{Check, CheckStatus};
use stack_status::stack::{
    compose_branch, current_only, needs_check_lookup, needs_fallback, needs_pr_lookup,
    StackStatus,
};
use stack_status::topology::{parse_gt_log_short, BranchInfo};

fn info(name: &str, is_current: bool, is_trunk: bool) -> BranchInfo {
    BranchInfo { name: name.to_string(), is_current, is_trunk }
}

fn check(status: CheckStatus) -> Check {
    Check { name: "ci".to_string(), status, conclusion: None, duration_secs: None, url: None }
}

#[test]
fn trunk_never_keeps_pull_request_data() {
    let b = compose_branch(info("main", false, true), Some(7), Some(vec![check(CheckStatus::Passed)]));
    assert_eq!(b.branch, "main");
    assert!(b.is_trunk);
    assert_eq!(b.pr, None);
    assert!(b.checks.is_none());
    assert!(b.summary.is_none());
}

#[test]
fn branch_without_pull_request_has_no_checks() {
    let b = compose_branch(info("feature", true, false), None, Some(vec![check(CheckStatus::Passed)]));
    assert_eq!(b.pr, None);
    assert!(b.checks.is_none());
    assert!(b.summary.is_none());
    assert!(b.is_current);
}

#[test]
fn branch_with_pull_request_gets_summary() {
    let b = compose_branch(info("feature", false, false), Some(12), Some(vec![]));
    assert_eq!(b.pr, Some(12));
    assert_eq!(b.checks.as_ref().map(|c| c.len()), Some(0));
    let s = b.summary.unwrap();
    assert_eq!(s.total, 0);
    assert_eq!(s.overall, CheckStatus::Unknown);
}

#[test]
fn running_branch_is_not_complete() {
    let status = StackStatus::compose(
        vec![info("feature", true, false)],
        vec![Some(3)],
        vec![Some(vec![check(CheckStatus::Running), check(CheckStatus::Queued)])],
        "12:00:00".to_string(),
    );
    assert_eq!(status.branches.len(), 1);
    assert_eq!(status.branches[0].summary.unwrap().overall, CheckStatus::Running);
    assert!(!status.all_complete());
    assert_eq!(status.timestamp, "12:00:00");
}

#[test]
fn settled_stack_is_complete_until_a_check_runs() {
    let infos = vec![info("top", true, false), info("mid", false, false), info("main", false, true)];
    let status = StackStatus::compose(
        infos,
        vec![Some(2), None, Some(1)],
        vec![Some(vec![check(CheckStatus::Passed), check(CheckStatus::Failed)]), None, None],
        String::new(),
    );
    assert_eq!(status.branches.len(), 3);
    assert_eq!(status.branches[0].branch, "top");
    assert_eq!(status.branches[1].branch, "mid");
    assert_eq!(status.branches[2].branch, "main");
    assert!(status.branches[2].summary.is_none());
    assert!(status.all_complete());

    let mut more = status;
    more.branches.push(compose_branch(
        info("new", false, false),
        Some(9),
        Some(vec![check(CheckStatus::Running)]),
    ));
    assert!(!more.all_complete());
}

#[test]
fn empty_snapshot_is_complete() {
    let status = StackStatus::new();
    assert!(status.branches.is_empty());
    assert!(status.timestamp.is_empty());
    assert!(status.all_complete());
}

#[test]
fn lookup_decisions() {
    let trunk = info("main", false, true);
    let feature = info("feature", true, false);
    assert!(!needs_pr_lookup(&trunk, true));
    assert!(needs_pr_lookup(&feature, true));
    assert!(!needs_pr_lookup(&feature, false));
    assert!(needs_check_lookup(&feature, Some(4)));
    assert!(!needs_check_lookup(&feature, None));
    assert!(!needs_check_lookup(&trunk, Some(4)));
}

#[test]
fn fallback_to_current_branch() {
    let parsed = parse_gt_log_short("nothing drawn here");
    assert!(needs_fallback(&parsed));
    let stack = current_only("wip".to_string());
    assert_eq!(stack.len(), 1);
    assert_eq!(stack[0].name, "wip");
    assert!(stack[0].is_current);
    assert!(!stack[0].is_trunk);
    assert!(!needs_fallback(&stack));
}
