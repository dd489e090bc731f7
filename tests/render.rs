use stack_status::checks::{summarize_checks, Check, CheckStatus};
use stack_status::display::{
    branch_status_line, check_label, check_row, check_timing, fit_to_width, pad_left, pad_right,
    render_lines,
};
use stack_status::stack::{compose_branch, summaries_are_consistent, StackStatus};
use stack_status::topology::BranchInfo;

fn info(name: &str, is_current: bool, is_trunk: bool) -> BranchInfo {
    BranchInfo { name: name.to_string(), is_current, is_trunk }
}

fn check(name: &str, status: CheckStatus, duration_secs: Option<u64>) -> Check {
    Check { name: name.to_string(), status, conclusion: None, duration_secs, url: None }
}

#[test]
fn status_lines() {
    let trunk = compose_branch(info("main", false, true), None, None);
    assert_eq!(branch_status_line(&trunk, 0), "");
    let no_pr = compose_branch(info("feature", false, false), None, None);
    assert_eq!(branch_status_line(&no_pr, 0), "\x1b[2m— No PR\x1b[0m");
    let running = compose_branch(
        info("feature", false, false),
        Some(1),
        Some(vec![
            check("a", CheckStatus::Passed, None),
            check("b", CheckStatus::Running, None),
            check("c", CheckStatus::Failed, None),
        ]),
    );
    assert_eq!(
        branch_status_line(&running, 0),
        "\x1b[31m✗ ✗ 1 failed\x1b[0m, \x1b[32m1 passed\x1b[0m"
    );
    let busy = compose_branch(
        info("feature", false, false),
        Some(1),
        Some(vec![check("a", CheckStatus::Passed, None), check("b", CheckStatus::Queued, None)]),
    );
    assert_eq!(branch_status_line(&busy, 1), "\x1b[33m◓ ◓ Running (1/2)\x1b[0m");
    let done = compose_branch(
        info("feature", false, false),
        Some(1),
        Some(vec![check("a", CheckStatus::Passed, None)]),
    );
    assert_eq!(branch_status_line(&done, 0), "\x1b[32m✓ ✓ All 1 passed\x1b[0m");
    let empty = compose_branch(info("feature", false, false), Some(1), Some(vec![]));
    assert_eq!(branch_status_line(&empty, 0), "\x1b[2mno checks\x1b[0m");
}

#[test]
fn padding_and_fitting() {
    assert_eq!(pad_right("ab", 4), "ab  ");
    assert_eq!(pad_right("abcdef", 4), "abcdef");
    assert_eq!(pad_left("ab", 4), "  ab");
    assert_eq!(fit_to_width("abcdef", 4), "abc…");
    assert_eq!(fit_to_width("abcd", 4), "abcd");
    assert_eq!(fit_to_width("ébène", 3), "éb…");
}

#[test]
fn check_pieces() {
    assert_eq!(check_timing(&check("a", CheckStatus::Passed, Some(187))), "3m7s");
    assert_eq!(check_timing(&check("a", CheckStatus::Failed, None)), "—");
    assert_eq!(check_timing(&check("a", CheckStatus::Running, Some(5))), "running…");
    assert_eq!(check_timing(&check("a", CheckStatus::Cancelled, None)), "cancelled");
    assert_eq!(check_label(CheckStatus::Failed), "\x1b[31mFAILED\x1b[0m");
    assert_eq!(check_label(CheckStatus::Cancelled), "\x1b[90mstopped\x1b[0m");
    let row = check_row(&check("build", CheckStatus::Passed, Some(42)), 0, 30, false);
    assert_eq!(
        row,
        "    \x1b[2m│\x1b[0m \x1b[32m✓ build        42s  \x1b[32mpassed\x1b[0m  \x1b[2m│\x1b[0m"
    );
    let mut linked = check("lint", CheckStatus::Skipped, None);
    linked.url = Some("https://example.com".to_string());
    let row = check_row(&linked, 0, 30, true);
    assert!(row.contains("◌ lint "));
    assert!(row.contains("   skipped  \x1b[90mskipped\x1b[0m \x1b[2m↗\x1b[0m"));
}

#[test]
fn whole_frame() {
    let status = StackStatus::compose(
        vec![info("feature", true, false), info("main", false, true)],
        vec![Some(42), None],
        vec![
            Some(vec![check("build", CheckStatus::Passed, Some(61)), check("test", CheckStatus::Running, None)]),
            None,
        ],
        "09:30:00".to_string(),
    );
    assert!(summaries_are_consistent(&status));
    let lines = render_lines(&status, false, 0, 80);
    assert_eq!(lines[0], format!("\x1b[2m╭{}╮\x1b[0m", "─".repeat(78)));
    assert_eq!(
        lines[1],
        format!(
            "\x1b[2m│\x1b[0m \x1b[1mStack Status\x1b[0m{}\x1b[36mUpdated: 09:30:00 \x1b[2m│\x1b[0m",
            " ".repeat(80 - 4 - 12 - 17)
        )
    );
    assert_eq!(lines[3], "");
    assert_eq!(lines[4], "\x1b[34m◉\x1b[0m \x1b[1mfeature\x1b[0m \x1b[36m#42\x1b[0m");
    assert_eq!(lines[5], "    \x1b[33m◐ ◐ Running (1/2)\x1b[0m");
    assert_eq!(lines[6], "");
    assert_eq!(lines[7], format!("    \x1b[2m┌{}┐\x1b[0m", "─".repeat(72)));
    assert!(lines[8].contains("build"));
    assert!(lines[8].contains("1m1s"));
    assert!(lines[9].contains("⠋ test"));
    assert!(lines[11].contains(" 1/2 complete "));
    assert!(lines[11].contains(&format!("\x1b[36m{}\x1b[2m{}\x1b[0m", "█".repeat(20), "░".repeat(20))));
    assert_eq!(lines[12], format!("    \x1b[2m└{}┘\x1b[0m", "─".repeat(72)));
    assert_eq!(lines[13], "\x1b[2m  │\x1b[0m");
    assert_eq!(lines[14], "\x1b[90m●\x1b[0m main");
    assert_eq!(lines[15], "");
    assert_eq!(lines.len(), 16);
}

#[test]
fn inconsistent_summary_is_detected() {
    let mut status = StackStatus::compose(
        vec![info("feature", true, false)],
        vec![Some(1)],
        vec![Some(vec![check("a", CheckStatus::Passed, None)])],
        String::new(),
    );
    assert!(summaries_are_consistent(&status));
    let mut s = summarize_checks(&[]);
    s.passed = 3;
    status.branches[0].summary = Some(s);
    assert!(!summaries_are_consistent(&status));
}
