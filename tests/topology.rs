use stack_status::text::{parse_unsigned, trimmed_nonempty};
use stack_status::topology::{is_trunk_branch, parse_gt_log_short};

#[test]
fn test_parse_gt_log_short() {
    let output = r#"
◉ feature-c
│
◯ feature-b
│
◯ feature-a
│
◯ main
"#;
    let branches = parse_gt_log_short(output);
    assert_eq!(branches.len(), 4);
    assert_eq!(branches[0].name, "feature-c");
    assert!(branches[0].is_current);
    assert!(!branches[0].is_trunk);
    assert_eq!(branches[3].name, "main");
    assert!(branches[3].is_trunk);
}

#[test]
fn parses_three_branch_listing_in_order() {
    let branches = parse_gt_log_short("◉ feature-c\n│\n◯ feature-b\n│\n◯ main");
    assert_eq!(branches.len(), 3);
    assert_eq!(branches[0].name, "feature-c");
    assert!(branches[0].is_current);
    assert!(!branches[0].is_trunk);
    assert_eq!(branches[1].name, "feature-b");
    assert!(!branches[1].is_current);
    assert!(!branches[1].is_trunk);
    assert_eq!(branches[2].name, "main");
    assert!(!branches[2].is_current);
    assert!(branches[2].is_trunk);
}

#[test]
fn trunk_only_listing() {
    let branches = parse_gt_log_short("◉ master\n");
    assert_eq!(branches.len(), 1);
    assert_eq!(branches[0].name, "master");
    assert!(branches[0].is_current);
    assert!(branches[0].is_trunk);
}

#[test]
fn listing_without_glyphs_is_empty() {
    assert!(parse_gt_log_short("").is_empty());
    assert!(parse_gt_log_short("\n\n   \n").is_empty());
    assert!(parse_gt_log_short("no branches here\n│\n").is_empty());
}

#[test]
fn strips_connectors_and_white_space() {
    let text = "◉    branch-name\n◯    another-branch\n│ ◯  side-branch (needs restack)\n◯─┘  develop\r\n◯─┘\n";
    let branches = parse_gt_log_short(text);
    assert_eq!(branches.len(), 4);
    assert_eq!(branches[0].name, "branch-name");
    assert!(branches[0].is_current);
    assert_eq!(branches[1].name, "another-branch");
    assert_eq!(branches[2].name, "side-branch (needs restack)");
    assert!(!branches[2].is_trunk);
    assert_eq!(branches[3].name, "develop");
    assert!(branches[3].is_trunk);
    assert!(!branches[3].is_current);
}

#[test]
fn current_glyph_wins_over_other_glyph() {
    let branches = parse_gt_log_short("◯ ◉ top");
    assert_eq!(branches.len(), 1);
    assert!(branches[0].is_current);
    assert_eq!(branches[0].name, "top");
}

#[test]
fn never_more_branches_than_lines() {
    let text = "◉ a\n◯ b\n◯\n◯ c";
    let branches = parse_gt_log_short(text);
    assert!(branches.len() <= text.split('\n').count());
    assert_eq!(branches.len(), 3);
}

#[test]
fn trunk_names_match_exactly() {
    assert!(is_trunk_branch("main"));
    assert!(is_trunk_branch("master"));
    assert!(is_trunk_branch("develop"));
    assert!(is_trunk_branch("trunk"));
    assert!(!is_trunk_branch("Main"));
    assert!(!is_trunk_branch("main2"));
    assert!(!is_trunk_branch(""));
}

#[test]
fn reads_pull_request_numbers() {
    assert_eq!(parse_unsigned("123\n"), Some(123));
    assert_eq!(parse_unsigned("  +7 "), Some(7));
    assert_eq!(parse_unsigned("0"), Some(0));
    assert_eq!(parse_unsigned("18446744073709551615"), Some(u64::MAX));
    assert_eq!(parse_unsigned("18446744073709551616"), None);
    assert_eq!(parse_unsigned(""), None);
    assert_eq!(parse_unsigned("+"), None);
    assert_eq!(parse_unsigned("-1"), None);
    assert_eq!(parse_unsigned("12a"), None);
    assert_eq!(parse_unsigned("1 2"), None);
    assert_eq!(trimmed_nonempty("  https://x/pull/1\n"), Some("https://x/pull/1".to_string()));
    assert_eq!(trimmed_nonempty(" \n\t"), None);
}

#[test]
fn strips_connectors_after_the_name() {
    let branches = parse_gt_log_short("◯ main ─┘\n◉ ─ feature-x ┤\t\n│ ◯ │\n");
    assert_eq!(branches.len(), 2);
    assert_eq!(branches[0].name, "main");
    assert!(branches[0].is_trunk);
    assert!(!branches[0].is_current);
    assert_eq!(branches[1].name, "feature-x");
    assert!(branches[1].is_current);
    assert!(!branches[1].is_trunk);
}
