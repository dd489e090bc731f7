use stack_status::checks::{
    check_duration, elapsed_between, normalize_check, status_from, summarize_checks, Check,
    CheckStatus, RawCheck, Timestamp,
};

fn check(status: CheckStatus) -> Check {
    Check { name: "ci".to_string(), status, conclusion: None, duration_secs: None, url: None }
}

fn raw(bucket: Option<&str>, state: Option<&str>) -> RawCheck {
    RawCheck {
        name: "build".to_string(),
        state: state.map(|s| s.to_string()),
        conclusion: Some("success".to_string()),
        started_at: Some("2024-05-01T10:00:00Z".to_string()),
        completed_at: Some("2024-05-01T10:03:07Z".to_string()),
        details_url: Some("https://example.com/run/1".to_string()),
        bucket: bucket.map(|s| s.to_string()),
    }
}

#[test]
fn one_failure_dominates() {
    let s = summarize_checks(&[
        check(CheckStatus::Failed),
        check(CheckStatus::Passed),
        check(CheckStatus::Passed),
    ]);
    assert_eq!(s.total, 3);
    assert_eq!(s.passed, 2);
    assert_eq!(s.failed, 1);
    assert_eq!(s.overall, CheckStatus::Failed);
    assert_eq!(s.text(), "1 failed");
}

#[test]
fn queued_counts_as_running() {
    let s = summarize_checks(&[check(CheckStatus::Running), check(CheckStatus::Queued)]);
    assert_eq!(s.overall, CheckStatus::Running);
    assert_eq!(s.running, 1);
    assert_eq!(s.queued, 1);
    assert_eq!(s.text(), "0/2 running");
}

#[test]
fn no_checks_summary() {
    let s = summarize_checks(&[]);
    assert_eq!(s.total, 0);
    assert_eq!(s.overall, CheckStatus::Unknown);
    assert_eq!(s.text(), "no checks");
}

#[test]
fn counts_add_up_to_total() {
    let all = [
        check(CheckStatus::Passed),
        check(CheckStatus::Failed),
        check(CheckStatus::Running),
        check(CheckStatus::Queued),
        check(CheckStatus::Skipped),
        check(CheckStatus::Cancelled),
        check(CheckStatus::Unknown),
        check(CheckStatus::Passed),
    ];
    let s = summarize_checks(&all);
    assert_eq!(s.total, 8);
    assert_eq!(s.passed, 2);
    assert_eq!(s.skipped, 1);
    assert_eq!(s.cancelled, 1);
    assert_eq!(s.passed + s.failed + s.running + s.queued + s.skipped + s.cancelled + 1, s.total);
}

#[test]
fn passed_and_unknown_summaries() {
    let s = summarize_checks(&[
        check(CheckStatus::Passed),
        check(CheckStatus::Skipped),
        check(CheckStatus::Passed),
    ]);
    assert_eq!(s.overall, CheckStatus::Passed);
    assert_eq!(s.text(), "2/3 passed");
    let u = summarize_checks(&[check(CheckStatus::Skipped), check(CheckStatus::Cancelled)]);
    assert_eq!(u.overall, CheckStatus::Unknown);
    assert_eq!(u.text(), "no checks");
}

#[test]
fn summary_text_with_large_counts() {
    let mut v = Vec::new();
    for _ in 0..12 {
        v.push(check(CheckStatus::Failed));
    }
    for _ in 0..105 {
        v.push(check(CheckStatus::Passed));
    }
    let s = summarize_checks(&v);
    assert_eq!(s.text(), "12 failed");
    assert_eq!(s.total, 117);
}

#[test]
fn bucket_maps_to_status() {
    let some = |s: &str| Some(s.to_string());
    assert_eq!(status_from(&some("pass"), &None), CheckStatus::Passed);
    assert_eq!(status_from(&some("fail"), &None), CheckStatus::Failed);
    assert_eq!(status_from(&some("pending"), &some("IN_PROGRESS")), CheckStatus::Running);
    assert_eq!(status_from(&some("pending"), &some("QUEUED")), CheckStatus::Queued);
    assert_eq!(status_from(&some("pending"), &None), CheckStatus::Queued);
    assert_eq!(status_from(&some("skipping"), &None), CheckStatus::Skipped);
    assert_eq!(status_from(&some("cancel"), &None), CheckStatus::Cancelled);
    assert_eq!(status_from(&some("PASS"), &None), CheckStatus::Unknown);
    assert_eq!(status_from(&None, &some("IN_PROGRESS")), CheckStatus::Unknown);
}

#[test]
fn normalizes_a_record() {
    let c = normalize_check(raw(Some("pass"), Some("SUCCESS")));
    assert_eq!(c.name, "build");
    assert_eq!(c.status, CheckStatus::Passed);
    assert_eq!(c.conclusion.as_deref(), Some("success"));
    assert_eq!(c.duration_secs, Some(187));
    assert_eq!(c.url.as_deref(), Some("https://example.com/run/1"));
}

#[test]
fn normalizing_twice_gives_the_same_check() {
    let a = normalize_check(raw(Some("pending"), Some("IN_PROGRESS")));
    let b = normalize_check(raw(Some("pending"), Some("IN_PROGRESS")));
    assert_eq!(a.name, b.name);
    assert_eq!(a.status, b.status);
    assert_eq!(a.status, CheckStatus::Running);
    assert_eq!(a.conclusion, b.conclusion);
    assert_eq!(a.duration_secs, b.duration_secs);
    assert_eq!(a.url, b.url);
}

#[test]
fn duration_needs_both_valid_times() {
    let s = |t: &str| Some(t.to_string());
    assert_eq!(check_duration(&s("2024-01-01T00:00:00Z"), &s("2024-01-01T00:01:30Z")), Some(90));
    assert_eq!(check_duration(&s("2024-01-01T00:00:00+02:00"), &s("2023-12-31T22:00:05Z")), Some(5));
    assert_eq!(check_duration(&s("2024-01-01T00:01:30Z"), &s("2024-01-01T00:00:00Z")), Some(0));
    assert_eq!(check_duration(&s("2024-01-01T00:00:00.9Z"), &s("2024-01-01T00:00:01.1Z")), Some(0));
    assert_eq!(check_duration(&s("2024-01-01T00:00:00.5Z"), &s("2024-01-01T00:00:02.6Z")), Some(2));
    assert_eq!(check_duration(&s("not a time"), &s("2024-01-01T00:00:00Z")), None);
    assert_eq!(check_duration(&None, &s("2024-01-01T00:00:00Z")), None);
    assert_eq!(check_duration(&s("2024-01-01T00:00:00Z"), &None), None);
}

#[test]
fn elapsed_between_moments() {
    let a = Timestamp { secs: 100, nanos: 500_000_000 };
    let b = Timestamp { secs: 103, nanos: 400_000_000 };
    assert_eq!(elapsed_between(Some(a), Some(b)), Some(2));
    assert_eq!(elapsed_between(Some(b), Some(a)), Some(0));
    assert_eq!(elapsed_between(None, Some(a)), None);
    let lo = Timestamp { secs: i64::MIN, nanos: 0 };
    let hi = Timestamp { secs: i64::MAX, nanos: 999_999_999 };
    assert_eq!(elapsed_between(Some(lo), Some(hi)), Some(u64::MAX));
}

#[test]
fn status_icons_and_colors() {
    assert_eq!(CheckStatus::Passed.icon(), "✓");
    assert_eq!(CheckStatus::Failed.icon(), "✗");
    assert_eq!(CheckStatus::Running.icon(), "◐");
    assert_eq!(CheckStatus::Queued.icon(), "○");
    assert_eq!(CheckStatus::Cancelled.icon(), "⊘");
    assert_eq!(CheckStatus::Unknown.icon(), "?");
    assert_eq!(CheckStatus::Passed.color_code(), "\x1b[32m");
    assert_eq!(CheckStatus::Failed.color_code(), "\x1b[31m");
    assert_eq!(CheckStatus::Running.color_code(), "\x1b[33m");
    assert_eq!(CheckStatus::Skipped.color_code(), "\x1b[90m");
}

#[test]
fn order_of_checks_does_not_matter() {
    let a = summarize_checks(&[
        check(CheckStatus::Queued),
        check(CheckStatus::Passed),
        check(CheckStatus::Skipped),
    ]);
    let b = summarize_checks(&[
        check(CheckStatus::Passed),
        check(CheckStatus::Skipped),
        check(CheckStatus::Queued),
    ]);
    assert_eq!(a, b);
    assert_eq!(a.overall, CheckStatus::Running);
}
