use vstd::prelude::*;

use crate::text::{dec, decimal, same_text};

verus! {

/// The state of one CI check, reduced to a closed set.
#[derive(Clone, Copy, Debug, PartialEq, Eq, Structural)]
pub enum CheckStatus {
    Passed,
    Failed,
    Running,
    Queued,
    Skipped,
    Cancelled,
    Unknown,
}

pub open spec fn icon_of(s: CheckStatus) -> Seq<char> {
    match s {
        CheckStatus::Passed => "✓"@,
        CheckStatus::Failed => "✗"@,
        CheckStatus::Running => "◐"@,
        CheckStatus::Queued => "○"@,
        CheckStatus::Skipped => "○"@,
        CheckStatus::Cancelled => "⊘"@,
        CheckStatus::Unknown => "?"@,
    }
}

pub open spec fn color_of(s: CheckStatus) -> Seq<char> {
    match s {
        CheckStatus::Passed => "\x1b[32m"@,
        CheckStatus::Failed => "\x1b[31m"@,
        CheckStatus::Running => "\x1b[33m"@,
        _ => "\x1b[90m"@,
    }
}

impl CheckStatus {
    /// The glyph that stands for the status.
    pub fn icon(&self) -> (r: &'static str)
        ensures
            r@ == icon_of(*self),
    {
        match self {
            CheckStatus::Passed => "✓",
            CheckStatus::Failed => "✗",
            CheckStatus::Running => "◐",
            CheckStatus::Queued => "○",
            CheckStatus::Skipped => "○",
            CheckStatus::Cancelled => "⊘",
            CheckStatus::Unknown => "?",
        }
    }

    /// The terminal color escape for the status: green, red, yellow, or gray.
    pub fn color_code(&self) -> (r: &'static str)
        ensures
            r@ == color_of(*self),
    {
        match self {
            CheckStatus::Passed => "\x1b[32m",
            CheckStatus::Failed => "\x1b[31m",
            CheckStatus::Running => "\x1b[33m",
            CheckStatus::Queued => "\x1b[90m",
            CheckStatus::Skipped => "\x1b[90m",
            CheckStatus::Cancelled => "\x1b[90m",
            CheckStatus::Unknown => "\x1b[90m",
        }
    }
}

/// A moment as whole seconds since the Unix epoch and the nanoseconds past them.
#[derive(Clone, Copy, Debug, PartialEq, Eq, Structural)]
pub struct Timestamp {
    pub secs: i64,
    pub nanos: u32,
}

/// The moment an RFC 3339 text denotes, if it is well formed.
pub uninterp spec fn rfc3339_instant(text: Seq<char>) -> Option<Timestamp>;

/// Relies on chrono's `DateTime::parse_from_rfc3339`, read back through
/// `timestamp` and `timestamp_subsec_nanos`: the outcome depends on the text alone.
#[verifier::external_body]
fn parse_instant(text: &str) -> (r: Option<Timestamp>)
    ensures
        r == rfc3339_instant(text@),
{
    match chrono::DateTime::parse_from_rfc3339(text) {
        Ok(t) => Some(Timestamp { secs: t.timestamp(), nanos: t.timestamp_subsec_nanos() }),
        Err(_) => None,
    }
}

pub open spec fn nanos_between(start: Timestamp, end: Timestamp) -> int {
    (end.secs - start.secs) * 1_000_000_000 + (end.nanos - start.nanos)
}

/// Whole seconds from `start` to `end`, never negative, at most `u64::MAX`.
pub open spec fn elapsed_secs(start: Timestamp, end: Timestamp) -> u64 {
    let d = nanos_between(start, end);
    if d <= 0 {
        0
    } else if d / 1_000_000_000 > u64::MAX {
        u64::MAX
    } else {
        (d / 1_000_000_000) as u64
    }
}

/// The whole seconds between two moments, when both are known; zero when the
/// end comes first.
pub fn elapsed_between(start: Option<Timestamp>, end: Option<Timestamp>) -> (r: Option<u64>)
    ensures
        r == (match (start, end) {
            (Some(s), Some(e)) => Some(elapsed_secs(s, e)),
            _ => None,
        }),
{
    match (start, end) {
        (Some(s), Some(e)) => {
            let ds: i128 = e.secs as i128 - s.secs as i128;
            assert(-0x1_0000_0000_0000_0000 < ds < 0x1_0000_0000_0000_0000);
            assert(-0x1_0000_0000_0000_0000 * 1_000_000_000 < ds * 1_000_000_000
                < 0x1_0000_0000_0000_0000 * 1_000_000_000) by (nonlinear_arith)
                requires
                    -0x1_0000_0000_0000_0000 < ds < 0x1_0000_0000_0000_0000,
            ;
            let d: i128 = ds * 1_000_000_000 + (e.nanos as i128 - s.nanos as i128);
            assert(d == nanos_between(s, e));
            if d <= 0 {
                Some(0)
            } else {
                let q: i128 = d / 1_000_000_000;
                if q > u64::MAX as i128 {
                    Some(u64::MAX)
                } else {
                    Some(q as u64)
                }
            }
        },
        _ => None,
    }
}

pub open spec fn opt_view(o: Option<String>) -> Option<Seq<char>> {
    match o {
        Some(s) => Some(s@),
        None => None,
    }
}

/// The status that a check's coarse bucket, and its state, stand for.
pub open spec fn status_of(bucket: Option<Seq<char>>, state: Option<Seq<char>>) -> CheckStatus {
    match bucket {
        Some(b) => if b == "pass"@ {
            CheckStatus::Passed
        } else if b == "fail"@ {
            CheckStatus::Failed
        } else if b == "pending"@ {
            if state == Some("IN_PROGRESS"@) {
                CheckStatus::Running
            } else {
                CheckStatus::Queued
            }
        } else if b == "skipping"@ {
            CheckStatus::Skipped
        } else if b == "cancel"@ {
            CheckStatus::Cancelled
        } else {
            CheckStatus::Unknown
        },
        None => CheckStatus::Unknown,
    }
}

fn is_text(o: &Option<String>, w: &str) -> (r: bool)
    ensures
        r == (opt_view(*o) == Some(w@)),
{
    match o {
        Some(s) => same_text(s.as_str(), w),
        None => false,
    }
}

/// Maps a check's bucket and state to its status.
pub fn status_from(bucket: &Option<String>, state: &Option<String>) -> (r: CheckStatus)
    ensures
        r == status_of(opt_view(*bucket), opt_view(*state)),
{
    if is_text(bucket, "pass") {
        CheckStatus::Passed
    } else if is_text(bucket, "fail") {
        CheckStatus::Failed
    } else if is_text(bucket, "pending") {
        if is_text(state, "IN_PROGRESS") {
            CheckStatus::Running
        } else {
            CheckStatus::Queued
        }
    } else if is_text(bucket, "skipping") {
        CheckStatus::Skipped
    } else if is_text(bucket, "cancel") {
        CheckStatus::Cancelled
    } else {
        CheckStatus::Unknown
    }
}

/// The seconds a check took, from its start and end texts.
pub open spec fn duration_of(start: Option<Seq<char>>, end: Option<Seq<char>>) -> Option<u64> {
    match (start, end) {
        (Some(s), Some(e)) => match (rfc3339_instant(s), rfc3339_instant(e)) {
            (Some(a), Some(b)) => Some(elapsed_secs(a, b)),
            _ => None,
        },
        _ => None,
    }
}

/// The seconds a check took, when both of its times are present and well formed.
pub fn check_duration(started_at: &Option<String>, completed_at: &Option<String>) -> (r: Option<
    u64,
>)
    ensures
        r == duration_of(opt_view(*started_at), opt_view(*completed_at)),
{
    match (started_at, completed_at) {
        (Some(s), Some(e)) => {
            let a = parse_instant(s.as_str());
            let b = parse_instant(e.as_str());
            elapsed_between(a, b)
        },
        _ => None,
    }
}

/// A check record as the CI provider reports it.
pub struct RawCheck {
    pub name: String,
    pub state: Option<String>,
    pub conclusion: Option<String>,
    pub started_at: Option<String>,
    pub completed_at: Option<String>,
    pub details_url: Option<String>,
    pub bucket: Option<String>,
}

pub struct RawCheckModel {
    pub name: Seq<char>,
    pub state: Option<Seq<char>>,
    pub conclusion: Option<Seq<char>>,
    pub started_at: Option<Seq<char>>,
    pub completed_at: Option<Seq<char>>,
    pub details_url: Option<Seq<char>>,
    pub bucket: Option<Seq<char>>,
}

impl View for RawCheck {
    type V = RawCheckModel;

    open spec fn view(&self) -> RawCheckModel {
        RawCheckModel {
            name: self.name@,
            state: opt_view(self.state),
            conclusion: opt_view(self.conclusion),
            started_at: opt_view(self.started_at),
            completed_at: opt_view(self.completed_at),
            details_url: opt_view(self.details_url),
            bucket: opt_view(self.bucket),
        }
    }
}

/// A normalized check.
#[derive(Clone, Debug)]
pub struct Check {
    pub name: String,
    pub status: CheckStatus,
    pub conclusion: Option<String>,
    pub duration_secs: Option<u64>,
    pub url: Option<String>,
}

pub struct CheckModel {
    pub name: Seq<char>,
    pub status: CheckStatus,
    pub conclusion: Option<Seq<char>>,
    pub duration_secs: Option<u64>,
    pub url: Option<Seq<char>>,
}

impl View for Check {
    type V = CheckModel;

    open spec fn view(&self) -> CheckModel {
        CheckModel {
            name: self.name@,
            status: self.status,
            conclusion: opt_view(self.conclusion),
            duration_secs: self.duration_secs,
            url: opt_view(self.url),
        }
    }
}

/// The check that a raw record normalizes to.
pub open spec fn normalized(raw: RawCheckModel) -> CheckModel {
    CheckModel {
        name: raw.name,
        status: status_of(raw.bucket, raw.state),
        conclusion: raw.conclusion,
        duration_secs: duration_of(raw.started_at, raw.completed_at),
        url: raw.details_url,
    }
}

/// Turns a raw record into a check: the status from the bucket and state, the
/// duration from the two times; the name, conclusion and link are kept.
pub fn normalize_check(raw: RawCheck) -> (r: Check)
    ensures
        r@ == normalized(raw@),
{
    let status = status_from(&raw.bucket, &raw.state);
    let duration_secs = check_duration(&raw.started_at, &raw.completed_at);
    Check {
        name: raw.name,
        status,
        conclusion: raw.conclusion,
        duration_secs,
        url: raw.details_url,
    }
}

/// Normalization is a function of the record: equal records give equal checks.
pub proof fn lemma_normalize_deterministic(a: RawCheckModel, b: RawCheckModel)
    requires
        a == b,
    ensures
        normalized(a) == normalized(b),
{
}

/// How many of `ss` are `st`.
pub open spec fn count_of(ss: Seq<CheckStatus>, st: CheckStatus) -> nat
    decreases ss.len(),
{
    if ss.len() == 0 {
        0
    } else {
        count_of(ss.drop_last(), st) + if ss.last() == st {
            1nat
        } else {
            0nat
        }
    }
}

pub open spec fn statuses(checks: Seq<Check>) -> Seq<CheckStatus> {
    checks.map_values(|c: Check| c.status)
}

/// The overall status from the counts: a failure first, then work still
/// outstanding, then a pass.
pub open spec fn overall_status(failed: nat, running: nat, queued: nat, passed: nat) -> CheckStatus {
    if failed > 0 {
        CheckStatus::Failed
    } else if running > 0 || queued > 0 {
        CheckStatus::Running
    } else if passed > 0 {
        CheckStatus::Passed
    } else {
        CheckStatus::Unknown
    }
}

/// The counts of a list of checks, per status, with its overall status.
#[derive(Clone, Copy, Debug, PartialEq, Eq, Structural)]
pub struct CheckSummary {
    pub total: usize,
    pub passed: usize,
    pub failed: usize,
    pub running: usize,
    pub queued: usize,
    pub skipped: usize,
    pub cancelled: usize,
    pub overall: CheckStatus,
}

pub struct SummaryModel {
    pub total: nat,
    pub passed: nat,
    pub failed: nat,
    pub running: nat,
    pub queued: nat,
    pub skipped: nat,
    pub cancelled: nat,
    pub overall: CheckStatus,
}

impl View for CheckSummary {
    type V = SummaryModel;

    open spec fn view(&self) -> SummaryModel {
        SummaryModel {
            total: self.total as nat,
            passed: self.passed as nat,
            failed: self.failed as nat,
            running: self.running as nat,
            queued: self.queued as nat,
            skipped: self.skipped as nat,
            cancelled: self.cancelled as nat,
            overall: self.overall,
        }
    }
}

/// The summary of a list of checks.
pub open spec fn summary_of(checks: Seq<Check>) -> SummaryModel {
    let ss = statuses(checks);
    SummaryModel {
        total: checks.len(),
        passed: count_of(ss, CheckStatus::Passed),
        failed: count_of(ss, CheckStatus::Failed),
        running: count_of(ss, CheckStatus::Running),
        queued: count_of(ss, CheckStatus::Queued),
        skipped: count_of(ss, CheckStatus::Skipped),
        cancelled: count_of(ss, CheckStatus::Cancelled),
        overall: overall_status(
            count_of(ss, CheckStatus::Failed),
            count_of(ss, CheckStatus::Running),
            count_of(ss, CheckStatus::Queued),
            count_of(ss, CheckStatus::Passed),
        ),
    }
}

/// The one-line description of a summary.
pub open spec fn summary_text(m: SummaryModel) -> Seq<char> {
    if m.failed > 0 {
        dec(m.failed) + " failed"@
    } else if m.running > 0 || m.queued > 0 {
        dec(m.passed) + "/"@ + dec(m.total) + " running"@
    } else if m.passed > 0 {
        dec(m.passed) + "/"@ + dec(m.total) + " passed"@
    } else {
        "no checks"@
    }
}

impl CheckSummary {
    /// Describes the summary in a few words, by the same precedence as the
    /// overall status.
    pub fn text(&self) -> (r: String)
        ensures
            r@ == summary_text(self@),
    {
        if self.failed > 0 {
            let mut s = decimal(self.failed as u128);
            s.append(" failed");
            s
        } else if self.running > 0 || self.queued > 0 {
            let mut s = decimal(self.passed as u128);
            s.append("/");
            s.append(decimal(self.total as u128).as_str());
            s.append(" running");
            s
        } else if self.passed > 0 {
            let mut s = decimal(self.passed as u128);
            s.append("/");
            s.append(decimal(self.total as u128).as_str());
            s.append(" passed");
            s
        } else {
            String::from_str("no checks")
        }
    }
}

/// Counts the checks per status and derives the overall status.
pub fn summarize_checks(checks: &[Check]) -> (r: CheckSummary)
    ensures
        r@ == summary_of(checks@),
{
    let mut passed: usize = 0;
    let mut failed: usize = 0;
    let mut running: usize = 0;
    let mut queued: usize = 0;
    let mut skipped: usize = 0;
    let mut cancelled: usize = 0;
    let mut i: usize = 0;
    while i < checks.len()
        invariant
            i <= checks.len(),
            passed == count_of(statuses(checks@.take(i as int)), CheckStatus::Passed),
            failed == count_of(statuses(checks@.take(i as int)), CheckStatus::Failed),
            running == count_of(statuses(checks@.take(i as int)), CheckStatus::Running),
            queued == count_of(statuses(checks@.take(i as int)), CheckStatus::Queued),
            skipped == count_of(statuses(checks@.take(i as int)), CheckStatus::Skipped),
            cancelled == count_of(statuses(checks@.take(i as int)), CheckStatus::Cancelled),
            passed + failed + running + queued + skipped + cancelled <= i,
        decreases checks.len() - i,
    {
        proof {
            let prev = statuses(checks@.take(i as int));
            let next = statuses(checks@.take(i + 1));
            assert(next.drop_last() =~= prev);
            assert(next.last() == checks@[i as int].status);
        }
        match checks[i].status {
            CheckStatus::Passed => passed += 1,
            CheckStatus::Failed => failed += 1,
            CheckStatus::Running => running += 1,
            CheckStatus::Queued => queued += 1,
            CheckStatus::Skipped => skipped += 1,
            CheckStatus::Cancelled => cancelled += 1,
            CheckStatus::Unknown => {},
        }
        i += 1;
    }
    assert(checks@.take(i as int) =~= checks@);
    let overall = if failed > 0 {
        CheckStatus::Failed
    } else if running > 0 || queued > 0 {
        CheckStatus::Running
    } else if passed > 0 {
        CheckStatus::Passed
    } else {
        CheckStatus::Unknown
    };
    CheckSummary {
        total: checks.len(),
        passed,
        failed,
        running,
        queued,
        skipped,
        cancelled,
        overall,
    }
}

proof fn lemma_counts_add_up(ss: Seq<CheckStatus>)
    ensures
        count_of(ss, CheckStatus::Passed) + count_of(ss, CheckStatus::Failed) + count_of(
            ss,
            CheckStatus::Running,
        ) + count_of(ss, CheckStatus::Queued) + count_of(ss, CheckStatus::Skipped) + count_of(
            ss,
            CheckStatus::Cancelled,
        ) + count_of(ss, CheckStatus::Unknown) == ss.len(),
    decreases ss.len(),
{
    if ss.len() > 0 {
        lemma_counts_add_up(ss.drop_last());
    }
}

/// A summary counts every check once: its total is the number of checks, and the
/// six counts together with the checks of unknown status make up that total.
pub proof fn lemma_summary_counts(checks: Seq<Check>)
    ensures
        summary_of(checks).total == checks.len(),
        summary_of(checks).passed + summary_of(checks).failed + summary_of(checks).running
            + summary_of(checks).queued + summary_of(checks).skipped + summary_of(
            checks,
        ).cancelled + count_of(statuses(checks), CheckStatus::Unknown) == summary_of(
            checks,
        ).total,
{
    lemma_counts_add_up(statuses(checks));
}

proof fn lemma_count_positive(ss: Seq<CheckStatus>, i: int, st: CheckStatus)
    requires
        0 <= i < ss.len(),
        ss[i] == st,
    ensures
        count_of(ss, st) > 0,
    decreases ss.len(),
{
    if i < ss.len() - 1 {
        lemma_count_positive(ss.drop_last(), i, st);
    }
}

/// One failed check makes the overall status a failure, whatever else passed.
pub proof fn lemma_failure_dominates(checks: Seq<Check>, i: int)
    requires
        0 <= i < checks.len(),
        checks[i].status == CheckStatus::Failed,
    ensures
        summary_of(checks).overall == CheckStatus::Failed,
{
    lemma_count_positive(statuses(checks), i, CheckStatus::Failed);
}

/// No checks at all: the overall status is unknown and the text says so.
pub proof fn lemma_no_checks(checks: Seq<Check>)
    requires
        checks.len() == 0,
    ensures
        summary_of(checks).overall == CheckStatus::Unknown,
        summary_text(summary_of(checks)) == "no checks"@,
{
    assert(statuses(checks) =~= Seq::<CheckStatus>::empty());
}

proof fn lemma_count_is_multiplicity(ss: Seq<CheckStatus>, st: CheckStatus)
    ensures
        count_of(ss, st) == ss.to_multiset().count(st),
    decreases ss.len(),
{
    broadcast use vstd::seq_lib::group_to_multiset_ensures, vstd::multiset::group_multiset_axioms;

    if ss.len() == 0 {
        assert(ss.to_multiset() =~= vstd::multiset::Multiset::<CheckStatus>::empty());
    } else {
        lemma_count_is_multiplicity(ss.drop_last(), st);
        assert(ss.drop_last().push(ss.last()) =~= ss);
    }
}

/// The summary depends on which statuses occur how often, not on the order of
/// the checks: lists whose statuses are the same multiset summarize alike.
pub proof fn lemma_summary_ignores_order(a: Seq<Check>, b: Seq<Check>)
    requires
        statuses(a).to_multiset() == statuses(b).to_multiset(),
    ensures
        summary_of(a) == summary_of(b),
{
    broadcast use vstd::seq_lib::group_to_multiset_ensures;

    assert(statuses(a).len() == statuses(a).to_multiset().len());
    assert(statuses(b).len() == statuses(b).to_multiset().len());
    lemma_count_is_multiplicity(statuses(a), CheckStatus::Passed);
    lemma_count_is_multiplicity(statuses(b), CheckStatus::Passed);
    lemma_count_is_multiplicity(statuses(a), CheckStatus::Failed);
    lemma_count_is_multiplicity(statuses(b), CheckStatus::Failed);
    lemma_count_is_multiplicity(statuses(a), CheckStatus::Running);
    lemma_count_is_multiplicity(statuses(b), CheckStatus::Running);
    lemma_count_is_multiplicity(statuses(a), CheckStatus::Queued);
    lemma_count_is_multiplicity(statuses(b), CheckStatus::Queued);
    lemma_count_is_multiplicity(statuses(a), CheckStatus::Skipped);
    lemma_count_is_multiplicity(statuses(b), CheckStatus::Skipped);
    lemma_count_is_multiplicity(statuses(a), CheckStatus::Cancelled);
    lemma_count_is_multiplicity(statuses(b), CheckStatus::Cancelled);
}

} // verus!
