use vstd::prelude::*;

use crate::checks::{lemma_summary_counts, summarize_checks, summary_of, Check, CheckSummary};
use crate::topology::BranchInfo;

verus! {

/// One branch of a snapshot, with its pull request and checks where it has them.
pub struct BranchStatus {
    pub branch: String,
    pub is_current: bool,
    pub is_trunk: bool,
    pub pr: Option<u64>,
    pub checks: Option<Vec<Check>>,
    pub summary: Option<CheckSummary>,
}

/// A snapshot of the whole stack, in stack order, and when it was taken.
pub struct StackStatus {
    pub branches: Vec<BranchStatus>,
    pub timestamp: String,
}

/// Whether nothing is outstanding on a branch: it is a trunk, it has no
/// summary, or no check of it is running or queued.
pub open spec fn branch_settled(b: BranchStatus) -> bool {
    b.is_trunk || match b.summary {
        Some(s) => s.running == 0 && s.queued == 0,
        None => true,
    }
}

pub open spec fn stack_complete(bs: Seq<BranchStatus>) -> bool {
    forall|i: int| 0 <= i < bs.len() ==> #[trigger] branch_settled(bs[i])
}

/// Whether `b` is what composing `info` with the lookups `pr` and `checks`
/// gives: a trunk keeps nothing of them; any other branch keeps its pull
/// request, and its checks with their summary only where it has a pull request.
pub open spec fn composed_from(
    b: BranchStatus,
    info: BranchInfo,
    pr: Option<u64>,
    checks: Option<Vec<Check>>,
) -> bool {
    &&& b.branch@ == info.name@
    &&& b.is_current == info.is_current
    &&& b.is_trunk == info.is_trunk
    &&& if info.is_trunk || pr is None {
        &&& b.pr == (if info.is_trunk { None } else { pr })
        &&& b.checks is None
        &&& b.summary is None
    } else {
        &&& b.pr == pr
        &&& b.checks == checks
        &&& match checks {
            Some(cs) => b.summary is Some && b.summary->0@ == summary_of(cs@),
            None => b.summary is None,
        }
    }
}

/// Whether the counts of a summary fit in its total, as they do for every
/// summary that `summarize_checks` makes.
pub open spec fn summary_fits(s: CheckSummary) -> bool {
    s.passed + s.failed + s.running + s.queued + s.skipped + s.cancelled <= s.total
}

/// Whether the summary of a branch, if any, has counts that fit in its total.
pub open spec fn branch_fits(b: BranchStatus) -> bool {
    match b.summary {
        Some(s) => summary_fits(s),
        None => true,
    }
}

/// Whether every summary of the snapshot has counts that fit in its total.
pub open spec fn summaries_fit(bs: Seq<BranchStatus>) -> bool {
    forall|i: int| 0 <= i < bs.len() ==> #[trigger] branch_fits(bs[i])
}

/// Checks that every summary of the snapshot has counts that fit in its total,
/// as is the case for every snapshot that `StackStatus::compose` makes.
pub fn summaries_are_consistent(status: &StackStatus) -> (r: bool)
    ensures
        r == summaries_fit(status.branches@),
{
    let mut i: usize = 0;
    while i < status.branches.len()
        invariant
            i <= status.branches@.len(),
            forall|j: int| 0 <= j < i ==> #[trigger] branch_fits(status.branches@[j]),
        decreases status.branches@.len() - i,
    {
        match &status.branches[i].summary {
            Some(s) => {
                let fits = (s.passed as u128) + (s.failed as u128) + (s.running as u128) + (
                s.queued as u128) + (s.skipped as u128) + (s.cancelled as u128) <= s.total as u128;
                if !fits {
                    assert(!branch_fits(status.branches@[i as int]));
                    return false;
                }
            },
            None => {},
        }
        i += 1;
    }
    true
}

/// Whether the pull request of a branch is to be looked up.
pub fn needs_pr_lookup(info: &BranchInfo, has_gh: bool) -> (r: bool)
    ensures
        r == (!info.is_trunk && has_gh),
{
    !info.is_trunk && has_gh
}

/// Whether the checks of a branch are to be looked up: only for a branch that
/// is no trunk and has a pull request.
pub fn needs_check_lookup(info: &BranchInfo, pr: Option<u64>) -> (r: bool)
    ensures
        r == (!info.is_trunk && pr is Some),
{
    !info.is_trunk && pr.is_some()
}

/// Whether a parsed listing leaves the stack unknown, so that the checked-out
/// branch stands in for it.
pub fn needs_fallback(parsed: &Vec<BranchInfo>) -> (r: bool)
    ensures
        r == (parsed@.len() == 0),
{
    parsed.len() == 0
}

/// The stack when no listing is available: the checked-out branch alone.
pub fn current_only(current: String) -> (r: Vec<BranchInfo>)
    ensures
        r@.len() == 1,
        r@[0].name@ == current@,
        r@[0].is_current,
        !r@[0].is_trunk,
{
    let mut v: Vec<BranchInfo> = Vec::new();
    v.push(BranchInfo { name: current, is_current: true, is_trunk: false });
    v
}

/// The status of one branch from what was looked up for it.
pub fn compose_branch(info: BranchInfo, pr: Option<u64>, checks: Option<Vec<Check>>) -> (r:
    BranchStatus)
    ensures
        composed_from(r, info, pr, checks),
        branch_fits(r),
{
    if info.is_trunk {
        return BranchStatus {
            branch: info.name,
            is_current: info.is_current,
            is_trunk: true,
            pr: None,
            checks: None,
            summary: None,
        };
    }
    if pr.is_none() {
        return BranchStatus {
            branch: info.name,
            is_current: info.is_current,
            is_trunk: false,
            pr: None,
            checks: None,
            summary: None,
        };
    }
    let summary = match &checks {
        Some(cs) => {
            proof {
                lemma_summary_counts(cs@);
            }
            Some(summarize_checks(cs.as_slice()))
        },
        None => None,
    };
    BranchStatus {
        branch: info.name,
        is_current: info.is_current,
        is_trunk: false,
        pr,
        checks,
        summary,
    }
}

impl StackStatus {
    /// An empty snapshot.
    pub fn new() -> (r: StackStatus)
        ensures
            r.branches@.len() == 0,
            r.timestamp@.len() == 0,
    {
        StackStatus { branches: Vec::new(), timestamp: String::new() }
    }

    /// Composes a snapshot: one branch per descriptor, in the same order, each
    /// with the lookups at its position; the time is set once all are in.
    pub fn compose(
        infos: Vec<BranchInfo>,
        prs: Vec<Option<u64>>,
        checks: Vec<Option<Vec<Check>>>,
        timestamp: String,
    ) -> (r: StackStatus)
        requires
            prs@.len() == infos@.len(),
            checks@.len() == infos@.len(),
        ensures
            r.branches@.len() == infos@.len(),
            forall|i: int|
                0 <= i < infos@.len() ==> composed_from(
                    #[trigger] r.branches@[i],
                    infos@[i],
                    prs@[i],
                    checks@[i],
                ),
            r.timestamp@ == timestamp@,
            summaries_fit(r.branches@),
    {
        let ghost infos0 = infos@;
        let ghost prs0 = prs@;
        let ghost checks0 = checks@;
        let mut infos = infos;
        let mut prs = prs;
        let mut checks = checks;
        let mut branches: Vec<BranchStatus> = Vec::new();
        while infos.len() > 0
            invariant
                prs@.len() == infos@.len(),
                checks@.len() == infos@.len(),
                branches@.len() + infos@.len() == infos0.len(),
                infos@ == infos0.skip(branches@.len() as int),
                prs@ == prs0.skip(branches@.len() as int),
                checks@ == checks0.skip(branches@.len() as int),
                prs0.len() == infos0.len(),
                checks0.len() == infos0.len(),
                forall|i: int|
                    0 <= i < branches@.len() ==> composed_from(
                        #[trigger] branches@[i],
                        infos0[i],
                        prs0[i],
                        checks0[i],
                    ),
                summaries_fit(branches@),
            decreases infos.len(),
        {
            let ghost k = branches@.len() as int;
            let info = infos.remove(0);
            let pr = prs.remove(0);
            let cs = checks.remove(0);
            let b = compose_branch(info, pr, cs);
            branches.push(b);
            proof {
                assert(infos@ =~= infos0.skip(k + 1));
                assert(prs@ =~= prs0.skip(k + 1));
                assert(checks@ =~= checks0.skip(k + 1));
            }
        }
        StackStatus { branches, timestamp }
    }

    /// Whether nothing is outstanding on any branch of the snapshot.
    pub fn all_complete(&self) -> (r: bool)
        ensures
            r == stack_complete(self.branches@),
    {
        let mut i: usize = 0;
        while i < self.branches.len()
            invariant
                i <= self.branches@.len(),
                forall|j: int| 0 <= j < i ==> #[trigger] branch_settled(self.branches@[j]),
            decreases self.branches@.len() - i,
        {
            let b = &self.branches[i];
            let settled = b.is_trunk || match &b.summary {
                Some(s) => s.running == 0 && s.queued == 0,
                None => true,
            };
            if !settled {
                assert(!branch_settled(self.branches@[i as int]));
                return false;
            }
            i += 1;
        }
        true
    }
}

/// A snapshot whose branches are all settled is complete; adding one branch that
/// is no trunk and has a check running makes it incomplete.
pub proof fn lemma_complete_until_running(bs: Seq<BranchStatus>, b: BranchStatus)
    requires
        forall|i: int|
            0 <= i < bs.len() ==> (#[trigger] bs[i]).is_trunk || match bs[i].summary {
                Some(s) => s.running == 0 && s.queued == 0,
                None => true,
            },
        !b.is_trunk,
        b.summary is Some,
        b.summary->0.running >= 1,
    ensures
        stack_complete(bs),
        !stack_complete(bs.push(b)),
{
    assert(forall|i: int| 0 <= i < bs.len() ==> #[trigger] branch_settled(bs[i]) == (bs[i].is_trunk
        || match bs[i].summary {
        Some(s) => s.running == 0 && s.queued == 0,
        None => true,
    }));
    assert(!branch_settled(bs.push(b)[bs.len() as int]));
}

} // verus!
