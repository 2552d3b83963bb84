//! Pull requests, their checks and their reviews, as the code host reports them.

use vstd::prelude::*;

use crate::text::{clone_opt, clone_texts, opt_text, same_opt, same_text, same_texts, texts};

verus! {

/// Whether a pull request is open.
#[derive(Clone, Copy, Debug, PartialEq, Eq, Structural)]
pub enum PrState {
    Open,
    Merged,
    Closed,
}

/// The sum of all checks of a pull request.
#[derive(Clone, Copy, Debug, PartialEq, Eq, Structural)]
pub enum CiStatus {
    Pending,
    Passing,
    Failing,
    NoChecks,
}

/// The sum of all reviews of a pull request.
#[derive(Clone, Copy, Debug, PartialEq, Eq, Structural)]
pub enum ReviewDecision {
    NoReview,
    Pending,
    Approved,
    ChangesRequested,
}

/// How one check ended, if it has.
#[derive(Clone, Copy, Debug, PartialEq, Eq, Structural)]
pub enum CheckStatus {
    Pending,
    Running,
    Passed,
    Failed,
    Skipped,
}

/// How a pull request is merged.
#[derive(Clone, Copy, Debug, PartialEq, Eq, Structural)]
pub enum MergeMethod {
    Merge,
    Squash,
    Rebase,
}

/// A pull request.
#[derive(Debug, PartialEq, Eq)]
pub struct PullRequest {
    pub number: u32,
    pub url: String,
    pub title: String,
    pub owner: String,
    pub repo: String,
    pub branch: String,
    pub base_branch: String,
    pub is_draft: bool,
}

impl Clone for PullRequest {
    fn clone(&self) -> (r: Self)
        ensures
            r == *self,
    {
        PullRequest {
            number: self.number,
            url: self.url.clone(),
            title: self.title.clone(),
            owner: self.owner.clone(),
            repo: self.repo.clone(),
            branch: self.branch.clone(),
            base_branch: self.base_branch.clone(),
            is_draft: self.is_draft,
        }
    }
}

/// A copy of a list of pull requests.
pub fn clone_prs(v: &Vec<PullRequest>) -> (r: Vec<PullRequest>)
    ensures
        r@ == v@,
{
    let mut out: Vec<PullRequest> = Vec::new();
    let mut i: usize = 0;
    while i < v.len()
        invariant
            i <= v.len(),
            out@ == v@.take(i as int),
        decreases v.len() - i,
    {
        out.push(v[i].clone());
        assert(v@.take(i as int).push(v@[i as int]) =~= v@.take(i + 1));
        i += 1;
    }
    assert(v@.take(v@.len() as int) =~= v@);
    out
}

/// Whether, and if not why not, a pull request can be merged.
#[derive(Debug, PartialEq, Eq)]
pub struct MergeReadiness {
    pub mergeable: bool,
    pub ci_passing: bool,
    pub approved: bool,
    pub no_conflicts: bool,
    pub blockers: Vec<String>,
}

/// The contents of a `MergeReadiness`.
pub struct ReadinessView {
    pub mergeable: bool,
    pub ci_passing: bool,
    pub approved: bool,
    pub no_conflicts: bool,
    pub blockers: Seq<Seq<char>>,
}

impl View for MergeReadiness {
    type V = ReadinessView;

    open spec fn view(&self) -> ReadinessView {
        ReadinessView {
            mergeable: self.mergeable,
            ci_passing: self.ci_passing,
            approved: self.approved,
            no_conflicts: self.no_conflicts,
            blockers: texts(self.blockers@),
        }
    }
}

impl Clone for MergeReadiness {
    fn clone(&self) -> (r: Self)
        ensures
            r@ == self@,
    {
        MergeReadiness {
            mergeable: self.mergeable,
            ci_passing: self.ci_passing,
            approved: self.approved,
            no_conflicts: self.no_conflicts,
            blockers: clone_texts(&self.blockers),
        }
    }
}

/// Everything about a pull request that decides the status of its session.
#[derive(Debug, PartialEq, Eq)]
pub struct ScmObservation {
    pub state: PrState,
    pub ci: CiStatus,
    pub review: ReviewDecision,
    pub readiness: MergeReadiness,
}

/// The contents of an `ScmObservation`.
pub struct ObservationView {
    pub state: PrState,
    pub ci: CiStatus,
    pub review: ReviewDecision,
    pub readiness: ReadinessView,
}

impl View for ScmObservation {
    type V = ObservationView;

    open spec fn view(&self) -> ObservationView {
        ObservationView {
            state: self.state,
            ci: self.ci,
            review: self.review,
            readiness: self.readiness@,
        }
    }
}

impl Clone for ScmObservation {
    fn clone(&self) -> (r: Self)
        ensures
            r@ == self@,
    {
        ScmObservation {
            state: self.state,
            ci: self.ci,
            review: self.review,
            readiness: self.readiness.clone(),
        }
    }
}

impl ScmObservation {
    /// Whether two observations are the same.
    pub fn same(&self, other: &Self) -> (r: bool)
        ensures
            r == (self@ == other@),
    {
        self.state == other.state && self.ci == other.ci && self.review == other.review
            && self.readiness.mergeable == other.readiness.mergeable && self.readiness.ci_passing
            == other.readiness.ci_passing && self.readiness.approved == other.readiness.approved
            && self.readiness.no_conflicts == other.readiness.no_conflicts && same_texts(
            &self.readiness.blockers,
            &other.readiness.blockers,
        )
    }
}

/// One check that ran on a pull request.
#[derive(Debug, PartialEq, Eq)]
pub struct CheckRun {
    pub name: String,
    pub status: CheckStatus,
    pub url: Option<String>,
    pub conclusion: Option<String>,
}

/// The contents of a `CheckRun`.
pub struct CheckView {
    pub name: Seq<char>,
    pub status: CheckStatus,
    pub url: Option<Seq<char>>,
    pub conclusion: Option<Seq<char>>,
}

impl View for CheckRun {
    type V = CheckView;

    open spec fn view(&self) -> CheckView {
        CheckView {
            name: self.name@,
            status: self.status,
            url: opt_text(self.url),
            conclusion: opt_text(self.conclusion),
        }
    }
}

impl Clone for CheckRun {
    fn clone(&self) -> (r: Self)
        ensures
            r == *self,
    {
        CheckRun {
            name: self.name.clone(),
            status: self.status,
            url: clone_opt(&self.url),
            conclusion: clone_opt(&self.conclusion),
        }
    }
}

impl CheckRun {
    /// Whether two checks are the same.
    pub fn same(&self, other: &Self) -> (r: bool)
        ensures
            r == (self@ == other@),
    {
        same_text(self.name.as_str(), other.name.as_str()) && self.status == other.status
            && same_opt(&self.url, &other.url) && same_opt(&self.conclusion, &other.conclusion)
    }
}

/// The contents of a list of checks.
pub open spec fn check_views(s: Seq<CheckRun>) -> Seq<CheckView> {
    s.map_values(|c: CheckRun| c@)
}

/// A copy of a list of checks.
pub fn clone_checks(v: &Vec<CheckRun>) -> (r: Vec<CheckRun>)
    ensures
        r@ == v@,
{
    let mut out: Vec<CheckRun> = Vec::new();
    let mut i: usize = 0;
    while i < v.len()
        invariant
            i <= v.len(),
            out@ == v@.take(i as int),
        decreases v.len() - i,
    {
        out.push(v[i].clone());
        assert(v@.take(i as int).push(v@[i as int]) =~= v@.take(i + 1));
        i += 1;
    }
    assert(v@.take(v@.len() as int) =~= v@);
    out
}

/// Whether two lists of checks are the same.
pub fn same_checks(a: &Vec<CheckRun>, b: &Vec<CheckRun>) -> (r: bool)
    ensures
        r == (check_views(a@) == check_views(b@)),
{
    if a.len() != b.len() {
        assert(check_views(a@).len() != check_views(b@).len());
        return false;
    }
    let mut i: usize = 0;
    while i < a.len()
        invariant
            a.len() == b.len(),
            i <= a.len(),
            forall|j: int| 0 <= j < i ==> check_views(a@)[j] == check_views(b@)[j],
        decreases a.len() - i,
    {
        if !a[i].same(&b[i]) {
            assert(check_views(a@)[i as int] != check_views(b@)[i as int]);
            return false;
        }
        i += 1;
    }
    assert(check_views(a@) =~= check_views(b@));
    true
}

/// A comment that a person left on a pull request.
#[derive(Debug, PartialEq, Eq)]
pub struct ReviewComment {
    pub id: String,
    pub author: String,
    pub body: String,
    pub path: Option<String>,
    pub line: Option<u32>,
    pub is_resolved: bool,
    pub url: String,
}

/// How grave a bot thinks its finding is.
#[derive(Clone, Copy, Debug, PartialEq, Eq, Structural)]
pub enum AutomatedCommentSeverity {
    Error,
    Warning,
    Info,
}

/// A comment that a bot left on a pull request.
#[derive(Debug, PartialEq, Eq)]
pub struct AutomatedComment {
    pub id: String,
    pub bot_name: String,
    pub body: String,
    pub path: Option<String>,
    pub line: Option<u32>,
    pub severity: AutomatedCommentSeverity,
    pub url: String,
}

} // verus!
