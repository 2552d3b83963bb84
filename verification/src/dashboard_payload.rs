//! What the dashboard shows of a session and its pull request.

use vstd::prelude::*;

use crate::order::{ranks, sort_ranked, text_order};
use crate::scm::{
    check_views, clone_checks, same_checks, CheckRun, CheckStatus, CheckView, CiStatus,
    ObservationView, PrState, PullRequest, ReviewDecision, ScmObservation,
};
use crate::text::{clone_texts, texts};
use crate::types::{Session, SessionStatus};

verus! {

/// How many names of failing checks are shown.
pub const SHOWN_CHECKS: usize = 5;

/// What is fetched of a pull request in one batch with all others.
#[derive(Debug, PartialEq, Eq)]
pub struct BatchedPrEnrichment {
    pub observation: ScmObservation,
    pub additions: u32,
    pub deletions: u32,
    pub ci_checks: Vec<CheckRun>,
}

/// The contents of a `BatchedPrEnrichment`.
pub struct EnrichmentView {
    pub observation: ObservationView,
    pub additions: u32,
    pub deletions: u32,
    pub ci_checks: Seq<CheckView>,
}

impl View for BatchedPrEnrichment {
    type V = EnrichmentView;

    open spec fn view(&self) -> EnrichmentView {
        EnrichmentView {
            observation: self.observation@,
            additions: self.additions,
            deletions: self.deletions,
            ci_checks: check_views(self.ci_checks@),
        }
    }
}

impl Clone for BatchedPrEnrichment {
    fn clone(&self) -> (r: Self)
        ensures
            r@ == self@,
    {
        BatchedPrEnrichment {
            observation: self.observation.clone(),
            additions: self.additions,
            deletions: self.deletions,
            ci_checks: clone_checks(&self.ci_checks),
        }
    }
}

impl BatchedPrEnrichment {
    /// Whether two enrichments are the same.
    pub fn same(&self, other: &Self) -> (r: bool)
        ensures
            r == (self@ == other@),
    {
        self.observation.same(&other.observation) && self.additions == other.additions
            && self.deletions == other.deletions && same_checks(&self.ci_checks, &other.ci_checks)
    }
}

/// A pull request on the dashboard.
#[derive(Debug, PartialEq, Eq)]
pub struct DashboardPr {
    pub number: u32,
    pub url: String,
    pub title: String,
    pub owner: String,
    pub repo: String,
    pub branch: String,
    pub base_branch: String,
    pub is_draft: bool,
    pub state: PrState,
    pub ci_status: CiStatus,
    pub review_decision: ReviewDecision,
    pub mergeable: bool,
    pub additions: u32,
    pub deletions: u32,
    pub failing_checks: u32,
    pub failing_check_names: Vec<String>,
    pub ci_checks: Vec<CheckRun>,
    pub blockers: Vec<String>,
}

/// The contents of a `DashboardPr`.
pub struct DashboardPrView {
    pub number: u32,
    pub url: Seq<char>,
    pub title: Seq<char>,
    pub owner: Seq<char>,
    pub repo: Seq<char>,
    pub branch: Seq<char>,
    pub base_branch: Seq<char>,
    pub is_draft: bool,
    pub state: PrState,
    pub ci_status: CiStatus,
    pub review_decision: ReviewDecision,
    pub mergeable: bool,
    pub additions: u32,
    pub deletions: u32,
    pub failing_checks: u32,
    pub failing_check_names: Seq<Seq<char>>,
    pub ci_checks: Seq<CheckView>,
    pub blockers: Seq<Seq<char>>,
}

impl View for DashboardPr {
    type V = DashboardPrView;

    open spec fn view(&self) -> DashboardPrView {
        DashboardPrView {
            number: self.number,
            url: self.url@,
            title: self.title@,
            owner: self.owner@,
            repo: self.repo@,
            branch: self.branch@,
            base_branch: self.base_branch@,
            is_draft: self.is_draft,
            state: self.state,
            ci_status: self.ci_status,
            review_decision: self.review_decision,
            mergeable: self.mergeable,
            additions: self.additions,
            deletions: self.deletions,
            failing_checks: self.failing_checks,
            failing_check_names: texts(self.failing_check_names@),
            ci_checks: check_views(self.ci_checks@),
            blockers: texts(self.blockers@),
        }
    }
}

impl Clone for DashboardPr {
    fn clone(&self) -> (r: Self)
        ensures
            r@ == self@,
    {
        DashboardPr {
            number: self.number,
            url: self.url.clone(),
            title: self.title.clone(),
            owner: self.owner.clone(),
            repo: self.repo.clone(),
            branch: self.branch.clone(),
            base_branch: self.base_branch.clone(),
            is_draft: self.is_draft,
            state: self.state,
            ci_status: self.ci_status,
            review_decision: self.review_decision,
            mergeable: self.mergeable,
            additions: self.additions,
            deletions: self.deletions,
            failing_checks: self.failing_checks,
            failing_check_names: clone_texts(&self.failing_check_names),
            ci_checks: clone_checks(&self.ci_checks),
            blockers: clone_texts(&self.blockers),
        }
    }
}

/// A session on the dashboard.
#[derive(Debug, PartialEq, Eq)]
pub struct DashboardSession {
    pub session: Session,
    pub pr: Option<DashboardPr>,
    pub attention_level: String,
}

/// The names of the checks that failed, in the order of the checks.
pub open spec fn failing_names(s: Seq<CheckView>) -> Seq<Seq<char>>
    decreases s.len(),
{
    if s.len() == 0 {
        Seq::empty()
    } else if s.last().status == CheckStatus::Failed {
        failing_names(s.drop_last()).push(s.last().name)
    } else {
        failing_names(s.drop_last())
    }
}

/// The first names of a sorted list.
pub open spec fn first_names(s: Seq<Seq<char>>) -> Seq<Seq<char>> {
    if s.len() <= SHOWN_CHECKS {
        s
    } else {
        s.take(SHOWN_CHECKS as int)
    }
}

/// The dashboard's picture of a pull request and what was fetched of it.
pub open spec fn dashboard_pr(pr: PullRequest, e: EnrichmentView) -> DashboardPrView {
    let names = failing_names(e.ci_checks).sort_by(text_order());
    DashboardPrView {
        number: pr.number,
        url: pr.url@,
        title: pr.title@,
        owner: pr.owner@,
        repo: pr.repo@,
        branch: pr.branch@,
        base_branch: pr.base_branch@,
        is_draft: pr.is_draft,
        state: e.observation.state,
        ci_status: e.observation.ci,
        review_decision: e.observation.review,
        mergeable: e.observation.readiness.mergeable,
        additions: e.additions,
        deletions: e.deletions,
        failing_checks: failing_names(e.ci_checks).len() as u32,
        failing_check_names: first_names(names),
        ci_checks: e.ci_checks,
        blockers: e.observation.readiness.blockers,
    }
}

impl DashboardPr {
    /// Joins a pull request with what was fetched of it. The names of its failing
    /// checks are sorted and cut off after the fifth; their number is not.
    pub fn from_enrichment(pr: &PullRequest, enrichment: &BatchedPrEnrichment) -> (r: Self)
        ensures
            r@ == dashboard_pr(*pr, enrichment@),
    {
        let mut names: Vec<String> = Vec::new();
        let mut i: usize = 0;
        let checks = &enrichment.ci_checks;
        assert(check_views(checks@).take(0) =~= Seq::empty());
        while i < checks.len()
            invariant
                i <= checks.len(),
                texts(names@) == failing_names(check_views(checks@).take(i as int)),
            decreases checks.len() - i,
        {
            let ghost upto = check_views(checks@).take(i + 1);
            assert(upto.drop_last() =~= check_views(checks@).take(i as int));
            assert(upto.last() == checks@[i as int]@);
            if checks[i].status == CheckStatus::Failed {
                let ghost had = names@;
                names.push(checks[i].name.clone());
                assert(texts(names@) =~= texts(had).push(checks@[i as int].name@));
            }
            i += 1;
        }
        assert(check_views(checks@).take(checks@.len() as int) =~= check_views(checks@));
        assert(ranks(names@) =~= texts(names@));
        let mut names = sort_ranked(names);
        assert(ranks(names@) =~= texts(names@));
        proof {
            crate::order::lemma_text_orders();
            failing_names(enrichment@.ci_checks).lemma_sort_by_ensures(text_order());
            vstd::seq_lib::to_multiset_len(failing_names(enrichment@.ci_checks));
            vstd::seq_lib::to_multiset_len(
                failing_names(enrichment@.ci_checks).sort_by(text_order()),
            );
        }
        let failing_checks: u32 = names.len() as u32;
        let ghost all = names@;
        names.truncate(SHOWN_CHECKS);
        assert(texts(names@) =~= first_names(texts(all)));
        DashboardPr {
            number: pr.number,
            url: pr.url.clone(),
            title: pr.title.clone(),
            owner: pr.owner.clone(),
            repo: pr.repo.clone(),
            branch: pr.branch.clone(),
            base_branch: pr.base_branch.clone(),
            is_draft: pr.is_draft,
            state: enrichment.observation.state,
            ci_status: enrichment.observation.ci,
            review_decision: enrichment.observation.review,
            mergeable: enrichment.observation.readiness.mergeable,
            additions: enrichment.additions,
            deletions: enrichment.deletions,
            failing_checks,
            failing_check_names: names,
            ci_checks: clone_checks(&enrichment.ci_checks),
            blockers: clone_texts(&enrichment.observation.readiness.blockers),
        }
    }
}

/// The column of the dashboard in which a session stands.
pub open spec fn attention(status: SessionStatus, pr: Option<DashboardPrView>) -> Seq<char> {
    let by_status = match status {
        SessionStatus::PrOpen | SessionStatus::ReviewPending => "review"@,
        SessionStatus::CiFailed
        | SessionStatus::ChangesRequested
        | SessionStatus::NeedsInput
        | SessionStatus::Stuck => "respond"@,
        _ => "working"@,
    };
    if status.terminal() {
        "done"@
    } else if status == SessionStatus::Mergeable || status == SessionStatus::MergeFailed || status
        == SessionStatus::Approved {
        "merge"@
    } else {
        match pr {
            None => by_status,
            Some(p) => if p.state == PrState::Open && p.mergeable && p.ci_status
                == CiStatus::Passing {
                "merge"@
            } else if p.review_decision == ReviewDecision::ChangesRequested || p.ci_status
                == CiStatus::Failing {
                "respond"@
            } else if p.review_decision == ReviewDecision::Pending {
                "review"@
            } else if p.ci_status == CiStatus::Pending {
                "pending"@
            } else if p.state == PrState::Open {
                "review"@
            } else {
                by_status
            },
        }
    }
}

/// The column of the dashboard in which a session stands: `working`, `pending`,
/// `review`, `respond`, `merge` or `done`.
pub fn attention_level(session: &Session, pr: Option<&DashboardPr>) -> (r: String)
    ensures
        r@ == attention(
            session.status,
            match pr {
                Some(p) => Some(p@),
                None => None,
            },
        ),
{
    if session.is_terminal() {
        return "done".to_string();
    }
    if matches!(
        session.status,
        SessionStatus::Mergeable | SessionStatus::MergeFailed | SessionStatus::Approved
    ) {
        return "merge".to_string();
    }
    if let Some(p) = pr {
        if p.state == PrState::Open && p.mergeable && p.ci_status == CiStatus::Passing {
            return "merge".to_string();
        }
        if p.review_decision == ReviewDecision::ChangesRequested || p.ci_status
            == CiStatus::Failing {
            return "respond".to_string();
        }
        if p.review_decision == ReviewDecision::Pending {
            return "review".to_string();
        }
        if p.ci_status == CiStatus::Pending {
            return "pending".to_string();
        }
        if p.state == PrState::Open {
            return "review".to_string();
        }
    }
    match session.status {
        SessionStatus::PrOpen | SessionStatus::ReviewPending => "review".to_string(),
        SessionStatus::CiFailed
        | SessionStatus::ChangesRequested
        | SessionStatus::NeedsInput
        | SessionStatus::Stuck => "respond".to_string(),
        _ => "working".to_string(),
    }
}

/// Every session stands in one of six columns; in `done` it stands if and only if it has
/// ended.
pub proof fn law_every_session_has_a_column(status: SessionStatus, pr: Option<DashboardPrView>)
    ensures
        ({
            let c = attention(status, pr);
            ||| c == "working"@
            ||| c == "pending"@
            ||| c == "review"@
            ||| c == "respond"@
            ||| c == "merge"@
            ||| c == "done"@
        }),
        attention(status, pr) == "done"@ <==> status.terminal(),
{
    reveal_strlit("working");
    reveal_strlit("pending");
    reveal_strlit("review");
    reveal_strlit("respond");
    reveal_strlit("merge");
    reveal_strlit("done");
    assert("done"@.len() == 4);
    assert("working"@.len() == 7);
    assert("pending"@.len() == 7);
    assert("review"@.len() == 6);
    assert("respond"@.len() == 7);
    assert("merge"@.len() == 5);
}

proof fn lemma_columns_differ()
    ensures
        "working"@ != "pending"@,
        "working"@ != "review"@,
        "working"@ != "respond"@,
        "working"@ != "merge"@,
        "pending"@ != "review"@,
        "pending"@ != "respond"@,
        "pending"@ != "merge"@,
        "review"@ != "respond"@,
        "review"@ != "merge"@,
        "respond"@ != "merge"@,
{
    reveal_strlit("working");
    reveal_strlit("pending");
    reveal_strlit("review");
    reveal_strlit("respond");
    reveal_strlit("merge");
    assert("working"@[0] == 'w');
    assert("pending"@[0] == 'p');
    assert("review"@.len() == 6);
    assert("respond"@[0] == 'r');
    assert("respond"@.len() == 7);
    assert("merge"@.len() == 5);
    assert("working"@.len() == 7);
    assert("pending"@.len() == 7);
}

/// The session is over, or about to be merged: its pull request does not count any more.
pub open spec fn beyond_review(status: SessionStatus) -> bool {
    match status {
        SessionStatus::Mergeable => true,
        SessionStatus::MergeFailed => true,
        SessionStatus::Approved => true,
        SessionStatus::Idle => true,
        SessionStatus::Cleanup => true,
        SessionStatus::Merged => true,
        SessionStatus::Killed => true,
        SessionStatus::Terminated => true,
        SessionStatus::Done => true,
        SessionStatus::Errored => true,
        SessionStatus::Spawning => false,
        SessionStatus::Working => false,
        SessionStatus::NeedsInput => false,
        SessionStatus::Stuck => false,
        SessionStatus::PrOpen => false,
        SessionStatus::CiFailed => false,
        SessionStatus::ReviewPending => false,
        SessionStatus::ChangesRequested => false,
    }
}

/// A session that is over is `done`. One that can be merged is under `merge`: by its status, or
/// because its pull request is open, mergeable and passes its checks.
pub proof fn law_mergeable_sessions_are_to_be_merged(
    status: SessionStatus,
    pr: Option<DashboardPrView>,
)
    ensures
        match status {
            SessionStatus::Idle => attention(status, pr) == "done"@,
            SessionStatus::Cleanup => attention(status, pr) == "done"@,
            SessionStatus::Merged => attention(status, pr) == "done"@,
            SessionStatus::Killed => attention(status, pr) == "done"@,
            SessionStatus::Terminated => attention(status, pr) == "done"@,
            SessionStatus::Done => attention(status, pr) == "done"@,
            SessionStatus::Errored => attention(status, pr) == "done"@,
            SessionStatus::Mergeable => attention(status, pr) == "merge"@,
            SessionStatus::MergeFailed => attention(status, pr) == "merge"@,
            SessionStatus::Approved => attention(status, pr) == "merge"@,
            _ => attention(status, pr) == "merge"@ <==> (pr matches Some(p) && p.state
                == PrState::Open && p.mergeable && p.ci_status == CiStatus::Passing),
        },
{
    lemma_columns_differ();
}

/// A pull request that asks something of the agent puts its session under `respond`: where changes
/// are requested, and where checks fail.
pub proof fn law_requests_ask_for_a_response(status: SessionStatus, p: DashboardPrView)
    requires
        !beyond_review(status),
        !(p.state == PrState::Open && p.mergeable && p.ci_status == CiStatus::Passing),
    ensures
        p.review_decision == ReviewDecision::ChangesRequested ==> attention(status, Some(p))
            == "respond"@,
        p.ci_status == CiStatus::Failing ==> attention(status, Some(p)) == "respond"@,
        p.review_decision != ReviewDecision::ChangesRequested && p.ci_status != CiStatus::Failing
            && (p.state == PrState::Open || p.review_decision == ReviewDecision::Pending
            || p.ci_status == CiStatus::Pending) ==> attention(status, Some(p)) != "respond"@,
{
    lemma_columns_differ();
}

/// A pull request that asks nothing of the agent is under `review` while a review is pending, else
/// under `pending` while checks run, and else under `review` as long as it is open.
pub proof fn law_quiet_pull_requests_wait(status: SessionStatus, p: DashboardPrView)
    requires
        !beyond_review(status),
        !(p.state == PrState::Open && p.mergeable && p.ci_status == CiStatus::Passing),
        p.review_decision != ReviewDecision::ChangesRequested,
        p.ci_status != CiStatus::Failing,
    ensures
        p.review_decision == ReviewDecision::Pending ==> attention(status, Some(p)) == "review"@,
        p.review_decision != ReviewDecision::Pending && p.ci_status == CiStatus::Pending
            ==> attention(status, Some(p)) == "pending"@,
        p.review_decision != ReviewDecision::Pending && p.ci_status != CiStatus::Pending && p.state
            == PrState::Open ==> attention(status, Some(p)) == "review"@,
        p.review_decision != ReviewDecision::Pending && p.ci_status != CiStatus::Pending && p.state
            != PrState::Open ==> attention(status, Some(p)) == attention(status, None),
{
}

/// Without a pull request the status alone counts.
pub proof fn law_status_alone_has_a_column(status: SessionStatus)
    ensures
        match status {
            SessionStatus::PrOpen => attention(status, None) == "review"@,
            SessionStatus::ReviewPending => attention(status, None) == "review"@,
            SessionStatus::CiFailed => attention(status, None) == "respond"@,
            SessionStatus::ChangesRequested => attention(status, None) == "respond"@,
            SessionStatus::NeedsInput => attention(status, None) == "respond"@,
            SessionStatus::Stuck => attention(status, None) == "respond"@,
            SessionStatus::Spawning => attention(status, None) == "working"@,
            SessionStatus::Working => attention(status, None) == "working"@,
            _ => beyond_review(status),
        },
{
}

/// The names of failing checks that are shown are names of failing checks, at most five, in
/// order; all of them are shown where there are no more than five, and none that comes after one
/// that is left out. All of them are counted.
pub proof fn law_failing_checks_are_shown(pr: PullRequest, e: EnrichmentView)
    requires
        e.ci_checks.len() <= u32::MAX,
    ensures
        ({
            let d = dashboard_pr(pr, e);
            let names = failing_names(e.ci_checks);
            &&& d.failing_checks == e.ci_checks.filter(
                |c: CheckView| c.status == CheckStatus::Failed,
            ).len()
            &&& d.failing_check_names.len() == if d.failing_checks < 5 {
                d.failing_checks as nat
            } else {
                5
            }
            &&& d.failing_checks <= 5 ==> d.failing_check_names.to_multiset()
                == names.to_multiset()
            &&& forall|i: int|
                0 <= i < d.failing_check_names.len() ==> names.contains(
                    #[trigger] d.failing_check_names[i],
                )
        }),
{
    let names = failing_names(e.ci_checks);
    lemma_failing_names(e.ci_checks);
    crate::order::lemma_text_orders();
    names.lemma_sort_by_ensures(text_order());
    let sorted = names.sort_by(text_order());
    vstd::seq_lib::to_multiset_len(names);
    vstd::seq_lib::to_multiset_len(sorted);
    let d = dashboard_pr(pr, e);
    assert forall|i: int| 0 <= i < d.failing_check_names.len() implies names.contains(
        #[trigger] d.failing_check_names[i],
    ) by {
        assert(d.failing_check_names[i] == sorted[i]);
        sorted.to_multiset_ensures();
        names.to_multiset_ensures();
        assert(sorted.contains(sorted[i]));
        assert(sorted.to_multiset().contains(sorted[i]));
    }
    if d.failing_checks <= 5 {
        assert(d.failing_check_names =~= sorted);
    }
}

proof fn lemma_failing_names(s: Seq<CheckView>)
    ensures
        failing_names(s).len() == s.filter(|c: CheckView| c.status == CheckStatus::Failed).len(),
        failing_names(s).len() <= s.len(),
    decreases s.len(),
{
    reveal(Seq::filter);
    if s.len() > 0 {
        lemma_failing_names(s.drop_last());
    }
}

/// What the dashboard shows of a pull request is what the code host says of it and what was
/// fetched: nothing is mixed up.
pub proof fn law_dashboard_shows_what_was_fetched(pr: PullRequest, e: EnrichmentView)
    ensures
        ({
            let d = dashboard_pr(pr, e);
            &&& d.number == pr.number && d.url == pr.url@ && d.title == pr.title@
            &&& d.owner == pr.owner@ && d.repo == pr.repo@
            &&& d.branch == pr.branch@ && d.base_branch == pr.base_branch@
            &&& d.is_draft == pr.is_draft
            &&& d.state == e.observation.state && d.ci_status == e.observation.ci
            &&& d.review_decision == e.observation.review
            &&& d.mergeable == e.observation.readiness.mergeable
            &&& d.blockers == e.observation.readiness.blockers
            &&& d.additions == e.additions && d.deletions == e.deletions
            &&& d.ci_checks == e.ci_checks
        }),
{
}

} // verus!
