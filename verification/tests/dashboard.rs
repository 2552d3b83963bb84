use ao_core::dashboard_payload::{
    attention_level, BatchedPrEnrichment, DashboardPr, DashboardSession,
};
use ao_core::lifecycle::messages::{
    format_automated_comments_message, format_comments_message, format_failed_checks,
};
use ao_core::scm::{
    AutomatedComment, AutomatedCommentSeverity, CheckRun, CheckStatus, CiStatus, MergeReadiness,
    PrState, PullRequest, ReviewComment, ReviewDecision, ScmObservation,
};
use ao_core::types::{Session, SessionId, SessionStatus};

fn pr() -> PullRequest {
    PullRequest {
        number: 9,
        url: "u".into(),
        title: "t".into(),
        owner: "o".into(),
        repo: "r".into(),
        branch: "b".into(),
        base_branch: "main".into(),
        is_draft: true,
    }
}

fn check(name: &str, status: CheckStatus, url: Option<&str>) -> CheckRun {
    CheckRun { name: name.into(), status, url: url.map(|u| u.into()), conclusion: None }
}

fn enrichment(state: PrState, ci: CiStatus, review: ReviewDecision, mergeable: bool) -> BatchedPrEnrichment {
    BatchedPrEnrichment {
        observation: ScmObservation {
            state,
            ci,
            review,
            readiness: MergeReadiness {
                mergeable,
                ci_passing: false,
                approved: false,
                no_conflicts: true,
                blockers: vec!["wait".into()],
            },
        },
        additions: 1,
        deletions: 2,
        ci_checks: vec![],
    }
}

fn session(status: SessionStatus) -> Session {
    Session {
        id: SessionId("s".into()),
        project_id: "p".into(),
        status,
        agent: "a".into(),
        agent_config: None,
        branch: "b".into(),
        task: "t".into(),
        workspace_path: None,
        runtime_handle: None,
        runtime: "r".into(),
        activity: None,
        created_at: 0,
        cost: None,
        issue_id: None,
        issue_url: None,
        claimed_pr_number: None,
        claimed_pr_url: None,
        initial_prompt_override: None,
        spawned_by: None,
        last_merge_conflict_dispatched: None,
        last_review_backlog_fingerprint: None,
        last_automated_review_fingerprint: None,
        last_automated_review_dispatch_hash: None,
    }
}

#[test]
fn failing_checks_are_sorted_and_cut_off() {
    let mut e = enrichment(PrState::Open, CiStatus::Failing, ReviewDecision::NoReview, false);
    for name in ["f", "b", "e", "a", "d", "c"] {
        e.ci_checks.push(check(name, CheckStatus::Failed, None));
    }
    e.ci_checks.push(check("ok", CheckStatus::Passed, None));
    let d = DashboardPr::from_enrichment(&pr(), &e);
    assert_eq!(d.failing_checks, 6);
    assert_eq!(d.failing_check_names, vec!["a", "b", "c", "d", "e"]);
    assert_eq!(d.ci_checks.len(), 7);
    assert_eq!(d.blockers, vec!["wait"]);
    assert_eq!((d.number, d.is_draft, d.additions, d.deletions), (9, true, 1, 2));
    assert!(e.same(&e.clone()));
    let mut other = e.clone();
    other.additions = 5;
    assert!(!e.same(&other));
}

fn level(status: SessionStatus, e: Option<BatchedPrEnrichment>) -> String {
    let d = e.map(|e| DashboardPr::from_enrichment(&pr(), &e));
    attention_level(&session(status), d.as_ref())
}

#[test]
fn sessions_stand_in_columns() {
    let open = |ci, review, ready| Some(enrichment(PrState::Open, ci, review, ready));
    let closed = Some(enrichment(PrState::Closed, CiStatus::NoChecks, ReviewDecision::NoReview, false));
    let none = ReviewDecision::NoReview;
    assert_eq!(level(SessionStatus::Killed, open(CiStatus::Failing, none, false)), "done");
    assert_eq!(level(SessionStatus::Approved, None), "merge");
    assert_eq!(level(SessionStatus::MergeFailed, open(CiStatus::Failing, none, false)), "merge");
    assert_eq!(level(SessionStatus::Working, open(CiStatus::Passing, none, true)), "merge");
    assert_eq!(level(SessionStatus::Working, open(CiStatus::Failing, none, true)), "respond");
    assert_eq!(
        level(SessionStatus::Working, open(CiStatus::Pending, ReviewDecision::Pending, false)),
        "review"
    );
    assert_eq!(level(SessionStatus::Working, open(CiStatus::Pending, none, false)), "pending");
    assert_eq!(level(SessionStatus::Working, open(CiStatus::NoChecks, none, false)), "review");
    assert_eq!(level(SessionStatus::Stuck, closed.as_ref().map(|e| e.clone())), "respond");
    assert_eq!(level(SessionStatus::ReviewPending, closed), "review");
    assert_eq!(level(SessionStatus::NeedsInput, None), "respond");
    assert_eq!(level(SessionStatus::Spawning, None), "working");
    let row = DashboardSession {
        session: session(SessionStatus::Working),
        pr: None,
        attention_level: level(SessionStatus::Working, None),
    };
    assert_eq!(row.attention_level, "working");
}

#[test]
fn checks_that_fail_are_listed() {
    assert_eq!(
        format_failed_checks(&vec![
            check("test", CheckStatus::Failed, Some("https://ci/1")),
            check("lint", CheckStatus::Skipped, None),
            check("build", CheckStatus::Failed, None),
        ])
        .unwrap(),
        "CI failed. Failing checks:\n- test — https://ci/1\n- build\n\nFix the failures, push, \
         and wait for CI to re-run."
    );
    assert_eq!(format_failed_checks(&vec![check("lint", CheckStatus::Passed, None)]), None);
}

fn review(author: &str, body: &str, path: Option<&str>) -> ReviewComment {
    ReviewComment {
        id: "1".into(),
        author: author.into(),
        body: body.into(),
        path: path.map(|p| p.into()),
        line: Some(4),
        is_resolved: false,
        url: "u".into(),
    }
}

#[test]
fn review_comments_are_listed() {
    assert_eq!(
        format_comments_message(&vec![review("ann", "no", Some("a.rs")), review("bo", "yes", None)]),
        "New review comments on your PR:\n- ann (a.rs): no\n- bo: yes\n\nCheck with \
         `gh pr view --comments`, address the feedback, and push."
    );
}

fn bot(body: &str, path: Option<&str>, line: Option<u32>) -> AutomatedComment {
    AutomatedComment {
        id: "1".into(),
        bot_name: "bot".into(),
        body: body.into(),
        path: path.map(|p| p.into()),
        line,
        severity: AutomatedCommentSeverity::Info,
        url: "u".into(),
    }
}

#[test]
fn comments_of_bots_are_cut_off() {
    let long = "x".repeat(201);
    let msg = format_automated_comments_message(&vec![
        bot(&long, Some("a.rs"), None),
        bot(&"\u{e9}".repeat(150), None, Some(3)),
    ]);
    let first = format!("1. [INFO] bot a.rs\n   {}…\n   u\n\n", "x".repeat(200));
    // Too many bytes, but not too many characters.
    let second = format!("2. [INFO] bot\n   {}…\n   u\n\n", "\u{e9}".repeat(150));
    assert!(msg.starts_with(
        "Automated bot review comments on your PR (fetched at reaction time — verify via API \
         before acting):\n\n"
    ));
    assert!(msg.contains(&format!("{first}{second}To verify this data is current")));
    assert!(msg.ends_with("Fix each issue, push, and confirm the bot re-checks pass."));
}
