use ao_core::config::lifecycle::LifecycleConfig;
use ao_core::dashboard_payload::BatchedPrEnrichment;
use ao_core::events::{OrchestratorEvent, TerminationReason};
use ao_core::keyed::KeyedMap;
use ao_core::lifecycle::cycle::{TickAnswers, TickFlow, TickSlot};
use ao_core::lifecycle::effects::{
    Effect, Flow, PollAnswers, PrProbes, Slot, Stage, TransitionAnswers,
};
use ao_core::lifecycle::messages::format_automated_comments_message;
use ao_core::lifecycle::refresh::{
    read_workspace_branch, resolve_git_dir, transient_marker_paths, DotGit, Refresh,
    WorkspaceBranchProbe,
};
use ao_core::lifecycle::scm_poll::{assemble_observation, enrichment_key};
use ao_core::lifecycle::stuck::is_stuck_eligible;
use ao_core::lifecycle::transition::{
    clear_tracker_on_transition, format_orchestrator_notification, is_orchestrator_notifiable,
    should_park_in_merge_failed,
};
use ao_core::lifecycle::{
    LifecycleManager, ReactionKeys, DEFAULT_POLL_INTERVAL, NANOS_PER_SEC, REVIEW_BACKLOG_THROTTLE,
};
use ao_core::reactions::{ReactionAction, ReactionConfig, ReactionOutcome};
use ao_core::scm::{
    AutomatedComment, AutomatedCommentSeverity, CheckRun, CheckStatus, CiStatus, MergeReadiness,
    PrState, PullRequest, ReviewComment, ReviewDecision, ScmObservation,
};
use ao_core::types::{ActivityState, CostEstimate, Session, SessionId, SessionStatus};

const ALL_SESSION_STATUSES: [SessionStatus; 18] = [
    SessionStatus::Spawning,
    SessionStatus::Working,
    SessionStatus::NeedsInput,
    SessionStatus::Idle,
    SessionStatus::Stuck,
    SessionStatus::PrOpen,
    SessionStatus::CiFailed,
    SessionStatus::ReviewPending,
    SessionStatus::ChangesRequested,
    SessionStatus::Approved,
    SessionStatus::Mergeable,
    SessionStatus::MergeFailed,
    SessionStatus::Cleanup,
    SessionStatus::Merged,
    SessionStatus::Killed,
    SessionStatus::Terminated,
    SessionStatus::Done,
    SessionStatus::Errored,
];

fn check_exhaustive() {
    for status in ALL_SESSION_STATUSES {
        match status {
            SessionStatus::Spawning
            | SessionStatus::Working
            | SessionStatus::NeedsInput
            | SessionStatus::Idle
            | SessionStatus::Stuck
            | SessionStatus::PrOpen
            | SessionStatus::CiFailed
            | SessionStatus::ReviewPending
            | SessionStatus::ChangesRequested
            | SessionStatus::Approved
            | SessionStatus::Mergeable
            | SessionStatus::MergeFailed
            | SessionStatus::Cleanup
            | SessionStatus::Merged
            | SessionStatus::Killed
            | SessionStatus::Terminated
            | SessionStatus::Done
            | SessionStatus::Errored => {}
        }
    }
}

fn check_classification() {
    for status in ALL_SESSION_STATUSES {
        let expected = matches!(
            status,
            SessionStatus::Working
                | SessionStatus::PrOpen
                | SessionStatus::CiFailed
                | SessionStatus::ReviewPending
                | SessionStatus::ChangesRequested
                | SessionStatus::Approved
                | SessionStatus::Mergeable
        );
        assert_eq!(
            is_stuck_eligible(status),
            expected,
            "is_stuck_eligible({status:?}) classification mismatch"
        );
    }
}

#[test]
fn lifecycle_all_session_statuses_list_is_exhaustive_for_stuck_check() {
    check_exhaustive();
}

#[test]
fn stuck_all_session_statuses_list_is_exhaustive_for_stuck_check() {
    check_exhaustive();
}

#[test]
fn lifecycle_is_stuck_eligible_classifies_every_variant() {
    check_classification();
}

#[test]
fn stuck_is_stuck_eligible_classifies_every_variant() {
    check_classification();
}

#[test]
fn lifecycle_is_stuck_eligible_excludes_merge_failed() {
    assert!(!is_stuck_eligible(SessionStatus::MergeFailed));
}

#[test]
fn stuck_is_stuck_eligible_excludes_merge_failed() {
    assert!(!is_stuck_eligible(SessionStatus::MergeFailed));
}

#[test]
fn lifecycle_is_stuck_eligible_excludes_needs_input() {
    assert!(!is_stuck_eligible(SessionStatus::NeedsInput));
}

#[test]
fn stuck_is_stuck_eligible_excludes_needs_input() {
    assert!(!is_stuck_eligible(SessionStatus::NeedsInput));
}

#[test]
fn format_automated_comments_message_includes_all_fields() {
    let comments = vec![
        AutomatedComment {
            id: "1".into(),
            bot_name: "sonarcloud[bot]".into(),
            body: "Null check missing".into(),
            path: Some("src/lib.rs".into()),
            line: Some(10),
            severity: AutomatedCommentSeverity::Error,
            url: "https://example.com/c/1".into(),
        },
        AutomatedComment {
            id: "2".into(),
            bot_name: "codecov[bot]".into(),
            body: "Coverage low".into(),
            path: None,
            line: None,
            severity: AutomatedCommentSeverity::Warning,
            url: "https://example.com/c/2".into(),
        },
    ];
    let msg = format_automated_comments_message(&comments);
    assert!(msg.contains("ERROR"));
    assert!(msg.contains("WARNING"));
    assert!(msg.contains("src/lib.rs:10"));
    assert!(msg.contains("sonarcloud[bot]"));
    assert!(msg.contains("Null check missing"));
    assert!(msg.contains("https://example.com/c/1"));
    assert!(msg.contains("per_page=100"));
    assert!(msg.contains("in_reply_to_id"));
}

// ---------- A world for the lifecycle to run in ---------- //

struct World {
    store: Vec<Session>,
    alive: Result<bool, String>,
    activity: Result<ActivityState, String>,
    pr: Result<Option<PullRequest>, String>,
    batch: KeyedMap<BatchedPrEnrichment>,
    observation: ScmObservation,
    probe_error: Option<String>,
    checks: Vec<CheckRun>,
    comments: Vec<ReviewComment>,
    bots: Vec<AutomatedComment>,
    cost: Option<CostEstimate>,
    reactions: KeyedMap<ReactionConfig>,
    /// What comes of a reaction, under its key; otherwise it succeeds.
    outcomes: KeyedMap<ReactionOutcome>,
    /// The branch that the worktrees are on, if it can be told.
    branch: Option<String>,
    looked: usize,
    /// The branches whose pull requests were looked for.
    searched: Vec<String>,
    save_error: bool,
    clock: u64,
    now_ms: u64,
    events: Vec<OrchestratorEvent>,
    /// The reactions that ran, with their messages.
    dispatched: Vec<(String, Option<String>)>,
    cleared: Vec<String>,
    messages: Vec<(String, String)>,
    destroyed: Vec<String>,
    recorded: usize,
    probed: usize,
    warned: Vec<String>,
}

fn session(id: &str, project: &str) -> Session {
    Session {
        id: SessionId(id.into()),
        project_id: project.into(),
        status: SessionStatus::Spawning,
        agent: "agent".into(),
        agent_config: None,
        branch: format!("feat-{id}"),
        task: "a task".into(),
        workspace_path: Some(format!("/ws/{id}")),
        runtime_handle: Some(format!("rt-{id}")),
        runtime: "tmux".into(),
        activity: None,
        created_at: 1000,
        cost: None,
        issue_id: None,
        issue_url: None,
        claimed_pr_number: None,
        claimed_pr_url: None,
        initial_prompt_override: None,
        spawned_by: None,
        last_merge_conflict_dispatched: None,
        last_review_backlog_fingerprint: None,
        last_automated_review_fingerprint: None,
        last_automated_review_dispatch_hash: None,
    }
}

fn pull_request(number: u32) -> PullRequest {
    PullRequest {
        number,
        url: format!("https://github.com/acme/widgets/pull/{number}"),
        title: "A change".into(),
        owner: "acme".into(),
        repo: "widgets".into(),
        branch: "feat-s1".into(),
        base_branch: "main".into(),
        is_draft: false,
    }
}

fn observation(state: PrState, ci: CiStatus, review: ReviewDecision, ready: bool) -> ScmObservation {
    ScmObservation {
        state,
        ci,
        review,
        readiness: MergeReadiness {
            mergeable: ready,
            ci_passing: ci == CiStatus::Passing,
            approved: review == ReviewDecision::Approved,
            no_conflicts: true,
            blockers: vec![],
        },
    }
}

fn open_pr() -> ScmObservation {
    observation(PrState::Open, CiStatus::Pending, ReviewDecision::NoReview, false)
}

fn green() -> ScmObservation {
    observation(PrState::Open, CiStatus::Passing, ReviewDecision::Approved, true)
}

fn failing() -> ScmObservation {
    observation(PrState::Open, CiStatus::Failing, ReviewDecision::NoReview, false)
}

fn conflicting() -> ScmObservation {
    let mut o = open_pr();
    o.readiness.no_conflicts = false;
    o
}

fn reaction(action: ReactionAction) -> ReactionConfig {
    ReactionConfig {
        auto: true,
        action,
        message: None,
        priority: None,
        retries: None,
        escalate_after: None,
        threshold: None,
        include_summary: false,
        merge_method: None,
    }
}

/// The status that follows from what was observed.
fn derive(current: SessionStatus, o: &Option<ScmObservation>) -> Option<SessionStatus> {
    let next = match o {
        None => {
            if matches!(
                current,
                SessionStatus::PrOpen
                    | SessionStatus::CiFailed
                    | SessionStatus::ReviewPending
                    | SessionStatus::ChangesRequested
                    | SessionStatus::Approved
                    | SessionStatus::Mergeable
                    | SessionStatus::MergeFailed
            ) {
                SessionStatus::Working
            } else {
                return None;
            }
        }
        Some(o) => match o.state {
            PrState::Merged => SessionStatus::Merged,
            PrState::Closed => SessionStatus::Killed,
            PrState::Open => {
                if o.ci == CiStatus::Failing {
                    SessionStatus::CiFailed
                } else if o.review == ReviewDecision::ChangesRequested {
                    SessionStatus::ChangesRequested
                } else if o.readiness.mergeable {
                    SessionStatus::Mergeable
                } else if o.review == ReviewDecision::Approved {
                    SessionStatus::Approved
                } else if o.review == ReviewDecision::Pending {
                    SessionStatus::ReviewPending
                } else {
                    SessionStatus::PrOpen
                }
            }
        },
    };
    if next == current {
        None
    } else {
        Some(next)
    }
}

fn transition_of(a: &mut PollAnswers, stage: Stage) -> &mut TransitionAnswers {
    match stage {
        Stage::NeedsInput => &mut a.to_needs_input,
        Stage::Working => &mut a.to_working,
        Stage::Scm => &mut a.scm.transition,
        Stage::Killed => &mut a.to_killed,
        Stage::Stuck => &mut a.to_stuck,
    }
}

impl World {
    fn new(activity: ActivityState) -> World {
        World {
            store: vec![],
            alive: Ok(true),
            activity: Ok(activity),
            pr: Ok(None),
            batch: KeyedMap::new(),
            observation: open_pr(),
            probe_error: None,
            checks: vec![],
            comments: vec![],
            bots: vec![],
            cost: None,
            reactions: KeyedMap::new(),
            outcomes: KeyedMap::new(),
            branch: None,
            looked: 0,
            searched: vec![],
            save_error: false,
            clock: NANOS_PER_SEC,
            now_ms: 5_000,
            events: vec![],
            dispatched: vec![],
            cleared: vec![],
            messages: vec![],
            destroyed: vec![],
            recorded: 0,
            probed: 0,
            warned: vec![],
        }
    }

    fn with(activity: ActivityState, status: SessionStatus) -> World {
        let mut w = World::new(activity);
        let mut s = session("s1", "demo");
        s.status = status;
        w.store.push(s);
        w
    }

    fn react(&mut self, key: &str, action: ReactionAction) {
        self.reactions.insert(key.into(), reaction(action));
    }

    fn run(&mut self, key: &str, message: Option<String>) -> Result<Option<ReactionOutcome>, String> {
        let action = match self.reactions.get(key) {
            Some(c) => c.action,
            None => return Ok(None),
        };
        self.dispatched.push((key.into(), message));
        match self.outcomes.get(key) {
            Some(o) => Ok(Some(*o)),
            None => Ok(Some(ReactionOutcome { action, success: true, escalated: false })),
        }
    }

    /// Carries out an effect that is no question.
    fn perform(&mut self, e: &Effect) {
        match e {
            Effect::Emit(event) => self.events.push(event.clone()),
            Effect::RecordCost { .. } => self.recorded += 1,
            Effect::ClearTracker { key, .. } => self.cleared.push(key.clone()),
            Effect::ClearAllTrackers { .. } => self.cleared.push("*".into()),
            Effect::WarnUnreadable { raw, .. } => self.warned.push(raw.clone()),
            Effect::Save { session } => {
                if !self.save_error {
                    match self.store.iter_mut().find(|s| s.id == session.id) {
                        Some(s) => *s = session.clone(),
                        None => self.store.push(session.clone()),
                    }
                }
            }
            Effect::SendMessage { handle, message } => {
                self.messages.push((handle.clone(), message.clone()))
            }
            Effect::DestroyRuntime { handle } => self.destroyed.push(handle.clone()),
            Effect::DestroyWorkspace { path } => self.destroyed.push(path.clone()),
            Effect::ProbePr { .. } => self.probed += 1,
            Effect::ProbeBranch { .. } => self.looked += 1,
            Effect::DetectPr { session } => self.searched.push(session.branch.clone()),
            _ => {}
        }
    }

    fn saved(&self) -> Option<Result<(), String>> {
        if self.save_error {
            Some(Err("disk full".into()))
        } else {
            Some(Ok(()))
        }
    }

    fn fill(&mut self, a: &mut PollAnswers, slot: Slot, question: &Effect) {
        let outcome = match question {
            Effect::Dispatch { key, .. } => Some(self.run(key, None)),
            Effect::DispatchWithMessage { key, message, .. } => {
                Some(self.run(key, Some(message.clone())))
            }
            _ => None,
        };
        let resolved = match question {
            Effect::ResolveReaction { key, .. } => Some(self.reactions.get(key).cloned()),
            _ => None,
        };
        match slot {
            Slot::Alive => a.alive = Some(self.alive.clone()),
            Slot::Activity => a.activity = Some(self.activity.clone()),
            Slot::ActivitySaved => a.activity_saved = self.saved(),
            Slot::IdleNow => a.idle_now = Some(self.clock),
            Slot::Cost(s) => transition_of(a, s).cost = Some(Ok(self.cost)),
            Slot::Dispatched(s) => transition_of(a, s).dispatched = outcome,
            Slot::Reaction(s) => transition_of(a, s).reaction = resolved,
            Slot::Saved(s) => {
                let saved = self.saved();
                transition_of(a, s).saved = saved;
            }
            Slot::Parent(s) => {
                let prefix = match question {
                    Effect::FindSession { prefix } => prefix.clone(),
                    other => panic!("not a look-up: {other:?}"),
                };
                let found = self.store.iter().find(|s| s.id.0.starts_with(&prefix));
                transition_of(a, s).parent = Some(found.map(|s| s.runtime_handle.clone()));
            }
            Slot::StuckReaction(Stage::Scm) => a.scm.stuck.reaction = resolved,
            Slot::StuckReaction(_) => a.stuck.reaction = resolved,
            Slot::StuckNow(Stage::Scm) => a.scm.stuck.now = Some(self.clock),
            Slot::StuckNow(_) => a.stuck.now = Some(self.clock),
            Slot::Detected => {
                a.scm.detected = Some(match &self.pr {
                    Ok(pr) => Ok(pr.clone()),
                    Err(e) => Err(e.clone()),
                })
            }
            Slot::ThrottleNow => a.scm.throttle_now = Some(self.clock),
            Slot::Probes => {
                let o = self.observation.clone();
                a.scm.probes = Some(PrProbes {
                    state: Ok(o.state),
                    ci: match &self.probe_error {
                        Some(e) => Err(e.clone()),
                        None => Ok(o.ci),
                    },
                    review: Ok(o.review),
                    readiness: Ok(o.readiness),
                })
            }
            Slot::ProbedAt => a.scm.probed_at = Some(self.clock),
            Slot::Derived => match question {
                Effect::DeriveStatus { current, observation } => {
                    a.scm.derived = Some(derive(*current, observation))
                }
                other => panic!("not a question for the status: {other:?}"),
            },
            Slot::ConflictDispatched => a.scm.conflict_dispatched = outcome,
            Slot::ConflictSaved => a.scm.conflict_saved = self.saved(),
            Slot::Checks => {
                a.scm.checks = Some(Ok(self.checks.iter().map(|c| c.clone()).collect()))
            }
            Slot::ChecksDispatched => a.scm.checks_dispatched = outcome,
            Slot::CommentsNow => a.scm.comments_now = Some(self.clock),
            Slot::Comments => {
                let copies = self.comments.iter().map(copy_comment).collect();
                a.scm.comments = Some(Ok(copies))
            }
            Slot::CommentsDispatched => a.scm.comments_dispatched = outcome,
            Slot::CommentsSaved => a.scm.comments_saved = self.saved(),
            Slot::BotComments => {
                let copies = self.bots.iter().map(copy_bot).collect();
                a.scm.bot_comments = Some(Ok(copies))
            }
            Slot::BotDispatched => a.scm.bot_dispatched = outcome,
            Slot::BotSaved => a.scm.bot_saved = self.saved(),
        }
    }

    /// Runs one tick: each time that an answer is missing it is given, and the tick is run
    /// again from where it began.
    fn tick(&mut self, m: &mut LifecycleManager, seen: &mut KeyedMap<()>) {
        let sessions: Vec<Session> = self.store.iter().map(|s| s.clone()).collect();
        let mut answers = TickAnswers::none();
        let mut before: Vec<Effect> = vec![];
        loop {
            let mut next = m.clone();
            let mut next_seen = seen.clone();
            let mut log: Vec<Effect> = vec![];
            let flow = next.tick(&mut next_seen, &sessions, &answers, &mut log);
            assert_eq!(log[..before.len()], before[..], "a tick repeats what it did");
            for e in log.iter().skip(before.len()) {
                self.perform(e);
            }
            before = log;
            let slot = match flow {
                TickFlow::Done => {
                    *m = next;
                    *seen = next_seen;
                    return;
                }
                TickFlow::Waiting(slot) => slot,
            };
            match slot {
                TickSlot::Branch => answers.branches.push(self.branch.clone()),
                TickSlot::Pr => answers.begin.detected.push(match &self.pr {
                    Ok(pr) => Ok(pr.clone()),
                    Err(e) => Err(e.clone()),
                }),
                TickSlot::Batch => answers.begin.enriched = Some(Ok(self.batch.clone())),
                TickSlot::Session => answers.polls.push(PollAnswers::none()),
                TickSlot::Poll(slot) => {
                    let question = before.last().unwrap();
                    let polls = answers.polls.len();
                    self.fill(&mut answers.polls[polls - 1], slot, question);
                }
                TickSlot::Now => answers.now_ms = Some(self.now_ms),
                TickSlot::AllComplete => {
                    let ran = self.run("all-complete", None).is_ok();
                    answers.all_complete = Some(ran)
                }
            }
        }
    }

    fn status(&self) -> SessionStatus {
        self.store[0].status
    }

    fn changes(&self) -> Vec<(SessionStatus, SessionStatus)> {
        let mut out = vec![];
        for e in &self.events {
            if let OrchestratorEvent::StatusChanged { from, to, .. } = e {
                out.push((*from, *to));
            }
        }
        out
    }

    fn ends(&self) -> Vec<TerminationReason> {
        let mut out = vec![];
        for e in &self.events {
            if let OrchestratorEvent::Terminated { reason, .. } = e {
                out.push(*reason);
            }
        }
        out
    }

    fn errors(&self) -> Vec<String> {
        let mut out = vec![];
        for e in &self.events {
            if let OrchestratorEvent::TickError { message, .. } = e {
                out.push(message.clone());
            }
        }
        out
    }

    fn runs(&self, key: &str) -> usize {
        self.dispatched.iter().filter(|(k, _)| k == key).count()
    }
}

fn copy_comment(c: &ReviewComment) -> ReviewComment {
    ReviewComment {
        id: c.id.clone(),
        author: c.author.clone(),
        body: c.body.clone(),
        path: c.path.clone(),
        line: c.line,
        is_resolved: c.is_resolved,
        url: c.url.clone(),
    }
}

fn copy_bot(c: &AutomatedComment) -> AutomatedComment {
    AutomatedComment {
        id: c.id.clone(),
        bot_name: c.bot_name.clone(),
        body: c.body.clone(),
        path: c.path.clone(),
        line: c.line,
        severity: c.severity,
        url: c.url.clone(),
    }
}

fn keys() -> ReactionKeys {
    ReactionKeys {
        table: vec![
            (SessionStatus::ChangesRequested, "changes-requested".into()),
            (SessionStatus::Mergeable, "approved-and-green".into()),
            (SessionStatus::Stuck, "agent-stuck".into()),
            (SessionStatus::NeedsInput, "agent-needs-input".into()),
        ],
    }
}

fn plain() -> LifecycleManager {
    LifecycleManager::new()
}

fn reacting() -> LifecycleManager {
    plain().with_reaction_engine(keys())
}

fn full() -> LifecycleManager {
    reacting().with_scm()
}

// ---------- Ticks ---------- //

#[test]
fn tick_first_tick_emits_spawned_and_transitions_to_working() {
    let mut w = World::with(ActivityState::Ready, SessionStatus::Spawning);
    let (mut m, mut seen) = (plain(), KeyedMap::new());
    w.tick(&mut m, &mut seen);
    let id = || SessionId("s1".into());
    assert_eq!(
        w.events,
        vec![
            OrchestratorEvent::Spawned { id: id(), project_id: "demo".into() },
            OrchestratorEvent::ActivityChanged {
                id: id(),
                prev: None,
                next: ActivityState::Ready
            },
            OrchestratorEvent::StatusChanged {
                id: id(),
                from: SessionStatus::Spawning,
                to: SessionStatus::Working
            },
        ]
    );
    assert_eq!(w.status(), SessionStatus::Working);
    assert_eq!(w.store[0].activity, Some(ActivityState::Ready));
}

#[test]
fn tick_dead_runtime_terminates_session() {
    let mut w = World::with(ActivityState::Ready, SessionStatus::Spawning);
    w.alive = Ok(false);
    w.tick(&mut plain(), &mut KeyedMap::new());
    assert_eq!(w.ends(), vec![TerminationReason::RuntimeGone]);
    assert_eq!(w.status(), SessionStatus::Killed);
    assert!(w.status().is_terminal());
}

#[test]
fn tick_exited_activity_terminates_with_agent_reason() {
    let mut w = World::with(ActivityState::Exited, SessionStatus::Working);
    w.tick(&mut plain(), &mut KeyedMap::new());
    assert_eq!(w.ends(), vec![TerminationReason::AgentExited]);
}

#[test]
fn a_session_without_a_runtime_ends() {
    let mut w = World::with(ActivityState::Ready, SessionStatus::Working);
    w.store[0].runtime_handle = None;
    w.tick(&mut reacting(), &mut KeyedMap::new());
    assert_eq!(w.ends(), vec![TerminationReason::NoHandle]);
    assert_eq!(w.changes(), vec![(SessionStatus::Working, SessionStatus::Killed)]);
    assert_eq!(w.cleared, vec!["*"]);
}

#[test]
fn tick_terminal_sessions_are_skipped_on_subsequent_ticks() {
    let mut w = World::with(ActivityState::Ready, SessionStatus::Spawning);
    w.alive = Ok(false);
    let (mut m, mut seen) = (plain(), KeyedMap::new());
    w.tick(&mut m, &mut seen);
    w.events.clear();
    w.tick(&mut m, &mut seen);
    assert!(w.events.is_empty());
}

#[test]
fn tick_spawned_is_emitted_only_once_per_session() {
    let mut w = World::with(ActivityState::Ready, SessionStatus::Spawning);
    let (mut m, mut seen) = (plain(), KeyedMap::new());
    for _ in 0..3 {
        w.tick(&mut m, &mut seen);
    }
    let spawned = w.events.iter().filter(|e| matches!(e, OrchestratorEvent::Spawned { .. })).count();
    assert_eq!(spawned, 1);
}

#[test]
fn session_restored_emitted_for_preexisting_sessions_on_first_tick() {
    let mut w = World::with(ActivityState::Ready, SessionStatus::Working);
    let mut m = plain();
    m.start(1001);
    w.tick(&mut m, &mut KeyedMap::new());
    assert_eq!(
        w.events[0],
        OrchestratorEvent::SessionRestored {
            id: SessionId("s1".into()),
            project_id: "demo".into(),
            status: SessionStatus::Working
        }
    );
}

#[test]
fn spawned_emitted_for_sessions_created_after_loop_startup() {
    let mut w = World::with(ActivityState::Ready, SessionStatus::Working);
    let mut m = plain();
    m.start(1000);
    w.tick(&mut m, &mut KeyedMap::new());
    assert!(matches!(w.events[0], OrchestratorEvent::Spawned { .. }));
    let mut m = plain();
    m.start(0);
    assert_eq!(m.startup_ms, 1);
}

#[test]
fn merged_pr_terminates_session_with_pr_merged_reason() {
    let mut w = World::with(ActivityState::Ready, SessionStatus::PrOpen);
    w.pr = Ok(Some(pull_request(7)));
    w.observation = observation(PrState::Merged, CiStatus::Passing, ReviewDecision::Approved, false);
    let mut m = full().with_workspace();
    w.tick(&mut m, &mut KeyedMap::new());
    assert_eq!(w.ends(), vec![TerminationReason::PrMerged]);
    assert_eq!(
        w.changes(),
        vec![
            (SessionStatus::PrOpen, SessionStatus::Merged),
            (SessionStatus::Merged, SessionStatus::Killed)
        ]
    );
    assert_eq!(w.status(), SessionStatus::Killed);
    assert_eq!(w.destroyed, vec!["rt-s1", "/ws/s1"]);
}

#[test]
fn auto_terminate_on_merge_opt_out_leaves_session_in_merged() {
    let mut w = World::with(ActivityState::Ready, SessionStatus::PrOpen);
    w.pr = Ok(Some(pull_request(7)));
    w.observation = observation(PrState::Merged, CiStatus::Passing, ReviewDecision::Approved, false);
    let mut m =
        full().with_lifecycle_config(LifecycleConfig { auto_terminate_on_merge: false });
    w.tick(&mut m, &mut KeyedMap::new());
    assert!(w.ends().is_empty());
    assert_eq!(w.status(), SessionStatus::Merged);
    assert_eq!(w.destroyed, vec!["rt-s1"]);
}

#[test]
fn closed_without_merge_does_not_emit_pr_merged_termination() {
    let mut w = World::with(ActivityState::Ready, SessionStatus::PrOpen);
    w.pr = Ok(Some(pull_request(7)));
    w.observation = observation(PrState::Closed, CiStatus::Passing, ReviewDecision::NoReview, false);
    w.tick(&mut full(), &mut KeyedMap::new());
    assert!(w.ends().is_empty());
}

#[test]
fn probes_that_fail_leave_a_session_alone() {
    let mut w = World::with(ActivityState::Ready, SessionStatus::Spawning);
    w.alive = Err("no tmux".into());
    w.tick(&mut plain(), &mut KeyedMap::new());
    assert_eq!(w.errors(), vec!["is_alive: no tmux"]);
    assert_eq!(w.status(), SessionStatus::Spawning);
    w.alive = Ok(true);
    w.activity = Err("no log".into());
    w.tick(&mut plain(), &mut KeyedMap::new());
    assert_eq!(w.errors(), vec!["is_alive: no tmux", "detect_activity: no log"]);
    assert_eq!(w.store[0].activity, None);
}

#[test]
fn waiting_for_input_becomes_a_status() {
    let mut w = World::with(ActivityState::WaitingInput, SessionStatus::Working);
    let (mut m, mut seen) = (reacting(), KeyedMap::new());
    w.react("agent-needs-input", ReactionAction::Notify);
    w.tick(&mut m, &mut seen);
    assert_eq!(w.status(), SessionStatus::NeedsInput);
    assert_eq!(w.runs("agent-needs-input"), 1);
    w.activity = Ok(ActivityState::Active);
    w.tick(&mut m, &mut seen);
    assert_eq!(w.status(), SessionStatus::Working);
    assert_eq!(w.cleared, vec!["agent-needs-input"]);
}

#[test]
fn a_session_that_cannot_be_saved_is_not_announced() {
    let mut w = World::with(ActivityState::Ready, SessionStatus::Spawning);
    w.store[0].activity = Some(ActivityState::Ready);
    w.store.push(session("s2", "demo"));
    w.store[1].runtime_handle = None;
    w.save_error = true;
    w.tick(&mut plain(), &mut KeyedMap::new());
    // Both were visited, and nothing but that was announced.
    assert_eq!(w.events.len(), 2);
    assert!(w.events.iter().all(|e| matches!(e, OrchestratorEvent::Spawned { .. })));
}

#[test]
fn a_poll_can_be_run_answer_by_answer() {
    let s = session("s1", "demo");
    let mut a = PollAnswers::none();
    let poll = |a: &PollAnswers| {
        let (mut m, mut s, mut log) = (plain(), s.clone(), vec![]);
        let flow = m.poll_one(&mut s, a, &mut log);
        (flow, log)
    };
    let (flow, log) = poll(&a);
    assert_eq!(flow, Flow::Waiting(Slot::Alive));
    assert_eq!(log, vec![Effect::IsAlive { handle: "rt-s1".into() }]);
    a.alive = Some(Ok(true));
    let (flow, log) = poll(&a);
    assert_eq!(flow, Flow::Waiting(Slot::Activity));
    assert_eq!(log.len(), 2);
    a.activity = Some(Ok(ActivityState::Ready));
    assert_eq!(poll(&a).0, Flow::Waiting(Slot::ActivitySaved));
    a.activity_saved = Some(Err("disk full".into()));
    assert_eq!(poll(&a).0, Flow::Failed);
    a.activity_saved = Some(Ok(()));
    assert_eq!(poll(&a).0, Flow::Waiting(Slot::Cost(Stage::Working)));
}

#[test]
fn costs_are_kept_and_recorded() {
    let mut w = World::with(ActivityState::Ready, SessionStatus::Spawning);
    let c = CostEstimate {
        input_tokens: 1,
        output_tokens: 2,
        cache_read_tokens: 3,
        cache_creation_tokens: 4,
        cost_usd_bits: None,
    };
    w.cost = Some(c);
    w.tick(&mut plain(), &mut KeyedMap::new());
    assert_eq!(w.recorded, 1);
    assert_eq!(w.store[0].cost, Some(c));
}

#[test]
fn defaults_and_setup_of_the_lifecycle() {
    let m = plain().with_poll_interval(50);
    assert_eq!(m.poll_interval, 50);
    assert_eq!(plain().poll_interval, DEFAULT_POLL_INTERVAL);
    assert!(m.pr_enrichment_payload().is_empty());
    let mut merged = session("a", "p");
    merged.status = SessionStatus::Merged;
    let mut bare = session("b", "p");
    bare.status = SessionStatus::Merged;
    bare.workspace_path = None;
    let all = vec![merged, bare, session("c", "p")];
    assert!(plain().sweep_merged_worktrees(&all).is_empty());
    assert_eq!(plain().with_workspace().sweep_merged_worktrees(&all), vec!["/ws/a"]);
}

// ---------- All sessions have ended ---------- //

#[test]
fn all_complete_fires_once_when_last_session_terminates() {
    let mut w = World::with(ActivityState::Ready, SessionStatus::Working);
    w.react("all-complete", ReactionAction::Notify);
    w.alive = Ok(false);
    let (mut m, mut seen) = (reacting(), KeyedMap::new());
    w.tick(&mut m, &mut seen);
    assert_eq!(w.runs("all-complete"), 0);
    w.tick(&mut m, &mut seen);
    assert_eq!(w.runs("all-complete"), 1);
    w.tick(&mut m, &mut seen);
    assert_eq!(w.runs("all-complete"), 1);
}

#[test]
fn all_complete_resets_on_new_session() {
    let mut w = World::with(ActivityState::Ready, SessionStatus::Killed);
    w.react("all-complete", ReactionAction::Notify);
    let (mut m, mut seen) = (reacting(), KeyedMap::new());
    w.tick(&mut m, &mut seen);
    assert_eq!(w.runs("all-complete"), 1);
    let mut s = session("s2", "demo");
    s.status = SessionStatus::Working;
    w.store.push(s);
    w.tick(&mut m, &mut seen);
    assert_eq!(w.runs("all-complete"), 1);
    assert!(!m.all_complete_fired);
    w.store[1].status = SessionStatus::Done;
    w.tick(&mut m, &mut seen);
    assert_eq!(w.runs("all-complete"), 2);
}

#[test]
fn the_end_of_all_sessions_has_a_session_of_its_own() {
    let (mut m, mut seen) = (reacting(), KeyedMap::new());
    seen.insert("s1".into(), ());
    let mut log = vec![];
    assert!(m.end_tick(false, &seen, 77, None, &mut log));
    match &log[0] {
        Effect::Dispatch { session, key } => {
            assert_eq!(key, "all-complete");
            assert_eq!(session.id.0, "__all_complete__");
            assert_eq!(session.created_at, 77);
            assert_eq!(session.status, SessionStatus::Done);
        }
        other => panic!("unexpected {other:?}"),
    }
    assert!(!m.end_tick(false, &seen, 77, Some(false), &mut log));
    assert!(!m.all_complete_fired);
    assert!(!m.end_tick(true, &seen, 77, None, &mut vec![]));
    assert!(!m.end_tick(false, &KeyedMap::new(), 77, None, &mut vec![]));
    assert!(!plain().end_tick(false, &seen, 77, None, &mut vec![]));
}

// ---------- Changes of status ---------- //

#[test]
fn transition_transition_into_ci_failed_dispatches_reaction_on_shared_channel() {
    let mut w = World::with(ActivityState::Ready, SessionStatus::Working);
    w.react("ci-failed", ReactionAction::SendToAgent);
    w.pr = Ok(Some(pull_request(7)));
    w.observation = failing();
    w.tick(&mut full(), &mut KeyedMap::new());
    assert_eq!(w.changes(), vec![(SessionStatus::Working, SessionStatus::CiFailed)]);
    assert_eq!(w.runs("ci-failed"), 1);
}

#[test]
fn transition_leaving_reaction_status_clears_tracker() {
    let mut w = World::with(ActivityState::Ready, SessionStatus::CiFailed);
    w.pr = Ok(Some(pull_request(7)));
    w.observation = open_pr();
    w.tick(&mut full(), &mut KeyedMap::new());
    assert_eq!(w.status(), SessionStatus::PrOpen);
    assert!(w.cleared.contains(&"ci-failed".to_string()));
}

#[test]
fn transition_unrelated_transition_does_not_touch_reaction_engine() {
    let mut w = World::with(ActivityState::Ready, SessionStatus::Spawning);
    w.react("ci-failed", ReactionAction::Notify);
    w.tick(&mut reacting(), &mut KeyedMap::new());
    assert_eq!(w.status(), SessionStatus::Working);
    assert!(w.dispatched.is_empty());
    assert!(w.cleared.is_empty());
}

fn with_parent(status: SessionStatus) -> World {
    let mut w = World::with(ActivityState::Ready, status);
    w.store[0].spawned_by = Some(SessionId("boss".into()));
    w.store[0].id = SessionId("0123456789abcdef".into());
    let mut boss = session("boss-1", "demo");
    boss.status = SessionStatus::Working;
    w.store.push(boss);
    w
}

#[test]
fn transition_transition_notifies_parent_orchestrator_via_runtime() {
    let mut w = with_parent(SessionStatus::Working);
    w.pr = Ok(Some(pull_request(7)));
    w.store[1].status = SessionStatus::PrOpen;
    w.tick(&mut full(), &mut KeyedMap::new());
    assert_eq!(
        w.messages,
        vec![(
            "rt-boss-1".to_string(),
            "[ao-rs] worker 01234567 is now pr_open — branch: feat-s1, url: \
             https://github.com/acme/widgets/pull/7"
                .to_string()
        )]
    );
}

#[test]
fn transition_transition_without_spawned_by_sends_no_message() {
    let mut w = World::with(ActivityState::Ready, SessionStatus::Working);
    w.pr = Ok(Some(pull_request(7)));
    w.tick(&mut full(), &mut KeyedMap::new());
    assert_eq!(w.status(), SessionStatus::PrOpen);
    assert!(w.messages.is_empty());
}

#[test]
fn transition_transition_into_non_notifiable_status_sends_no_message() {
    let mut w = with_parent(SessionStatus::Spawning);
    w.tick(&mut plain(), &mut KeyedMap::new());
    assert_eq!(w.status(), SessionStatus::Working);
    assert!(w.messages.is_empty());
}

#[test]
fn notifications_fall_back_to_the_issue() {
    let mut s = session("ab", "p");
    assert_eq!(
        format_orchestrator_notification(&s, SessionStatus::Stuck),
        "[ao-rs] worker ab is now stuck — branch: feat-ab, url: none"
    );
    s.issue_url = Some("https://issue".into());
    assert!(format_orchestrator_notification(&s, SessionStatus::Stuck).ends_with("https://issue"));
    let told: Vec<SessionStatus> =
        ALL_SESSION_STATUSES.into_iter().filter(|s| is_orchestrator_notifiable(*s)).collect();
    assert_eq!(told.len(), 12);
    assert!(!told.contains(&SessionStatus::Mergeable));
}

fn outcome(success: bool, escalated: bool) -> ReactionOutcome {
    ReactionOutcome { action: ReactionAction::AutoMerge, success, escalated }
}

#[test]
fn only_a_failed_merge_is_parked() {
    let merge = reaction(ReactionAction::AutoMerge);
    let notify = reaction(ReactionAction::Notify);
    let park = |to, key: &str, c: Option<&ReactionConfig>, o: &ReactionOutcome| {
        should_park_in_merge_failed(to, key, c, o)
    };
    let key = "approved-and-green";
    let m = SessionStatus::Mergeable;
    assert!(park(m, key, Some(&merge), &outcome(false, false)));
    assert!(!park(m, key, Some(&merge), &outcome(true, false)));
    assert!(!park(m, key, Some(&merge), &outcome(false, true)));
    assert!(!park(m, key, Some(&notify), &outcome(false, false)));
    assert!(!park(m, key, None, &outcome(false, false)));
    assert!(!park(m, "ci-failed", Some(&merge), &outcome(false, false)));
    assert!(!park(SessionStatus::Approved, key, Some(&merge), &outcome(false, false)));
}

#[test]
fn leaving_a_status_forgets_its_reaction() {
    let k = keys();
    let clear = |from, to| clear_tracker_on_transition(&k, from, to);
    assert_eq!(clear(SessionStatus::Mergeable, SessionStatus::MergeFailed), None);
    assert_eq!(clear(SessionStatus::MergeFailed, SessionStatus::Mergeable), None);
    assert_eq!(
        clear(SessionStatus::MergeFailed, SessionStatus::CiFailed).as_deref(),
        Some("approved-and-green")
    );
    assert_eq!(clear(SessionStatus::CiFailed, SessionStatus::PrOpen).as_deref(), Some("ci-failed"));
    assert_eq!(clear(SessionStatus::Stuck, SessionStatus::Working).as_deref(), Some("agent-stuck"));
    assert_eq!(clear(SessionStatus::Working, SessionStatus::PrOpen), None);
}

#[test]
fn scm_poll_auto_merge_failure_parks_in_merge_failed_then_retries_next_tick() {
    let mut w = World::with(ActivityState::Ready, SessionStatus::Approved);
    w.react("approved-and-green", ReactionAction::AutoMerge);
    w.outcomes.insert("approved-and-green".into(), outcome(false, false));
    w.pr = Ok(Some(pull_request(7)));
    w.observation = green();
    let (mut m, mut seen) = (full(), KeyedMap::new());
    w.tick(&mut m, &mut seen);
    assert_eq!(w.changes(), vec![(SessionStatus::Approved, SessionStatus::MergeFailed)]);
    w.cleared.clear();
    w.tick(&mut m, &mut seen);
    // Parked again: nothing is announced, and the attempts add up.
    assert_eq!(w.status(), SessionStatus::MergeFailed);
    assert_eq!(w.runs("approved-and-green"), 2);
    assert!(!w.cleared.contains(&"approved-and-green".to_string()));
    w.outcomes.insert("approved-and-green".into(), outcome(true, false));
    w.tick(&mut m, &mut seen);
    assert_eq!(w.status(), SessionStatus::Mergeable);
    assert_eq!(w.changes().len(), 2);
}

#[test]
fn scm_poll_persistent_merge_failure_escalates_after_retries_exhausted() {
    let mut w = World::with(ActivityState::Ready, SessionStatus::MergeFailed);
    w.react("approved-and-green", ReactionAction::AutoMerge);
    w.outcomes.insert("approved-and-green".into(), outcome(false, true));
    w.pr = Ok(Some(pull_request(7)));
    w.observation = green();
    w.tick(&mut full(), &mut KeyedMap::new());
    assert_eq!(w.status(), SessionStatus::Mergeable);
}

#[test]
fn scm_poll_merge_failed_exit_to_ci_failed_clears_approved_and_green_tracker() {
    let mut w = World::with(ActivityState::Ready, SessionStatus::MergeFailed);
    w.pr = Ok(Some(pull_request(7)));
    w.observation = failing();
    w.tick(&mut full(), &mut KeyedMap::new());
    assert_eq!(w.status(), SessionStatus::CiFailed);
    assert!(w.cleared.contains(&"approved-and-green".to_string()));
}

#[test]
fn scm_poll_merge_failed_drops_back_to_working_when_pr_disappears() {
    let mut w = World::with(ActivityState::Ready, SessionStatus::MergeFailed);
    w.tick(&mut full(), &mut KeyedMap::new());
    assert_eq!(w.status(), SessionStatus::Working);
}

// ---------- Pull requests ---------- //

#[test]
fn scm_poll_scm_poll_with_no_pr_leaves_working_untouched() {
    let mut w = World::with(ActivityState::Ready, SessionStatus::Working);
    w.tick(&mut full(), &mut KeyedMap::new());
    assert!(w.changes().is_empty());
}

#[test]
fn scm_poll_scm_poll_opens_pr_transitions_working_to_pr_open() {
    let mut w = World::with(ActivityState::Ready, SessionStatus::Working);
    w.pr = Ok(Some(pull_request(7)));
    w.tick(&mut full(), &mut KeyedMap::new());
    assert_eq!(w.changes(), vec![(SessionStatus::Working, SessionStatus::PrOpen)]);
    assert_eq!(w.store[0].claimed_pr_number, Some(7));
}

#[test]
fn scm_poll_scm_poll_full_green_transitions_through_to_mergeable() {
    let mut w = World::with(ActivityState::Ready, SessionStatus::Working);
    w.react("approved-and-green", ReactionAction::AutoMerge);
    w.pr = Ok(Some(pull_request(7)));
    w.observation = green();
    w.tick(&mut full(), &mut KeyedMap::new());
    assert_eq!(w.status(), SessionStatus::Mergeable);
    assert_eq!(w.runs("approved-and-green"), 1);
}

#[test]
fn scm_poll_scm_poll_detect_pr_error_emits_tick_error_and_skips() {
    let mut w = World::with(ActivityState::Ready, SessionStatus::Working);
    w.pr = Err("rate limited".into());
    w.tick(&mut full(), &mut KeyedMap::new());
    assert_eq!(w.errors(), vec!["scm.detect_pr: rate limited"]);
    assert!(w.changes().is_empty());
}

#[test]
fn scm_poll_scm_poll_field_probe_error_emits_tick_error_and_skips_transition() {
    let mut w = World::with(ActivityState::Ready, SessionStatus::Working);
    w.pr = Ok(Some(pull_request(7)));
    w.probe_error = Some("timeout".into());
    w.tick(&mut full(), &mut KeyedMap::new());
    assert_eq!(w.errors(), vec!["scm probes: ci_status: timeout"]);
    assert!(w.changes().is_empty());
}

#[test]
fn scm_poll_scm_poll_is_off_when_scm_is_not_configured() {
    let mut w = World::with(ActivityState::Ready, SessionStatus::Working);
    w.pr = Ok(Some(pull_request(7)));
    w.tick(&mut reacting(), &mut KeyedMap::new());
    assert!(w.changes().is_empty());
    assert_eq!(w.probed, 0);
}

#[test]
fn probes_are_all_or_nothing() {
    let r: Result<ScmObservation, String> = assemble_observation(&PrProbes {
        state: Err("a".into()),
        ci: Ok(CiStatus::Passing),
        review: Err("b".into()),
        readiness: Err("c".into()),
    });
    assert_eq!(r.err().as_deref(), Some("pr_state: a; review_decision: b; mergeability: c"));
}

#[test]
fn a_pull_request_under_review_is_not_probed_all_the_time() {
    let mut w = World::with(ActivityState::Ready, SessionStatus::ReviewPending);
    w.pr = Ok(Some(pull_request(7)));
    w.observation = observation(PrState::Open, CiStatus::Passing, ReviewDecision::Pending, false);
    let (mut m, mut seen) = (full(), KeyedMap::new());
    w.tick(&mut m, &mut seen);
    w.tick(&mut m, &mut seen);
    assert_eq!(w.probed, 1);
    w.clock += REVIEW_BACKLOG_THROTTLE - 1;
    w.tick(&mut m, &mut seen);
    assert_eq!(w.probed, 1);
    w.clock += 1;
    w.tick(&mut m, &mut seen);
    assert_eq!(w.probed, 2);
}

#[test]
fn what_the_batch_fetched_is_not_probed_again() {
    let mut w = World::with(ActivityState::Ready, SessionStatus::Working);
    let pr = pull_request(7);
    assert_eq!(enrichment_key(&pr), "acme/widgets#7");
    w.batch.insert(
        enrichment_key(&pr),
        BatchedPrEnrichment {
            observation: failing(),
            additions: 3,
            deletions: 4,
            ci_checks: vec![check("test", CheckStatus::Failed)],
        },
    );
    w.pr = Ok(Some(pr));
    let (mut m, mut seen) = (full(), KeyedMap::new());
    w.tick(&mut m, &mut seen);
    assert_eq!(w.probed, 0);
    assert_eq!(w.status(), SessionStatus::CiFailed);
    let told = |w: &World| {
        w.events
            .iter()
            .filter(|e| matches!(e, OrchestratorEvent::PrEnrichmentChanged { .. }))
            .count()
    };
    assert_eq!(told(&w), 1);
    let shown = m.pr_enrichment_payload().get("s1").unwrap();
    assert_eq!((shown.number, shown.additions, shown.failing_checks), (7, 3, 1));
    assert_eq!(shown.failing_check_names, vec!["test"]);
    // The same again is not told again.
    w.tick(&mut m, &mut seen);
    assert_eq!(told(&w), 1);
    // A pull request that is gone is taken back.
    w.pr = Ok(None);
    w.tick(&mut m, &mut seen);
    assert_eq!(told(&w), 2);
    assert!(m.pr_enrichment_payload().is_empty());
}

fn check(name: &str, status: CheckStatus) -> CheckRun {
    CheckRun { name: name.into(), status, url: None, conclusion: None }
}

#[test]
fn ci_failed_message_includes_check_names() {
    let mut w = World::with(ActivityState::Ready, SessionStatus::PrOpen);
    w.react("ci-failed", ReactionAction::SendToAgent);
    w.pr = Ok(Some(pull_request(7)));
    w.observation = failing();
    w.checks = vec![check("unit-tests", CheckStatus::Failed), check("lint", CheckStatus::Passed)];
    w.tick(&mut full(), &mut KeyedMap::new());
    let said = w.dispatched[0].1.clone().unwrap();
    assert!(said.contains("unit-tests"));
    assert!(!said.contains("lint"));
}

fn comment(body: &str) -> ReviewComment {
    ReviewComment {
        id: "1".into(),
        author: "ann".into(),
        body: body.into(),
        path: Some("src/lib.rs".into()),
        line: Some(3),
        is_resolved: false,
        url: "https://c/1".into(),
    }
}

fn under_review() -> World {
    let mut w = World::with(ActivityState::Ready, SessionStatus::ReviewPending);
    w.react("changes-requested", ReactionAction::SendToAgent);
    w.pr = Ok(Some(pull_request(7)));
    w.observation = observation(PrState::Open, CiStatus::Passing, ReviewDecision::Pending, false);
    w
}

#[test]
fn review_backlog_dispatches_once_on_new_comments() {
    let mut w = under_review();
    w.comments = vec![comment("please rename")];
    w.tick(&mut full(), &mut KeyedMap::new());
    assert_eq!(w.runs("changes-requested"), 1);
    let said = w.dispatched[0].1.clone().unwrap();
    assert!(said.contains("please rename"));
    assert!(w.store[0].last_review_backlog_fingerprint.is_some());
}

#[test]
fn review_backlog_no_redispatch_on_same_comments() {
    let mut w = under_review();
    w.comments = vec![comment("one"), comment("two")];
    let (mut m, mut seen) = (full(), KeyedMap::new());
    w.tick(&mut m, &mut seen);
    w.clock += REVIEW_BACKLOG_THROTTLE;
    w.comments = vec![comment("two"), comment("one")];
    w.tick(&mut m, &mut seen);
    assert_eq!(w.runs("changes-requested"), 1);
    w.clock += REVIEW_BACKLOG_THROTTLE;
    w.comments.push(comment("three"));
    w.tick(&mut m, &mut seen);
    assert_eq!(w.runs("changes-requested"), 2);
}

#[test]
fn comments_are_asked_for_every_two_minutes_only() {
    let mut w = under_review();
    w.comments = vec![comment("one")];
    let (mut m, mut seen) = (full(), KeyedMap::new());
    let batch = |w: &mut World| {
        let enriched = BatchedPrEnrichment {
            observation: w.observation.clone(),
            additions: 0,
            deletions: 0,
            ci_checks: vec![],
        };
        w.batch.insert(enrichment_key(&pull_request(7)), enriched);
    };
    batch(&mut w);
    w.tick(&mut m, &mut seen);
    assert_eq!(w.runs("changes-requested"), 1);
    // What was fetched in a batch does not lift the limit.
    w.comments.push(comment("two"));
    w.clock += REVIEW_BACKLOG_THROTTLE - 1;
    w.tick(&mut m, &mut seen);
    assert_eq!(w.probed, 0);
    assert_eq!(w.runs("changes-requested"), 1);
    w.clock += 1;
    w.tick(&mut m, &mut seen);
    assert_eq!(w.runs("changes-requested"), 2);
}

#[test]
fn nothing_is_asked_without_a_code_host_or_reactions() {
    let mut s = session("s1", "demo");
    s.status = SessionStatus::ChangesRequested;
    let a = PollAnswers::none().scm;
    for m in [plain(), reacting(), plain().with_scm()] {
        let mut log: Vec<Effect> = vec![];
        let pr = pull_request(7);
        assert_eq!(m.check_review_backlog(&mut s, &pr, &a, &mut log), Flow::Done);
        assert_eq!(m.check_ci_failed(&s, &pr, &a, &mut log), Flow::Done);
        assert_eq!(m.check_bugbot_comments(&mut s, &pr, &a, &mut log), Flow::Done);
        assert!(log.is_empty());
    }
}

#[test]
fn a_change_is_announced_before_its_reaction() {
    let mut s = session("s1", "demo");
    s.status = SessionStatus::Working;
    let mut a = PollAnswers::none().to_needs_input;
    a.cost = Some(Ok(None));
    a.saved = Some(Ok(()));
    a.dispatched = Some(Ok(None));
    let mut log: Vec<Effect> = vec![];
    let m = reacting();
    let to = SessionStatus::NeedsInput;
    assert_eq!(m.transition(&mut s, to, Stage::NeedsInput, &a, &mut log), Flow::Done);
    let place = |f: &dyn Fn(&Effect) -> bool| log.iter().position(|e| f(e)).unwrap();
    let saved = place(&|e| matches!(e, Effect::Save { .. }));
    let told = place(&|e| matches!(e, Effect::Emit(OrchestratorEvent::StatusChanged { .. })));
    let ran = place(&|e| matches!(e, Effect::Dispatch { .. }));
    assert!(saved < told && told < ran);
    // A change that cannot be persisted sets nothing off.
    s.status = SessionStatus::Working;
    a.saved = Some(Err("disk full".into()));
    log.clear();
    assert_eq!(m.transition(&mut s, to, Stage::NeedsInput, &a, &mut log), Flow::Failed);
    assert!(!log.iter().any(|e| matches!(e, Effect::Dispatch { .. })));
}

#[test]
fn only_a_merge_is_tried_before_the_change_is_announced() {
    for (action, first) in [(ReactionAction::AutoMerge, true), (ReactionAction::Notify, false)] {
        let mut s = session("s1", "demo");
        s.status = SessionStatus::Approved;
        let mut a = PollAnswers::none().scm.transition;
        a.cost = Some(Ok(None));
        a.saved = Some(Ok(()));
        let failed = ReactionOutcome { action, success: false, escalated: false };
        a.dispatched = Some(Ok(Some(failed)));
        let mut log: Vec<Effect> = vec![];
        let m = reacting();
        let to = SessionStatus::Mergeable;
        let mut asking = session("s1", "demo");
        asking.status = SessionStatus::Approved;
        assert_eq!(
            m.transition(&mut asking, to, Stage::Scm, &a, &mut vec![]),
            Flow::Waiting(Slot::Reaction(Stage::Scm))
        );
        a.reaction = Some(Some(reaction(action)));
        assert_eq!(m.transition(&mut s, to, Stage::Scm, &a, &mut log), Flow::Done);
        let place = |f: &dyn Fn(&Effect) -> bool| log.iter().position(|e| f(e)).unwrap();
        let ran = place(&|e| matches!(e, Effect::Dispatch { .. }));
        let told = place(&|e| matches!(e, Effect::Emit(OrchestratorEvent::StatusChanged { .. })));
        assert_eq!(ran < told, first);
        let ended = if first { SessionStatus::MergeFailed } else { SessionStatus::Mergeable };
        assert_eq!(s.status, ended);
    }
}

fn bot(id: &str) -> AutomatedComment {
    AutomatedComment {
        id: id.into(),
        bot_name: "bugbot".into(),
        body: "possible overflow".into(),
        path: None,
        line: None,
        severity: AutomatedCommentSeverity::Error,
        url: format!("https://b/{id}"),
    }
}

#[test]
fn bugbot_comments_dispatches_on_new_bot_comments() {
    let mut w = World::with(ActivityState::Ready, SessionStatus::PrOpen);
    w.react("bugbot-comments", ReactionAction::SendToAgent);
    w.pr = Ok(Some(pull_request(7)));
    w.bots = vec![bot("1")];
    w.tick(&mut full(), &mut KeyedMap::new());
    assert_eq!(w.runs("bugbot-comments"), 1);
    assert!(w.dispatched[0].1.clone().unwrap().contains("possible overflow"));
    assert!(w.cleared.contains(&"bugbot-comments".to_string()));
}

#[test]
fn bugbot_comments_no_redispatch_on_same_comment_set() {
    let mut w = World::with(ActivityState::Ready, SessionStatus::PrOpen);
    w.react("bugbot-comments", ReactionAction::SendToAgent);
    w.pr = Ok(Some(pull_request(7)));
    w.bots = vec![bot("1"), bot("2")];
    let (mut m, mut seen) = (full(), KeyedMap::new());
    w.tick(&mut m, &mut seen);
    w.bots = vec![bot("2"), bot("1")];
    w.tick(&mut m, &mut seen);
    assert_eq!(w.runs("bugbot-comments"), 1);
    w.bots = vec![];
    w.tick(&mut m, &mut seen);
    assert_eq!(w.store[0].last_automated_review_dispatch_hash, None);
    w.bots = vec![bot("1"), bot("2")];
    w.tick(&mut m, &mut seen);
    assert_eq!(w.runs("bugbot-comments"), 2);
}

#[test]
fn fingerprints_decide_what_is_passed_on() {
    let m = reacting();
    let mut s = session("s1", "demo");
    let mut a = PollAnswers::none().scm;
    a.comments_dispatched = Some(Ok(None));
    a.comments_saved = Some(Ok(()));
    let mut log = vec![];
    assert_eq!(m.pass_comments_on(&mut s, &vec![comment("x")], 5, &a, &mut log), Flow::Done);
    assert_eq!(s.last_review_backlog_fingerprint, Some(5));
    assert_eq!(log.len(), 2);
    assert_eq!(m.pass_comments_on(&mut s, &vec![comment("y")], 5, &a, &mut log), Flow::Done);
    assert_eq!(log.len(), 2);
    a.bot_dispatched = Some(Err("down".into()));
    let mut log = vec![];
    assert_eq!(m.pass_bot_comments_on(&mut s, &vec![bot("1")], 9, &a, &mut log), Flow::Failed);
    assert_eq!(s.last_automated_review_fingerprint, Some(9));
    assert_eq!(s.last_automated_review_dispatch_hash, None);
}

// ---------- Conflicts ---------- //

fn in_conflict() -> World {
    let mut w = World::with(ActivityState::Ready, SessionStatus::PrOpen);
    w.react("merge-conflicts", ReactionAction::SendToAgent);
    w.pr = Ok(Some(pull_request(7)));
    w.observation = conflicting();
    w
}

#[test]
fn merge_conflicts_dispatches_once_on_conflicting_pr() {
    let mut w = in_conflict();
    w.tick(&mut full(), &mut KeyedMap::new());
    assert_eq!(w.runs("merge-conflicts"), 1);
    assert_eq!(w.store[0].last_merge_conflict_dispatched, Some(true));
    assert_eq!(w.status(), SessionStatus::PrOpen);
}

#[test]
fn merge_conflicts_suppresses_redispatch_on_subsequent_tick() {
    let mut w = in_conflict();
    let (mut m, mut seen) = (full(), KeyedMap::new());
    w.tick(&mut m, &mut seen);
    w.tick(&mut m, &mut seen);
    assert_eq!(w.runs("merge-conflicts"), 1);
}

#[test]
fn merge_conflicts_rearms_after_resolution() {
    let mut w = in_conflict();
    let (mut m, mut seen) = (full(), KeyedMap::new());
    w.tick(&mut m, &mut seen);
    w.observation = open_pr();
    w.tick(&mut m, &mut seen);
    assert_eq!(w.store[0].last_merge_conflict_dispatched, None);
    assert!(w.cleared.contains(&"merge-conflicts".to_string()));
    w.observation = conflicting();
    w.tick(&mut m, &mut seen);
    assert_eq!(w.runs("merge-conflicts"), 2);
}

#[test]
fn merge_conflicts_unconfigured_no_op() {
    let mut w = in_conflict();
    w.reactions = KeyedMap::new();
    w.tick(&mut full(), &mut KeyedMap::new());
    assert!(w.dispatched.is_empty());
    assert_eq!(w.store[0].last_merge_conflict_dispatched, None);
}

#[test]
fn merge_conflicts_ignored_on_non_pr_track_status() {
    let m = full();
    let mut s = session("s1", "demo");
    s.status = SessionStatus::Working;
    let a = PollAnswers::none().scm;
    let mut log = vec![];
    let o = conflicting();
    assert_eq!(m.check_merge_conflicts(&mut s, Some(&o), &a, &mut log), Flow::Done);
    assert!(log.is_empty());
}

// ---------- Idle agents ---------- //

fn stuck_world(status: SessionStatus, threshold: &str) -> World {
    let mut w = World::with(ActivityState::Idle, status);
    let mut c = reaction(ReactionAction::Notify);
    c.threshold = Some(threshold.into());
    w.reactions.insert("agent-stuck".into(), c);
    w
}

#[test]
fn stuck_update_idle_since_inserts_preserves_and_clears() {
    let mut m = plain();
    let s = session("s1", "demo");
    let mut log = vec![];
    assert_eq!(
        m.update_idle_since(&s, ActivityState::Idle, &None, &mut log),
        Flow::Waiting(Slot::IdleNow)
    );
    m.update_idle_since(&s, ActivityState::Idle, &Some(10), &mut log);
    m.update_idle_since(&s, ActivityState::Blocked, &Some(20), &mut log);
    assert_eq!(m.idle_since.get("s1"), Some(&10));
    m.update_idle_since(&s, ActivityState::Active, &None, &mut log);
    assert_eq!(m.idle_since.get("s1"), None);
    m.update_idle_since(&s, ActivityState::Blocked, &Some(30), &mut log);
    assert_eq!(m.idle_since.get("s1"), Some(&30));
}

#[test]
fn stuck_update_idle_since_tracks_sessions_independently() {
    let mut m = plain();
    let mut log = vec![];
    m.update_idle_since(&session("a", "p"), ActivityState::Idle, &Some(1), &mut log);
    m.update_idle_since(&session("b", "p"), ActivityState::Idle, &Some(2), &mut log);
    m.update_idle_since(&session("a", "p"), ActivityState::Ready, &None, &mut log);
    assert_eq!(m.idle_since.get("a"), None);
    assert_eq!(m.idle_since.get("b"), Some(&2));
}

#[test]
fn stuck_stuck_detection_fires_on_working_after_threshold() {
    let mut w = stuck_world(SessionStatus::Working, "10s");
    let (mut m, mut seen) = (reacting(), KeyedMap::new());
    w.tick(&mut m, &mut seen);
    w.clock += 10 * NANOS_PER_SEC + 1;
    w.tick(&mut m, &mut seen);
    assert_eq!(w.changes(), vec![(SessionStatus::Working, SessionStatus::Stuck)]);
    assert_eq!(w.runs("agent-stuck"), 1);
}

#[test]
fn stuck_stuck_not_triggered_before_threshold_elapses() {
    let mut w = stuck_world(SessionStatus::Working, "10s");
    let (mut m, mut seen) = (reacting(), KeyedMap::new());
    w.tick(&mut m, &mut seen);
    w.clock += 10 * NANOS_PER_SEC;
    w.tick(&mut m, &mut seen);
    assert_eq!(w.status(), SessionStatus::Working);
}

#[test]
fn stuck_stuck_not_triggered_without_agent_stuck_config() {
    let mut w = stuck_world(SessionStatus::Working, "10s");
    w.reactions = KeyedMap::new();
    let (mut m, mut seen) = (reacting(), KeyedMap::new());
    w.tick(&mut m, &mut seen);
    w.clock += 1000 * NANOS_PER_SEC;
    w.tick(&mut m, &mut seen);
    assert_eq!(w.status(), SessionStatus::Working);
}

#[test]
fn a_threshold_that_cannot_be_read_is_reported() {
    let mut w = stuck_world(SessionStatus::Working, "soon");
    w.tick(&mut reacting(), &mut KeyedMap::new());
    assert_eq!(w.warned, vec!["soon"]);
    assert_eq!(w.status(), SessionStatus::Working);
}

#[test]
fn stuck_stuck_recovers_to_working_on_active_activity() {
    let mut w = stuck_world(SessionStatus::Stuck, "10s");
    w.activity = Ok(ActivityState::Active);
    w.tick(&mut reacting(), &mut KeyedMap::new());
    assert_eq!(w.status(), SessionStatus::Working);
    assert_eq!(w.cleared, vec!["agent-stuck"]);
}

#[test]
fn stuck_merge_failed_does_not_become_stuck() {
    let mut w = stuck_world(SessionStatus::MergeFailed, "1s");
    let (mut m, mut seen) = (reacting(), KeyedMap::new());
    w.tick(&mut m, &mut seen);
    w.clock += 60 * NANOS_PER_SEC;
    w.tick(&mut m, &mut seen);
    assert_eq!(w.status(), SessionStatus::MergeFailed);
}

#[test]
fn stuck_one_transition_per_tick_prefers_scm_transition_over_stuck() {
    let mut w = stuck_world(SessionStatus::PrOpen, "1s");
    w.pr = Ok(Some(pull_request(7)));
    let (mut m, mut seen) = (full(), KeyedMap::new());
    w.tick(&mut m, &mut seen);
    w.clock += 60 * NANOS_PER_SEC;
    w.observation = failing();
    w.tick(&mut m, &mut seen);
    assert_eq!(w.changes(), vec![(SessionStatus::PrOpen, SessionStatus::CiFailed)]);
}

#[test]
fn scm_poll_stuck_overrides_pr_open_in_same_tick_when_idle_beyond_threshold() {
    let mut w = stuck_world(SessionStatus::Working, "1s");
    let (mut m, mut seen) = (full(), KeyedMap::new());
    w.tick(&mut m, &mut seen);
    w.clock += 60 * NANOS_PER_SEC;
    w.pr = Ok(Some(pull_request(7)));
    w.tick(&mut m, &mut seen);
    assert_eq!(w.changes(), vec![(SessionStatus::Working, SessionStatus::Stuck)]);
}

// ---------- Branches ---------- //

fn refresh(
    m: &mut LifecycleManager,
    s: &mut Session,
    open_pr: bool,
    others: &Vec<Session>,
    probe: Option<WorkspaceBranchProbe>,
) -> (Refresh, Vec<Effect>) {
    let mut log = vec![];
    let r = m.refresh_tracked_branch(s, open_pr, others, probe.as_ref(), &mut log);
    (r, log)
}

fn on(branch: &str) -> Option<WorkspaceBranchProbe> {
    Some(WorkspaceBranchProbe::Branch(branch.into()))
}

#[test]
fn branch_changed_updates_session_and_persists() {
    let mut s = session("s1", "p");
    let (r, log) = refresh(&mut plain(), &mut s, false, &vec![], on("new"));
    assert_eq!(r, Refresh::LookUp);
    assert_eq!(s.branch, "new");
    assert!(log.iter().any(|e| matches!(e, Effect::Save { session } if session.branch == "new")));
}

#[test]
fn branch_unchanged_is_noop() {
    let mut s = session("s1", "p");
    let (r, log) = refresh(&mut plain(), &mut s, false, &vec![], on("feat-s1"));
    assert_eq!(r, Refresh::LookUp);
    assert!(!log.iter().any(|e| matches!(e, Effect::Save { .. })));
}

#[test]
fn detached_head_clears_branch_and_signals_skip() {
    let mut s = session("s1", "p");
    let probe = Some(WorkspaceBranchProbe::Detached);
    let (r, _) = refresh(&mut plain(), &mut s, false, &vec![], probe);
    assert_eq!(r, Refresh::Skip);
    assert_eq!(s.branch, "");
}

#[test]
fn missing_worktree_is_noop() {
    let mut s = session("s1", "p");
    let probe = Some(WorkspaceBranchProbe::Unavailable);
    let (r, _) = refresh(&mut plain(), &mut s, false, &vec![], probe);
    assert_eq!(r, Refresh::LookUp);
    assert_eq!(s.branch, "feat-s1");
}

#[test]
fn open_pr_guard_skips_refresh() {
    let mut s = session("s1", "p");
    let (r, log) = refresh(&mut plain(), &mut s, true, &vec![], on("new"));
    assert_eq!(r, Refresh::LookUp);
    assert_eq!(s.branch, "feat-s1");
    assert!(log.is_empty());
}

#[test]
fn sibling_owns_branch_blocks_adoption() {
    let mut s = session("s1", "p");
    let mut other = session("s2", "p");
    other.branch = "new".into();
    refresh(&mut plain(), &mut s, false, &vec![other], on("new"));
    assert_eq!(s.branch, "feat-s1");
}

#[test]
fn transient_detached_state_returns_unavailable() {
    assert_eq!(read_workspace_branch(Some("0123abcd\n"), true), WorkspaceBranchProbe::Unavailable);
    assert_eq!(read_workspace_branch(Some("0123abcd\n"), false), WorkspaceBranchProbe::Detached);
    assert_eq!(read_workspace_branch(None, false), WorkspaceBranchProbe::Unavailable);
    assert_eq!(
        read_workspace_branch(Some("ref: refs/heads/feat/x\n"), true),
        WorkspaceBranchProbe::Branch("feat/x".into())
    );
    assert_eq!(transient_marker_paths("/g")[0], "/g/rebase-merge");
}

#[test]
fn worktree_style_dot_git_file_works() {
    let file = |s: &str| DotGit::File(Some(s.into()));
    assert_eq!(
        resolve_git_dir("/ws", &file("gitdir: /repo/.git/worktrees/x\n")).as_deref(),
        Some("/repo/.git/worktrees/x")
    );
    assert_eq!(resolve_git_dir("/ws", &file("gitdir: ../g")).as_deref(), Some("/ws/../g"));
    assert_eq!(resolve_git_dir("/ws", &DotGit::Directory).as_deref(), Some("/ws/.git"));
    assert_eq!(resolve_git_dir("/ws", &DotGit::Missing), None);
    assert_eq!(resolve_git_dir("/ws", &file("nonsense")), None);
}

// ---------- Events ---------- //

#[test]
fn termination_reason_wire_form_is_snake_case() {
    assert_eq!(TerminationReason::RuntimeGone.as_str(), "runtime_gone");
    assert_eq!(TerminationReason::AgentExited.as_str(), "agent_exited");
    assert_eq!(TerminationReason::NoHandle.as_str(), "no_handle");
    assert_eq!(TerminationReason::PrMerged.as_str(), "pr_merged");
}

// ---------- Branches ---------- //

#[test]
fn a_tick_follows_the_agent_to_another_branch() {
    let mut w = World::with(ActivityState::Ready, SessionStatus::Working);
    w.branch = Some("other".into());
    let (mut m, mut seen) = (full(), KeyedMap::new());
    w.tick(&mut m, &mut seen);
    assert_eq!(w.searched, vec!["other"]);
    assert_eq!(w.store[0].branch, "other");
    // A pull request that is open holds the branch.
    w.pr = Ok(Some(pull_request(7)));
    w.tick(&mut m, &mut seen);
    assert_eq!(w.status(), SessionStatus::PrOpen);
    let looked = w.looked;
    w.branch = Some("third".into());
    w.tick(&mut m, &mut seen);
    assert_eq!(w.looked, looked);
    assert_eq!(w.store[0].branch, "other");
}

#[test]
fn a_worktree_on_no_branch_has_no_pull_request() {
    let mut w = World::with(ActivityState::Ready, SessionStatus::Working);
    w.pr = Ok(Some(pull_request(7)));
    w.branch = WorkspaceBranchProbe::Detached.into_branch();
    w.tick(&mut full(), &mut KeyedMap::new());
    assert!(w.searched.is_empty());
    assert_eq!(w.store[0].branch, "");
    assert_eq!(w.status(), SessionStatus::Working);
    assert_eq!(WorkspaceBranchProbe::Unavailable.into_branch(), None);
    assert_eq!(WorkspaceBranchProbe::Branch("b".into()).into_branch(), Some("b".into()));
}

#[test]
fn two_sessions_do_not_come_to_one_branch() {
    let mut w = World::with(ActivityState::Ready, SessionStatus::Working);
    let mut other = session("s2", "demo");
    other.status = SessionStatus::Working;
    w.store.push(other);
    w.branch = Some("shared".into());
    w.tick(&mut full(), &mut KeyedMap::new());
    assert_eq!(w.store[0].branch, "shared");
    assert_eq!(w.store[1].branch, "feat-s2");
}

#[test]
fn worktrees_are_left_alone_without_a_code_host() {
    let mut w = World::with(ActivityState::Ready, SessionStatus::Working);
    w.branch = Some("other".into());
    w.tick(&mut reacting(), &mut KeyedMap::new());
    assert_eq!(w.looked, 0);
    assert_eq!(w.store[0].branch, "feat-s1");
}
