//! What a poll does to the world, and what it learns from it.
//!
//! Polling never touches the world itself. It is a function of the answers that
//! have come in so far, and what it yields is the list of everything that is to be
//! done, in order. Where an answer is missing the list ends with the question, and
//! the poll is run again, on the same state, once the answer is there. What was in
//! the list before stands in the new one unchanged, so each part of it is carried
//! out once.

use vstd::prelude::*;

use crate::events::{EventView, OrchestratorEvent};
use crate::reactions::{ReactionConfig, ReactionOutcome};
use crate::scm::{
    AutomatedComment, CheckRun, CiStatus, MergeReadiness, ObservationView, PrState, PullRequest,
    ReviewComment, ReviewDecision, ScmObservation,
};
use crate::types::{ActivityState, CostEstimate, Session, SessionId, SessionStatus};

verus! {

/// The changes of status that one poll can make.
#[derive(Clone, Copy, Debug, PartialEq, Eq, Structural)]
pub enum Stage {
    /// The agent waits for input.
    NeedsInput,
    /// The agent is at work.
    Working,
    /// The pull request asks for it.
    Scm,
    /// The session comes to its end.
    Killed,
    /// The agent has been idle for too long.
    Stuck,
}

/// The places in `PollAnswers` where an answer goes.
#[derive(Clone, Copy, Debug, PartialEq, Eq, Structural)]
pub enum Slot {
    Alive,
    Activity,
    ActivitySaved,
    IdleNow,
    Cost(Stage),
    Dispatched(Stage),
    Reaction(Stage),
    Saved(Stage),
    Parent(Stage),
    StuckReaction(Stage),
    StuckNow(Stage),
    Detected,
    ThrottleNow,
    Probes,
    ProbedAt,
    Derived,
    ConflictDispatched,
    ConflictSaved,
    Checks,
    ChecksDispatched,
    CommentsNow,
    Comments,
    CommentsDispatched,
    CommentsSaved,
    BotComments,
    BotDispatched,
    BotSaved,
}

/// How far a poll has come.
#[derive(Clone, Copy, Debug, PartialEq, Eq, Structural)]
pub enum Flow {
    /// There is nothing left to do.
    Done,
    /// The last effect is a question, and its answer is missing.
    Waiting(Slot),
    /// The last question was answered with an error that ends the poll.
    Failed,
}

/// One thing that is to be done, or one question that is to be answered.
#[derive(Debug, PartialEq, Eq)]
pub enum Effect {
    /// Tell the watchers.
    Emit(OrchestratorEvent),
    /// Ask for the time, in nanoseconds of a clock that never goes back.
    ReadClock,
    /// Ask whether the runtime is alive.
    IsAlive { handle: String },
    /// Ask what the agent is doing.
    DetectActivity { session: Session },
    /// Ask what the session has cost so far.
    EstimateCost { session: Session },
    /// Write the cost to the ledger; an error is ignored.
    RecordCost { session: Session, cost: CostEstimate },
    /// Ask which reaction is configured under `key` for the session.
    ResolveReaction { session: Session, key: String },
    /// Let the reaction under `key` run.
    Dispatch { session: Session, key: String },
    /// Let the reaction under `key` run with a message of its own.
    DispatchWithMessage { session: Session, key: String, message: String },
    /// Forget how often the reaction under `key` was tried.
    ClearTracker { id: SessionId, key: String },
    /// Forget how often any reaction was tried.
    ClearAllTrackers { id: SessionId },
    /// Say once that a duration in the configuration cannot be read.
    WarnUnreadable { key: String, field: String, raw: String },
    /// Write the session to disk.
    Save { session: Session },
    /// Look up the runtime handle of the session whose id starts with `prefix`.
    FindSession { prefix: String },
    /// Send a message to a runtime; an error is ignored.
    SendMessage { handle: String, message: String },
    /// Ask which branch the worktree at `path` is on.
    ProbeBranch { path: String },
    /// Ask for the pull request of the session's branch.
    DetectPr { session: Session },
    /// Ask for everything about many pull requests at once.
    EnrichPrs { prs: Vec<PullRequest> },
    /// Ask for the state, checks, reviews and mergeability of a pull request.
    ProbePr { pr: PullRequest },
    /// Ask for the status that follows from `current` and what was observed.
    DeriveStatus { current: SessionStatus, observation: Option<ScmObservation> },
    /// Ask for the single checks of a pull request.
    ListChecks { pr: PullRequest },
    /// Ask for the review comments that are not yet resolved.
    ListComments { pr: PullRequest },
    /// Ask for the comments of bots.
    ListAutomatedComments { pr: PullRequest },
    /// End the runtime; an error is ignored.
    DestroyRuntime { handle: String },
    /// Remove the worktree; an error is ignored.
    DestroyWorkspace { path: String },
}

/// The contents of an `Effect`.
pub enum EffectView {
    Emit(EventView),
    ReadClock,
    IsAlive { handle: Seq<char> },
    DetectActivity { session: Session },
    EstimateCost { session: Session },
    RecordCost { session: Session, cost: CostEstimate },
    ResolveReaction { session: Session, key: Seq<char> },
    Dispatch { session: Session, key: Seq<char> },
    DispatchWithMessage { session: Session, key: Seq<char>, message: Seq<char> },
    ClearTracker { id: Seq<char>, key: Seq<char> },
    ClearAllTrackers { id: Seq<char> },
    WarnUnreadable { key: Seq<char>, field: Seq<char>, raw: Seq<char> },
    Save { session: Session },
    FindSession { prefix: Seq<char> },
    SendMessage { handle: Seq<char>, message: Seq<char> },
    ProbeBranch { path: Seq<char> },
    DetectPr { session: Session },
    EnrichPrs { prs: Seq<PullRequest> },
    ProbePr { pr: PullRequest },
    DeriveStatus { current: SessionStatus, observation: Option<ObservationView> },
    ListChecks { pr: PullRequest },
    ListComments { pr: PullRequest },
    ListAutomatedComments { pr: PullRequest },
    DestroyRuntime { handle: Seq<char> },
    DestroyWorkspace { path: Seq<char> },
}

/// The contents of an optional observation.
pub open spec fn opt_observation(o: Option<ScmObservation>) -> Option<ObservationView> {
    match o {
        Some(v) => Some(v@),
        None => None,
    }
}

impl View for Effect {
    type V = EffectView;

    open spec fn view(&self) -> EffectView {
        match self {
            Effect::Emit(e) => EffectView::Emit(e@),
            Effect::ReadClock => EffectView::ReadClock,
            Effect::IsAlive { handle } => EffectView::IsAlive { handle: handle@ },
            Effect::DetectActivity { session } => EffectView::DetectActivity { session: *session },
            Effect::EstimateCost { session } => EffectView::EstimateCost { session: *session },
            Effect::RecordCost { session, cost } => EffectView::RecordCost {
                session: *session,
                cost: *cost,
            },
            Effect::ResolveReaction { session, key } => EffectView::ResolveReaction {
                session: *session,
                key: key@,
            },
            Effect::Dispatch { session, key } => EffectView::Dispatch {
                session: *session,
                key: key@,
            },
            Effect::DispatchWithMessage { session, key, message } =>
                EffectView::DispatchWithMessage {
                session: *session,
                key: key@,
                message: message@,
            },
            Effect::ClearTracker { id, key } => EffectView::ClearTracker { id: id.0@, key: key@ },
            Effect::ClearAllTrackers { id } => EffectView::ClearAllTrackers { id: id.0@ },
            Effect::WarnUnreadable { key, field, raw } => EffectView::WarnUnreadable {
                key: key@,
                field: field@,
                raw: raw@,
            },
            Effect::Save { session } => EffectView::Save { session: *session },
            Effect::FindSession { prefix } => EffectView::FindSession { prefix: prefix@ },
            Effect::SendMessage { handle, message } => EffectView::SendMessage {
                handle: handle@,
                message: message@,
            },
            Effect::ProbeBranch { path } => EffectView::ProbeBranch { path: path@ },
            Effect::DetectPr { session } => EffectView::DetectPr { session: *session },
            Effect::EnrichPrs { prs } => EffectView::EnrichPrs { prs: prs@ },
            Effect::ProbePr { pr } => EffectView::ProbePr { pr: *pr },
            Effect::DeriveStatus { current, observation } => EffectView::DeriveStatus {
                current: *current,
                observation: opt_observation(*observation),
            },
            Effect::ListChecks { pr } => EffectView::ListChecks { pr: *pr },
            Effect::ListComments { pr } => EffectView::ListComments { pr: *pr },
            Effect::ListAutomatedComments { pr } => EffectView::ListAutomatedComments { pr: *pr },
            Effect::DestroyRuntime { handle } => EffectView::DestroyRuntime { handle: handle@ },
            Effect::DestroyWorkspace { path } => EffectView::DestroyWorkspace { path: path@ },
        }
    }
}

/// The contents of a list of effects.
pub open spec fn views(s: Seq<Effect>) -> Seq<EffectView> {
    s.map_values(|e: Effect| e@)
}

/// Adds an effect to a list.
pub fn note(log: &mut Vec<Effect>, effect: Effect)
    ensures
        views(final(log)@) == views(old(log)@).push(effect@),
        final(log)@ == old(log)@.push(effect),
{
    let ghost had = log@;
    log.push(effect);
    assert(views(log@) =~= views(had).push(effect@));
}

/// The answers to the questions of one change of status.
#[derive(Debug, PartialEq, Eq)]
pub struct TransitionAnswers {
    pub cost: Option<Result<Option<CostEstimate>, String>>,
    pub dispatched: Option<Result<Option<ReactionOutcome>, String>>,
    pub reaction: Option<Option<ReactionConfig>>,
    pub saved: Option<Result<(), String>>,
    /// `Some(None)`: the parent is gone; `Some(Some(None))`: it has no runtime.
    pub parent: Option<Option<Option<String>>>,
}

/// The answers to the questions that decide whether an agent is stuck.
#[derive(Debug, PartialEq, Eq)]
pub struct StuckAnswers {
    pub reaction: Option<Option<ReactionConfig>>,
    pub now: Option<u64>,
}

/// The answers about one pull request.
#[derive(Debug, PartialEq, Eq)]
pub struct PrProbes {
    pub state: Result<PrState, String>,
    pub ci: Result<CiStatus, String>,
    pub review: Result<ReviewDecision, String>,
    pub readiness: Result<MergeReadiness, String>,
}

/// The answers to the questions of one poll of the code host.
#[derive(Debug, PartialEq, Eq)]
pub struct ScmAnswers {
    pub detected: Option<Result<Option<PullRequest>, String>>,
    pub throttle_now: Option<u64>,
    pub probes: Option<PrProbes>,
    pub probed_at: Option<u64>,
    pub derived: Option<Option<SessionStatus>>,
    pub stuck: StuckAnswers,
    pub transition: TransitionAnswers,
    pub conflict_dispatched: Option<Result<Option<ReactionOutcome>, String>>,
    pub conflict_saved: Option<Result<(), String>>,
    pub checks: Option<Result<Vec<CheckRun>, String>>,
    pub checks_dispatched: Option<Result<Option<ReactionOutcome>, String>>,
    pub comments_now: Option<u64>,
    pub comments: Option<Result<Vec<ReviewComment>, String>>,
    pub comments_dispatched: Option<Result<Option<ReactionOutcome>, String>>,
    pub comments_saved: Option<Result<(), String>>,
    pub bot_comments: Option<Result<Vec<AutomatedComment>, String>>,
    pub bot_dispatched: Option<Result<Option<ReactionOutcome>, String>>,
    pub bot_saved: Option<Result<(), String>>,
}

/// The answers to the questions of one poll of a session.
#[derive(Debug, PartialEq, Eq)]
pub struct PollAnswers {
    pub alive: Option<Result<bool, String>>,
    pub activity: Option<Result<ActivityState, String>>,
    pub to_needs_input: TransitionAnswers,
    pub activity_saved: Option<Result<(), String>>,
    pub idle_now: Option<u64>,
    pub to_working: TransitionAnswers,
    pub scm: ScmAnswers,
    pub to_killed: TransitionAnswers,
    pub stuck: StuckAnswers,
    pub to_stuck: TransitionAnswers,
}

} // verus!
