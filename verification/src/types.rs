//! Sessions and the states they pass through.

use vstd::prelude::*;

use crate::config::agent::AgentConfig;
use crate::text::clone_opt;

verus! {

/// Where a session stands in its life.
#[derive(Clone, Copy, Debug, PartialEq, Eq, Structural)]
pub enum SessionStatus {
    Spawning,
    Working,
    NeedsInput,
    Idle,
    Stuck,
    PrOpen,
    CiFailed,
    ReviewPending,
    ChangesRequested,
    Approved,
    Mergeable,
    MergeFailed,
    Cleanup,
    Merged,
    Killed,
    Terminated,
    Done,
    Errored,
}

impl SessionStatus {
    /// No tick ever moves a session out of a terminal status.
    pub open spec fn terminal(self) -> bool {
        ||| self == SessionStatus::Errored
        ||| self == SessionStatus::Killed
        ||| self == SessionStatus::Terminated
        ||| self == SessionStatus::Done
        ||| self == SessionStatus::Idle
        ||| self == SessionStatus::Merged
        ||| self == SessionStatus::Cleanup
    }

    /// Whether the status is terminal.
    pub fn is_terminal(self) -> (r: bool)
        ensures
            r == self.terminal(),
    {
        matches!(
            self,
            SessionStatus::Errored
                | SessionStatus::Killed
                | SessionStatus::Terminated
                | SessionStatus::Done
                | SessionStatus::Idle
                | SessionStatus::Merged
                | SessionStatus::Cleanup
        )
    }

    /// The name under which the status is shown and stored.
    pub open spec fn name(self) -> Seq<char> {
        match self {
            SessionStatus::Spawning => "spawning"@,
            SessionStatus::Working => "working"@,
            SessionStatus::NeedsInput => "needs_input"@,
            SessionStatus::Idle => "idle"@,
            SessionStatus::Stuck => "stuck"@,
            SessionStatus::PrOpen => "pr_open"@,
            SessionStatus::CiFailed => "ci_failed"@,
            SessionStatus::ReviewPending => "review_pending"@,
            SessionStatus::ChangesRequested => "changes_requested"@,
            SessionStatus::Approved => "approved"@,
            SessionStatus::Mergeable => "mergeable"@,
            SessionStatus::MergeFailed => "merge_failed"@,
            SessionStatus::Cleanup => "cleanup"@,
            SessionStatus::Merged => "merged"@,
            SessionStatus::Killed => "killed"@,
            SessionStatus::Terminated => "terminated"@,
            SessionStatus::Done => "done"@,
            SessionStatus::Errored => "errored"@,
        }
    }

    /// The name under which the status is shown and stored.
    pub fn as_str(self) -> (r: &'static str)
        ensures
            r@ == self.name(),
    {
        match self {
            SessionStatus::Spawning => "spawning",
            SessionStatus::Working => "working",
            SessionStatus::NeedsInput => "needs_input",
            SessionStatus::Idle => "idle",
            SessionStatus::Stuck => "stuck",
            SessionStatus::PrOpen => "pr_open",
            SessionStatus::CiFailed => "ci_failed",
            SessionStatus::ReviewPending => "review_pending",
            SessionStatus::ChangesRequested => "changes_requested",
            SessionStatus::Approved => "approved",
            SessionStatus::Mergeable => "mergeable",
            SessionStatus::MergeFailed => "merge_failed",
            SessionStatus::Cleanup => "cleanup",
            SessionStatus::Merged => "merged",
            SessionStatus::Killed => "killed",
            SessionStatus::Terminated => "terminated",
            SessionStatus::Done => "done",
            SessionStatus::Errored => "errored",
        }
    }
}

/// What an agent was last seen doing.
#[derive(Clone, Copy, Debug, PartialEq, Eq, Structural)]
pub enum ActivityState {
    Active,
    Ready,
    Idle,
    WaitingInput,
    Blocked,
    Exited,
}

impl ActivityState {
    /// Whether the agent's process is gone.
    pub fn is_terminal(self) -> (r: bool)
        ensures
            r == (self == ActivityState::Exited),
    {
        matches!(self, ActivityState::Exited)
    }
}

/// The name of one session.
#[derive(Debug, PartialEq, Eq)]
pub struct SessionId(pub String);

impl Clone for SessionId {
    fn clone(&self) -> (r: Self)
        ensures
            r == *self,
    {
        SessionId(self.0.clone())
    }
}

/// Tokens used by a session. The amount in US dollars is carried as the bits of
/// a double-precision number; nothing here computes with it.
#[derive(Clone, Copy, Debug, PartialEq, Eq, Structural)]
pub struct CostEstimate {
    pub input_tokens: u64,
    pub output_tokens: u64,
    pub cache_read_tokens: u64,
    pub cache_creation_tokens: u64,
    pub cost_usd_bits: Option<u64>,
}

/// One agent at work in its own worktree.
#[derive(Debug, PartialEq, Eq)]
pub struct Session {
    pub id: SessionId,
    pub project_id: String,
    pub status: SessionStatus,
    pub agent: String,
    pub agent_config: Option<AgentConfig>,
    pub branch: String,
    pub task: String,
    pub workspace_path: Option<String>,
    pub runtime_handle: Option<String>,
    pub runtime: String,
    pub activity: Option<ActivityState>,
    /// Milliseconds since the epoch.
    pub created_at: u64,
    pub cost: Option<CostEstimate>,
    pub issue_id: Option<String>,
    pub issue_url: Option<String>,
    pub claimed_pr_number: Option<u32>,
    pub claimed_pr_url: Option<String>,
    pub initial_prompt_override: Option<String>,
    pub spawned_by: Option<SessionId>,
    /// Set while a merge conflict has been reported and not yet resolved.
    pub last_merge_conflict_dispatched: Option<bool>,
    /// Fingerprint of the review comments that were last passed on.
    pub last_review_backlog_fingerprint: Option<u64>,
    /// Fingerprint of the bot comments that were last seen.
    pub last_automated_review_fingerprint: Option<u64>,
    /// Fingerprint of the bot comments that were last passed on.
    pub last_automated_review_dispatch_hash: Option<u64>,
}

impl Clone for Session {
    fn clone(&self) -> (r: Self)
        ensures
            r == *self,
    {
        Session {
            id: self.id.clone(),
            project_id: self.project_id.clone(),
            status: self.status,
            agent: self.agent.clone(),
            agent_config: match &self.agent_config {
                Some(c) => Some(c.clone()),
                None => None,
            },
            branch: self.branch.clone(),
            task: self.task.clone(),
            workspace_path: clone_opt(&self.workspace_path),
            runtime_handle: clone_opt(&self.runtime_handle),
            runtime: self.runtime.clone(),
            activity: self.activity,
            created_at: self.created_at,
            cost: self.cost,
            issue_id: clone_opt(&self.issue_id),
            issue_url: clone_opt(&self.issue_url),
            claimed_pr_number: self.claimed_pr_number,
            claimed_pr_url: clone_opt(&self.claimed_pr_url),
            initial_prompt_override: clone_opt(&self.initial_prompt_override),
            spawned_by: match &self.spawned_by {
                Some(i) => Some(i.clone()),
                None => None,
            },
            last_merge_conflict_dispatched: self.last_merge_conflict_dispatched,
            last_review_backlog_fingerprint: self.last_review_backlog_fingerprint,
            last_automated_review_fingerprint: self.last_automated_review_fingerprint,
            last_automated_review_dispatch_hash: self.last_automated_review_dispatch_hash,
        }
    }
}

impl Session {
    /// Whether the session has come to its end.
    pub fn is_terminal(&self) -> (r: bool)
        ensures
            r == self.status.terminal(),
    {
        self.status.is_terminal()
    }
}

/// A session ends when it has failed, was killed or terminated, is done, was left idle, was merged,
/// or is being cleaned up; in every other status it goes on.
pub proof fn law_sessions_end(s: SessionStatus)
    ensures
        match s {
            SessionStatus::Errored => s.terminal(),
            SessionStatus::Killed => s.terminal(),
            SessionStatus::Terminated => s.terminal(),
            SessionStatus::Done => s.terminal(),
            SessionStatus::Idle => s.terminal(),
            SessionStatus::Merged => s.terminal(),
            SessionStatus::Cleanup => s.terminal(),
            SessionStatus::Spawning => !s.terminal(),
            SessionStatus::Working => !s.terminal(),
            SessionStatus::NeedsInput => !s.terminal(),
            SessionStatus::Stuck => !s.terminal(),
            SessionStatus::PrOpen => !s.terminal(),
            SessionStatus::CiFailed => !s.terminal(),
            SessionStatus::ReviewPending => !s.terminal(),
            SessionStatus::ChangesRequested => !s.terminal(),
            SessionStatus::Approved => !s.terminal(),
            SessionStatus::Mergeable => !s.terminal(),
            SessionStatus::MergeFailed => !s.terminal(),
        },
{
}

/// Every status has a name of its own, by which it is found again.
pub proof fn law_statuses_have_names(s: SessionStatus, t: SessionStatus)
    ensures
        s.name() == t.name() ==> s == t,
        s.name().len() > 0,
        s == SessionStatus::NeedsInput ==> s.name() == "needs_input"@,
        s == SessionStatus::PrOpen ==> s.name() == "pr_open"@,
        s == SessionStatus::CiFailed ==> s.name() == "ci_failed"@,
        s == SessionStatus::ReviewPending ==> s.name() == "review_pending"@,
        s == SessionStatus::ChangesRequested ==> s.name() == "changes_requested"@,
        s == SessionStatus::MergeFailed ==> s.name() == "merge_failed"@,
        s == SessionStatus::Spawning ==> s.name() == "spawning"@,
        s == SessionStatus::Working ==> s.name() == "working"@,
        s == SessionStatus::Idle ==> s.name() == "idle"@,
        s == SessionStatus::Stuck ==> s.name() == "stuck"@,
        s == SessionStatus::Approved ==> s.name() == "approved"@,
        s == SessionStatus::Mergeable ==> s.name() == "mergeable"@,
        s == SessionStatus::Cleanup ==> s.name() == "cleanup"@,
        s == SessionStatus::Merged ==> s.name() == "merged"@,
        s == SessionStatus::Killed ==> s.name() == "killed"@,
        s == SessionStatus::Terminated ==> s.name() == "terminated"@,
        s == SessionStatus::Done ==> s.name() == "done"@,
        s == SessionStatus::Errored ==> s.name() == "errored"@,
{
    reveal_strlit("spawning");
    reveal_strlit("working");
    reveal_strlit("needs_input");
    reveal_strlit("idle");
    reveal_strlit("stuck");
    reveal_strlit("pr_open");
    reveal_strlit("ci_failed");
    reveal_strlit("review_pending");
    reveal_strlit("changes_requested");
    reveal_strlit("approved");
    reveal_strlit("mergeable");
    reveal_strlit("merge_failed");
    reveal_strlit("cleanup");
    reveal_strlit("merged");
    reveal_strlit("killed");
    reveal_strlit("terminated");
    reveal_strlit("done");
    reveal_strlit("errored");
    // Names of one length differ in their first letter, or in their second.
    let a = s.name();
    let b = t.name();
    if a == b {
        assert(a.len() == b.len() && a[0] == b[0] && a[1] == b[1]);
    }
}

} // verus!
