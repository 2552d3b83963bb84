//! What the lifecycle tells everyone who watches the sessions.

use vstd::prelude::*;

use crate::dashboard_payload::{DashboardPr, DashboardPrView};
use crate::reactions::ReactionAction;
use crate::text::{clone_opt, opt_text};
use crate::types::{ActivityState, SessionId, SessionStatus};

verus! {

/// A notification for the user interface.
#[derive(Debug, PartialEq, Eq)]
pub struct UiNotification {
    pub id: SessionId,
    pub reaction_key: String,
    pub action: ReactionAction,
    pub message: Option<String>,
    pub priority: Option<String>,
}

impl Clone for UiNotification {
    fn clone(&self) -> (r: Self)
        ensures
            r == *self,
    {
        UiNotification {
            id: self.id.clone(),
            reaction_key: self.reaction_key.clone(),
            action: self.action,
            message: clone_opt(&self.message),
            priority: clone_opt(&self.priority),
        }
    }
}

/// Why a session came to its end.
#[derive(Clone, Copy, Debug, PartialEq, Eq, Structural)]
pub enum TerminationReason {
    /// The runtime is no longer alive.
    RuntimeGone,
    /// The agent said that its process had exited.
    AgentExited,
    /// The session never had a runtime.
    NoHandle,
    /// The session's pull request was merged.
    PrMerged,
}

impl TerminationReason {
    /// The name under which the reason is sent and shown.
    pub open spec fn name(self) -> Seq<char> {
        match self {
            TerminationReason::RuntimeGone => "runtime_gone"@,
            TerminationReason::AgentExited => "agent_exited"@,
            TerminationReason::NoHandle => "no_handle"@,
            TerminationReason::PrMerged => "pr_merged"@,
        }
    }

    /// The name under which the reason is sent and shown.
    pub fn as_str(self) -> (r: &'static str)
        ensures
            r@ == self.name(),
    {
        match self {
            TerminationReason::RuntimeGone => "runtime_gone",
            TerminationReason::AgentExited => "agent_exited",
            TerminationReason::NoHandle => "no_handle",
            TerminationReason::PrMerged => "pr_merged",
        }
    }
}

/// Something that happened to a session.
#[derive(Debug, PartialEq, Eq)]
pub enum OrchestratorEvent {
    /// A session was seen for the first time.
    Spawned { id: SessionId, project_id: String },
    /// A session that is older than the running loop was seen for the first time.
    SessionRestored { id: SessionId, project_id: String, status: SessionStatus },
    /// A session went from one status to another; `from` and `to` always differ.
    StatusChanged { id: SessionId, from: SessionStatus, to: SessionStatus },
    /// The agent does something else than it did; `prev` is empty on the first poll.
    ActivityChanged { id: SessionId, prev: Option<ActivityState>, next: ActivityState },
    /// The session came to its end.
    Terminated { id: SessionId, reason: TerminationReason },
    /// A poll of one session failed; the loop goes on.
    TickError { id: SessionId, message: String },
    /// A reaction was carried out.
    ReactionTriggered { id: SessionId, reaction_key: String, action: ReactionAction },
    /// A reaction ran out of attempts and was handed to a person.
    ReactionEscalated { id: SessionId, reaction_key: String, attempts: u32 },
    /// A notification for the user interface.
    UiNotification { notification: UiNotification },
    /// What is known of a session's pull request changed; without a pull request it is gone.
    PrEnrichmentChanged { id: SessionId, pr: Option<DashboardPr>, attention_level: String },
}

/// The contents of an `OrchestratorEvent`.
#[allow(inconsistent_fields)]
pub enum EventView {
    Spawned { id: Seq<char>, project_id: Seq<char> },
    SessionRestored { id: Seq<char>, project_id: Seq<char>, status: SessionStatus },
    StatusChanged { id: Seq<char>, from: SessionStatus, to: SessionStatus },
    ActivityChanged { id: Seq<char>, prev: Option<ActivityState>, next: ActivityState },
    Terminated { id: Seq<char>, reason: TerminationReason },
    TickError { id: Seq<char>, message: Seq<char> },
    ReactionTriggered { id: Seq<char>, reaction_key: Seq<char>, action: ReactionAction },
    ReactionEscalated { id: Seq<char>, reaction_key: Seq<char>, attempts: u32 },
    UiNotification {
        id: Seq<char>,
        reaction_key: Seq<char>,
        action: ReactionAction,
        message: Option<Seq<char>>,
        priority: Option<Seq<char>>,
    },
    PrEnrichmentChanged {
        id: Seq<char>,
        pr: Option<DashboardPrView>,
        attention_level: Seq<char>,
    },
}

impl View for OrchestratorEvent {
    type V = EventView;

    open spec fn view(&self) -> EventView {
        match self {
            OrchestratorEvent::Spawned { id, project_id } => EventView::Spawned {
                id: id.0@,
                project_id: project_id@,
            },
            OrchestratorEvent::SessionRestored { id, project_id, status } =>
                EventView::SessionRestored { id: id.0@, project_id: project_id@, status: *status },
            OrchestratorEvent::StatusChanged { id, from, to } => EventView::StatusChanged {
                id: id.0@,
                from: *from,
                to: *to,
            },
            OrchestratorEvent::ActivityChanged { id, prev, next } => EventView::ActivityChanged {
                id: id.0@,
                prev: *prev,
                next: *next,
            },
            OrchestratorEvent::Terminated { id, reason } => EventView::Terminated {
                id: id.0@,
                reason: *reason,
            },
            OrchestratorEvent::TickError { id, message } => EventView::TickError {
                id: id.0@,
                message: message@,
            },
            OrchestratorEvent::ReactionTriggered { id, reaction_key, action } =>
                EventView::ReactionTriggered {
                id: id.0@,
                reaction_key: reaction_key@,
                action: *action,
            },
            OrchestratorEvent::ReactionEscalated { id, reaction_key, attempts } =>
                EventView::ReactionEscalated {
                id: id.0@,
                reaction_key: reaction_key@,
                attempts: *attempts,
            },
            OrchestratorEvent::UiNotification { notification } => EventView::UiNotification {
                id: notification.id.0@,
                reaction_key: notification.reaction_key@,
                action: notification.action,
                message: opt_text(notification.message),
                priority: opt_text(notification.priority),
            },
            OrchestratorEvent::PrEnrichmentChanged { id, pr, attention_level } =>
                EventView::PrEnrichmentChanged {
                id: id.0@,
                pr: match pr {
                    Some(p) => Some(p@),
                    None => None,
                },
                attention_level: attention_level@,
            },
        }
    }
}

impl Clone for OrchestratorEvent {
    fn clone(&self) -> (r: Self)
        ensures
            r@ == self@,
    {
        match self {
            OrchestratorEvent::Spawned { id, project_id } => OrchestratorEvent::Spawned {
                id: id.clone(),
                project_id: project_id.clone(),
            },
            OrchestratorEvent::SessionRestored { id, project_id, status } =>
                OrchestratorEvent::SessionRestored {
                id: id.clone(),
                project_id: project_id.clone(),
                status: *status,
            },
            OrchestratorEvent::StatusChanged { id, from, to } =>
                OrchestratorEvent::StatusChanged { id: id.clone(), from: *from, to: *to },
            OrchestratorEvent::ActivityChanged { id, prev, next } =>
                OrchestratorEvent::ActivityChanged { id: id.clone(), prev: *prev, next: *next },
            OrchestratorEvent::Terminated { id, reason } => OrchestratorEvent::Terminated {
                id: id.clone(),
                reason: *reason,
            },
            OrchestratorEvent::TickError { id, message } => OrchestratorEvent::TickError {
                id: id.clone(),
                message: message.clone(),
            },
            OrchestratorEvent::ReactionTriggered { id, reaction_key, action } =>
                OrchestratorEvent::ReactionTriggered {
                id: id.clone(),
                reaction_key: reaction_key.clone(),
                action: *action,
            },
            OrchestratorEvent::ReactionEscalated { id, reaction_key, attempts } =>
                OrchestratorEvent::ReactionEscalated {
                id: id.clone(),
                reaction_key: reaction_key.clone(),
                attempts: *attempts,
            },
            OrchestratorEvent::UiNotification { notification } =>
                OrchestratorEvent::UiNotification { notification: notification.clone() },
            OrchestratorEvent::PrEnrichmentChanged { id, pr, attention_level } =>
                OrchestratorEvent::PrEnrichmentChanged {
                id: id.clone(),
                pr: match pr {
                    Some(p) => Some(p.clone()),
                    None => None,
                },
                attention_level: attention_level.clone(),
            },
        }
    }
}

/// Why a session came to its end is called what it is.
pub proof fn law_reasons_have_names(r: TerminationReason)
    ensures
        match r {
            TerminationReason::RuntimeGone => r.name() == "runtime_gone"@,
            TerminationReason::AgentExited => r.name() == "agent_exited"@,
            TerminationReason::NoHandle => r.name() == "no_handle"@,
            TerminationReason::PrMerged => r.name() == "pr_merged"@,
        },
{
}

} // verus!
