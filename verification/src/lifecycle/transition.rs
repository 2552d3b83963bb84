//! Changing the status of a session, and ending it.

use vstd::prelude::*;
use vstd::string::*;

use crate::events::{EventView, OrchestratorEvent, TerminationReason};
use crate::lifecycle::effects::{note, Effect, EffectView, Flow, Slot, Stage, TransitionAnswers};
use crate::lifecycle::{reaction_key, run_of, LifecycleManager, ManagerView, Run};
use crate::reactions::{ReactionAction, ReactionConfig, ReactionOutcome};
use crate::text::{first_chars, head, opt_text, same_text};
use crate::types::{CostEstimate, Session, SessionStatus};

verus! {

/// A merge that failed, and that nobody has been told of, is tried again later.
pub open spec fn parks(
    to: SessionStatus,
    key: Seq<char>,
    configured: Option<ReactionConfig>,
    outcome: ReactionOutcome,
) -> bool {
    &&& to == SessionStatus::Mergeable
    &&& key == "approved-and-green"@
    &&& configured matches Some(c) && c.action == ReactionAction::AutoMerge
    &&& !outcome.success
    &&& !outcome.escalated
}

/// Whether a session that was to become mergeable is parked as `MergeFailed`: it is
/// where the reaction is configured to merge, and failed without being handed to a
/// person. What was actually done does not count, only what is configured.
pub fn should_park_in_merge_failed(
    to: SessionStatus,
    reaction_key: &str,
    configured: Option<&ReactionConfig>,
    outcome: &ReactionOutcome,
) -> (r: bool)
    ensures
        r == parks(
            to,
            reaction_key@,
            match configured {
                Some(c) => Some(*c),
                None => None,
            },
            *outcome,
        ),
{
    to == SessionStatus::Mergeable && same_text(reaction_key, "approved-and-green")
        && match configured {
        Some(c) => c.action == ReactionAction::AutoMerge,
        None => false,
    } && !outcome.success && !outcome.escalated
}

/// The reaction whose attempts are forgotten when a session goes from `from` to `to`.
pub open spec fn forgotten_key(
    keys: Seq<(SessionStatus, Seq<char>)>,
    from: SessionStatus,
    to: SessionStatus,
) -> Option<Seq<char>> {
    if (from == SessionStatus::Mergeable && to == SessionStatus::MergeFailed) || (from
        == SessionStatus::MergeFailed && to == SessionStatus::Mergeable) {
        None
    } else if from == SessionStatus::MergeFailed {
        Some("approved-and-green"@)
    } else if from == SessionStatus::CiFailed {
        Some("ci-failed"@)
    } else {
        reaction_key(keys, from)
    }
}

/// A session that leaves a status gets a fresh budget of attempts for the reaction of
/// that status. While it goes back and forth between `Mergeable` and `MergeFailed`
/// its attempts add up.
pub fn clear_tracker_on_transition(
    keys: &crate::lifecycle::ReactionKeys,
    from: SessionStatus,
    to: SessionStatus,
) -> (r: Option<String>)
    ensures
        opt_text(r) == forgotten_key(crate::lifecycle::key_views(keys.table@), from, to),
{
    let parking_loop_edge = matches!(
        (from, to),
        (SessionStatus::Mergeable, SessionStatus::MergeFailed)
            | (SessionStatus::MergeFailed, SessionStatus::Mergeable)
    );
    if parking_loop_edge {
        return None;
    }
    if from == SessionStatus::MergeFailed {
        return Some("approved-and-green".to_string());
    }
    if from == SessionStatus::CiFailed {
        return Some("ci-failed".to_string());
    }
    keys.status_to_reaction_key(from)
}

/// The statuses of which the orchestrator that spawned a session is told.
pub open spec fn notifiable(status: SessionStatus) -> bool {
    ||| status == SessionStatus::PrOpen
    ||| status == SessionStatus::ReviewPending
    ||| status == SessionStatus::CiFailed
    ||| status == SessionStatus::ChangesRequested
    ||| status == SessionStatus::Approved
    ||| status == SessionStatus::Merged
    ||| status == SessionStatus::MergeFailed
    ||| status == SessionStatus::Killed
    ||| status == SessionStatus::Terminated
    ||| status == SessionStatus::Errored
    ||| status == SessionStatus::NeedsInput
    ||| status == SessionStatus::Stuck
}

/// Whether the orchestrator that spawned a session is told of this status.
pub fn is_orchestrator_notifiable(status: SessionStatus) -> (r: bool)
    ensures
        r == notifiable(status),
{
    matches!(
        status,
        SessionStatus::PrOpen
            | SessionStatus::ReviewPending
            | SessionStatus::CiFailed
            | SessionStatus::ChangesRequested
            | SessionStatus::Approved
            | SessionStatus::Merged
            | SessionStatus::MergeFailed
            | SessionStatus::Killed
            | SessionStatus::Terminated
            | SessionStatus::Errored
            | SessionStatus::NeedsInput
            | SessionStatus::Stuck
    )
}

/// How many characters of a session's id are shown.
pub const SHORT_ID: usize = 8;

/// Where to look at a session's work: its pull request, or else its issue.
pub open spec fn work_url(s: Session) -> Seq<char> {
    match (s.claimed_pr_url, s.issue_url) {
        (Some(u), _) => u@,
        (None, Some(u)) => u@,
        (None, None) => "none"@,
    }
}

/// What the orchestrator reads when one of its sessions changes its status.
pub open spec fn notification(worker: Session, to: SessionStatus) -> Seq<char> {
    "[ao-rs] worker "@ + head(worker.id.0@, SHORT_ID as nat) + " is now "@ + to.name() + " — branch: "@
        + worker.branch@ + ", url: "@ + work_url(worker)
}

/// What the orchestrator reads when one of its sessions changes its status.
pub fn format_orchestrator_notification(worker: &Session, to: SessionStatus) -> (r: String)
    ensures
        r@ == notification(*worker, to),
{
    let mut out: String = "[ao-rs] worker ".to_string();
    out.append(first_chars(worker.id.0.as_str(), SHORT_ID));
    out.append(" is now ");
    out.append(to.as_str());
    out.append(" — branch: ");
    out.append(worker.branch.as_str());
    out.append(", url: ");
    match (&worker.claimed_pr_url, &worker.issue_url) {
        (Some(u), _) => out.append(u.as_str()),
        (None, Some(u)) => out.append(u.as_str()),
        (None, None) => out.append("none"),
    }
    out
}

/// The cost that the agent reported is kept, and written to the ledger.
pub open spec fn costed(r: Run, cost: Result<Option<CostEstimate>, String>) -> Run {
    match cost {
        Ok(Some(c)) => r.then_do(EffectView::RecordCost { session: r.session, cost: c }).with(
            Session { cost: Some(c), ..r.session },
        ),
        _ => r,
    }
}

/// The parent of the session is told, where it has one that can be reached.
pub open spec fn notified(r: Run, to: SessionStatus, stage: Stage, a: TransitionAnswers) -> Run {
    match r.session.spawned_by {
        None => r,
        Some(parent) => {
            let asked = r.then_do(EffectView::FindSession { prefix: parent.0@ });
            match a.parent {
                None => asked.stop(Flow::Waiting(Slot::Parent(stage))),
                Some(Some(Some(handle))) => asked.then_do(
                    EffectView::SendMessage {
                        handle: handle@,
                        message: notification(r.session, to),
                    },
                ),
                Some(_) => asked,
            }
        },
    }
}

/// The attempts at the reaction of the status that is left are forgotten.
pub open spec fn tracker_cleared(r: Run, from: SessionStatus, to: SessionStatus) -> Run {
    match r.manager.keys {
        None => r,
        Some(keys) => match forgotten_key(keys, from, to) {
            None => r,
            Some(key) => r.then_do(EffectView::ClearTracker { id: r.session.id.0@, key }),
        },
    }
}

/// The end of a change of status from `from`: what is persisted is the status that
/// the session has by now, unless that is the one that it came from.
#[verifier::opaque]
pub open spec fn settled(r: Run, from: SessionStatus, stage: Stage, a: TransitionAnswers) -> Run {
    let to = r.session.status;
    if to == from {
        r
    } else {
        let saving = r.then_do(EffectView::Save { session: r.session });
        match a.saved {
            None => saving.stop(Flow::Waiting(Slot::Saved(stage))),
            Some(Err(_)) => saving.stop(Flow::Failed),
            Some(Ok(_)) => {
                let told = saving.then_do(
                    EffectView::Emit(EventView::StatusChanged { id: r.session.id.0@, from, to }),
                );
                let done = if notifiable(to) {
                    notified(told, to, stage, a)
                } else {
                    told
                };
                if done.flow == Flow::Done {
                    tracker_cleared(done, from, to)
                } else {
                    done
                }
            },
        }
    }
}

/// The reaction of a status that may be one to merge: only its configuration tells.
pub open spec fn may_merge(to: SessionStatus, key: Seq<char>) -> bool {
    to == SessionStatus::Mergeable && key == "approved-and-green"@
}

/// The reaction is one to merge.
pub open spec fn merges(configured: Option<ReactionConfig>) -> bool {
    configured matches Some(c) && c.action == ReactionAction::AutoMerge
}

/// The change of status is settled, and then its reaction is carried out.
#[verifier::opaque]
pub open spec fn settled_and_reacted(
    r: Run,
    key: Seq<char>,
    from: SessionStatus,
    stage: Stage,
    a: TransitionAnswers,
) -> Run {
    let done = settled(r, from, stage, a);
    if done.flow == Flow::Done {
        let asked = done.then_do(EffectView::Dispatch { session: r.session, key });
        if a.dispatched is None {
            asked.stop(Flow::Waiting(Slot::Dispatched(stage)))
        } else {
            asked
        }
    } else {
        done
    }
}

/// A merge is tried, and then the change of status is settled. Where the merge fails, the
/// session is parked.
#[verifier::opaque]
pub open spec fn merged_and_settled(
    r: Run,
    key: Seq<char>,
    configured: Option<ReactionConfig>,
    from: SessionStatus,
    stage: Stage,
    a: TransitionAnswers,
) -> Run {
    let asked = r.then_do(EffectView::Dispatch { session: r.session, key });
    match a.dispatched {
        None => asked.stop(Flow::Waiting(Slot::Dispatched(stage))),
        Some(Ok(Some(outcome))) => if parks(r.session.status, key, configured, outcome) {
            settled(
                asked.with(Session { status: SessionStatus::MergeFailed, ..r.session }),
                from,
                stage,
                a,
            )
        } else {
            settled(asked, from, stage, a)
        },
        Some(_) => settled(asked, from, stage, a),
    }
}

/// The reaction of the new status is carried out. The change of status is settled first. Only a
/// merge comes before that.
#[verifier::opaque]
pub open spec fn reacted(r: Run, from: SessionStatus, stage: Stage, a: TransitionAnswers) -> Run {
    let to = r.session.status;
    let key = match r.manager.keys {
        Some(keys) => reaction_key(keys, to),
        None => None,
    };
    match key {
        None => settled(r, from, stage, a),
        Some(key) => if may_merge(to, key) {
            let resolving = r.then_do(EffectView::ResolveReaction { session: r.session, key });
            match a.reaction {
                None => resolving.stop(Flow::Waiting(Slot::Reaction(stage))),
                Some(configured) => if merges(configured) {
                    merged_and_settled(resolving, key, configured, from, stage, a)
                } else {
                    settled_and_reacted(resolving, key, from, stage, a)
                },
            }
        } else {
            settled_and_reacted(r, key, from, stage, a)
        },
    }
}

/// A change of status to `to`.
#[verifier::opaque]
pub open spec fn transitioned(r: Run, to: SessionStatus, stage: Stage, a: TransitionAnswers) -> Run {
    let from = r.session.status;
    if from == to {
        r
    } else {
        let entered = r.with(Session { status: to, ..r.session });
        let asked = entered.then_do(EffectView::EstimateCost { session: entered.session });
        match a.cost {
            None => asked.stop(Flow::Waiting(Slot::Cost(stage))),
            Some(cost) => reacted(costed(asked, cost), from, stage, a),
        }
    }
}

/// The status in which a session ends.
pub open spec fn end_status(reason: TerminationReason) -> SessionStatus {
    SessionStatus::Killed
}

/// Everything that is remembered of a session is forgotten, and its end announced.
pub open spec fn buried(r: Run, reason: TerminationReason) -> Run {
    let id = r.session.id.0@;
    let cleared = if r.manager.keys is Some {
        r.then_do(EffectView::ClearAllTrackers { id })
    } else {
        r
    };
    cleared.knowing(
        ManagerView {
            idle_since: r.manager.idle_since.remove(id),
            probed: r.manager.probed.remove(id),
            commented: r.manager.commented.remove(id),
            ..r.manager
        },
    ).then_do(EffectView::Emit(EventView::Terminated { id, reason }))
}

/// The end of a session.
#[verifier::opaque]
pub open spec fn terminated(r: Run, reason: TerminationReason, stage: Stage, a: TransitionAnswers) -> Run {
    let ended = transitioned(r, end_status(reason), stage, a);
    if ended.flow == Flow::Done {
        buried(ended, reason)
    } else {
        ended
    }
}

impl LifecycleManager {
    /// Tells the orchestrator that spawned `worker` of its new status. It is silent where
    /// there is none, where it is gone, and where it has no runtime.
    pub fn notify_orchestrator(
        &self,
        worker: &Session,
        to: SessionStatus,
        stage: Stage,
        answers: &TransitionAnswers,
        log: &mut Vec<Effect>,
    ) -> (flow: Flow)
        ensures
            run_of(*self, *worker, final(log)@, flow) == notified(
                run_of(*self, *worker, old(log)@, Flow::Done),
                to,
                stage,
                *answers,
            ),
    {
        match &worker.spawned_by {
            None => Flow::Done,
            Some(parent) => {
                note(log, Effect::FindSession { prefix: parent.0.clone() });
                match &answers.parent {
                    None => Flow::Waiting(Slot::Parent(stage)),
                    Some(Some(Some(handle))) => {
                        note(
                            log,
                            Effect::SendMessage {
                                handle: handle.clone(),
                                message: format_orchestrator_notification(worker, to),
                            },
                        );
                        Flow::Done
                    },
                    Some(_) => Flow::Done,
                }
            },
        }
    }

    /// Persists a change of status from `from`, announces it, and forgets the attempts at
    /// the reaction of the status that is left.
    fn settle(
        &self,
        session: &Session,
        from: SessionStatus,
        stage: Stage,
        answers: &TransitionAnswers,
        log: &mut Vec<Effect>,
    ) -> (flow: Flow)
        ensures
            run_of(*self, *session, final(log)@, flow) == settled(
                run_of(*self, *session, old(log)@, Flow::Done),
                from,
                stage,
                *answers,
            ),
    {
        proof {
            reveal(settled);
        }
        let to = session.status;
        if to == from {
            return Flow::Done;
        }
        note(log, Effect::Save { session: session.clone() });
        match &answers.saved {
            None => {
                return Flow::Waiting(Slot::Saved(stage));
            },
            Some(Err(_)) => {
                return Flow::Failed;
            },
            Some(Ok(_)) => {},
        }
        note(
            log,
            Effect::Emit(OrchestratorEvent::StatusChanged { id: session.id.clone(), from, to }),
        );
        if is_orchestrator_notifiable(to) {
            let flow = self.notify_orchestrator(session, to, stage, answers, log);
            if flow != Flow::Done {
                return flow;
            }
        }
        if let Some(keys) = &self.reaction_engine {
            if let Some(key) = clear_tracker_on_transition(keys, from, to) {
                note(log, Effect::ClearTracker { id: session.id.clone(), key });
            }
        }
        Flow::Done
    }

    /// Settles a change of status, and then carries out its reaction.
    fn settle_and_react(
        &self,
        session: &mut Session,
        key: String,
        from: SessionStatus,
        stage: Stage,
        answers: &TransitionAnswers,
        log: &mut Vec<Effect>,
    ) -> (flow: Flow)
        ensures
            run_of(*self, *final(session), final(log)@, flow) == settled_and_reacted(
                run_of(*self, *old(session), old(log)@, Flow::Done),
                key@,
                from,
                stage,
                *answers,
            ),
    {
        proof {
            reveal(settled_and_reacted);
        }
        let flow = self.settle(session, from, stage, answers, log);
        if flow != Flow::Done {
            return flow;
        }
        note(log, Effect::Dispatch { session: session.clone(), key });
        if answers.dispatched.is_none() {
            return Flow::Waiting(Slot::Dispatched(stage));
        }
        Flow::Done
    }

    /// Tries to merge, and then settles the change of status.
    fn merge_and_settle(
        &self,
        session: &mut Session,
        key: String,
        configured: &Option<ReactionConfig>,
        from: SessionStatus,
        stage: Stage,
        answers: &TransitionAnswers,
        log: &mut Vec<Effect>,
    ) -> (flow: Flow)
        ensures
            run_of(*self, *final(session), final(log)@, flow) == merged_and_settled(
                run_of(*self, *old(session), old(log)@, Flow::Done),
                key@,
                *configured,
                from,
                stage,
                *answers,
            ),
    {
        proof {
            reveal(merged_and_settled);
        }
        note(log, Effect::Dispatch { session: session.clone(), key: key.clone() });
        match &answers.dispatched {
            None => {
                return Flow::Waiting(Slot::Dispatched(stage));
            },
            Some(Ok(Some(outcome))) => {
                if should_park_in_merge_failed(
                    session.status,
                    key.as_str(),
                    configured.as_ref(),
                    outcome,
                ) {
                    session.status = SessionStatus::MergeFailed;
                }
            },
            Some(_) => {},
        }
        self.settle(session, from, stage, answers, log)
    }

    /// Carries out the reaction of the status that the session has just entered.
    fn react(
        &self,
        session: &mut Session,
        from: SessionStatus,
        stage: Stage,
        answers: &TransitionAnswers,
        log: &mut Vec<Effect>,
    ) -> (flow: Flow)
        ensures
            run_of(*self, *final(session), final(log)@, flow) == reacted(
                run_of(*self, *old(session), old(log)@, Flow::Done),
                from,
                stage,
                *answers,
            ),
    {
        proof {
            reveal(reacted);
        }
        let to = session.status;
        let key = match &self.reaction_engine {
            Some(keys) => keys.status_to_reaction_key(to),
            None => None,
        };
        let key = match key {
            Some(key) => key,
            None => {
                return self.settle(session, from, stage, answers, log);
            },
        };
        if to == SessionStatus::Mergeable && same_text(key.as_str(), "approved-and-green") {
            note(log, Effect::ResolveReaction { session: session.clone(), key: key.clone() });
            match &answers.reaction {
                None => {
                    return Flow::Waiting(Slot::Reaction(stage));
                },
                Some(configured) => {
                    let merges = match configured {
                        Some(c) => c.action == ReactionAction::AutoMerge,
                        None => false,
                    };
                    if merges {
                        return self.merge_and_settle(
                            session,
                            key,
                            configured,
                            from,
                            stage,
                            answers,
                            log,
                        );
                    }
                },
            }
        }
        self.settle_and_react(session, key, from, stage, answers, log)
    }

    /// Changes the status of a session: asks for its cost, persists the session, announces the
    /// change, and then carries out the reaction of the new status. Only a merge is tried
    /// before that, so that one that fails at once shows as one change, to `MergeFailed`.
    pub fn transition(
        &self,
        session: &mut Session,
        to: SessionStatus,
        stage: Stage,
        answers: &TransitionAnswers,
        log: &mut Vec<Effect>,
    ) -> (flow: Flow)
        ensures
            run_of(*self, *final(session), final(log)@, flow) == transitioned(
                run_of(*self, *old(session), old(log)@, Flow::Done),
                to,
                stage,
                *answers,
            ),
    {
        proof {
            reveal(transitioned);
        }
        let from = session.status;
        if from == to {
            return Flow::Done;
        }
        session.status = to;
        note(log, Effect::EstimateCost { session: session.clone() });
        match &answers.cost {
            None => {
                return Flow::Waiting(Slot::Cost(stage));
            },
            Some(Ok(Some(cost))) => {
                note(log, Effect::RecordCost { session: session.clone(), cost: *cost });
                session.cost = Some(*cost);
            },
            Some(_) => {},
        }
        self.react(session, from, stage, answers, log)
    }

    /// Ends a session, and forgets what is remembered of it.
    pub fn terminate(
        &mut self,
        session: &mut Session,
        reason: TerminationReason,
        stage: Stage,
        answers: &TransitionAnswers,
        log: &mut Vec<Effect>,
    ) -> (flow: Flow)
        ensures
            run_of(*final(self), *final(session), final(log)@, flow) == terminated(
                run_of(*old(self), *old(session), old(log)@, Flow::Done),
                reason,
                stage,
                *answers,
            ),
    {
        proof {
            reveal(terminated);
        }
        let end = match reason {
            TerminationReason::RuntimeGone
            | TerminationReason::AgentExited
            | TerminationReason::NoHandle
            | TerminationReason::PrMerged => SessionStatus::Killed,
        };
        let flow = self.transition(session, end, stage, answers, log);
        if flow != Flow::Done {
            return flow;
        }
        if self.reaction_engine.is_some() {
            note(log, Effect::ClearAllTrackers { id: session.id.clone() });
        }
        self.idle_since.remove(session.id.0.as_str());
        self.last_review_backlog_check.remove(session.id.0.as_str());
        self.last_comments_check.remove(session.id.0.as_str());
        note(log, Effect::Emit(OrchestratorEvent::Terminated { id: session.id.clone(), reason }));
        Flow::Done
    }
}

} // verus!
