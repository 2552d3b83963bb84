//! Agents that have been idle for too long, and pull requests that cannot be merged.

use vstd::prelude::*;

use crate::lifecycle::effects::{
    note, Effect, EffectView, Flow, ScmAnswers, Slot, Stage, StuckAnswers, TransitionAnswers,
};
use crate::lifecycle::transition::transitioned;
use crate::lifecycle::{elapsed, run_of, LifecycleManager, ManagerView, Run, NANOS_PER_SEC};
use crate::reactions::{
    duration_secs, parse_duration, readable, ReactionConfig, ReactionOutcome,
};
use crate::scm::{ObservationView, ScmObservation};
use crate::types::{ActivityState, Session, SessionStatus};

verus! {

/// The statuses in which a silent agent is unexpected.
pub open spec fn stuck_eligible(status: SessionStatus) -> bool {
    ||| status == SessionStatus::Working
    ||| status == SessionStatus::PrOpen
    ||| status == SessionStatus::CiFailed
    ||| status == SessionStatus::ReviewPending
    ||| status == SessionStatus::ChangesRequested
    ||| status == SessionStatus::Approved
    ||| status == SessionStatus::Mergeable
}

/// Whether an agent that stays idle in this status counts as stuck. It does where work
/// is expected of it; a session that waits for a person, for a merge to be tried again
/// or for a task is idle by design, and one that has ended is not looked at.
pub fn is_stuck_eligible(status: SessionStatus) -> (r: bool)
    ensures
        r == stuck_eligible(status),
{
    match status {
        SessionStatus::Working
        | SessionStatus::PrOpen
        | SessionStatus::CiFailed
        | SessionStatus::ReviewPending
        | SessionStatus::ChangesRequested
        | SessionStatus::Approved
        | SessionStatus::Mergeable => true,
        SessionStatus::Spawning
        | SessionStatus::Idle
        | SessionStatus::NeedsInput
        | SessionStatus::Stuck
        | SessionStatus::MergeFailed
        | SessionStatus::Killed
        | SessionStatus::Terminated
        | SessionStatus::Done
        | SessionStatus::Cleanup
        | SessionStatus::Errored
        | SessionStatus::Merged => false,
    }
}

/// The clock of an agent's idleness after it was seen doing `activity`.
pub open spec fn idle_updated(r: Run, activity: ActivityState, now: Option<u64>) -> Run {
    let id = r.session.id.0@;
    let m = r.manager;
    if activity == ActivityState::Idle || activity == ActivityState::Blocked {
        if m.idle_since.dom().contains(id) {
            r
        } else {
            let asked = r.then_do(EffectView::ReadClock);
            match now {
                None => asked.stop(Flow::Waiting(Slot::IdleNow)),
                Some(t) => asked.knowing(
                    ManagerView { idle_since: m.idle_since.insert(id, t), ..m },
                ),
            }
        }
    } else {
        r.knowing(ManagerView { idle_since: m.idle_since.remove(id), ..m })
    }
}

/// How long the agent may be idle according to the reaction that is configured.
pub open spec fn stuck_threshold(configured: Option<ReactionConfig>) -> Option<Seq<char>> {
    match configured {
        Some(c) => match c.threshold {
            Some(raw) => Some(raw@),
            None => None,
        },
        None => None,
    }
}

/// Whether the agent is stuck: it is idle in a status in which work is expected of it,
/// for longer than the configuration allows.
#[verifier::opaque]
pub open spec fn stuck_decided(r: Run, stage: Stage, a: StuckAnswers) -> (Run, bool) {
    let id = r.session.id.0@;
    let m = r.manager;
    if !stuck_eligible(r.session.status) || !m.idle_since.dom().contains(id) || m.keys is None {
        (r, false)
    } else {
        let asked = r.then_do(
            EffectView::ResolveReaction { session: r.session, key: "agent-stuck"@ },
        );
        match a.reaction {
            None => (asked.stop(Flow::Waiting(Slot::StuckReaction(stage))), false),
            Some(configured) => match stuck_threshold(configured) {
                None => (asked, false),
                Some(raw) => if !readable(raw) {
                    (
                        asked.then_do(
                            EffectView::WarnUnreadable {
                                key: "agent-stuck"@,
                                field: "threshold"@,
                                raw,
                            },
                        ),
                        false,
                    )
                } else {
                    let timed = asked.then_do(EffectView::ReadClock);
                    match a.now {
                        None => (timed.stop(Flow::Waiting(Slot::StuckNow(stage))), false),
                        Some(now) => (
                            timed,
                            elapsed(m.idle_since[id], now) > duration_secs(raw)->0
                                * NANOS_PER_SEC,
                        ),
                    }
                },
            },
        }
    }
}

/// A stuck agent's session becomes `Stuck`.
#[verifier::opaque]
pub open spec fn stuck_checked(r: Run, a: StuckAnswers, t: TransitionAnswers) -> Run {
    let (decided, stuck) = stuck_decided(r, Stage::Stuck, a);
    if decided.flow == Flow::Done && stuck {
        transitioned(decided, SessionStatus::Stuck, Stage::Stuck, t)
    } else {
        decided
    }
}

/// The statuses in which an open pull request can have conflicts.
pub open spec fn pr_track(status: SessionStatus) -> bool {
    ||| status == SessionStatus::PrOpen
    ||| status == SessionStatus::CiFailed
    ||| status == SessionStatus::ReviewPending
    ||| status == SessionStatus::ChangesRequested
    ||| status == SessionStatus::Approved
    ||| status == SessionStatus::Mergeable
}

/// The session is written to disk; an error ends the poll.
pub open spec fn saved(r: Run, slot: Slot, answer: Option<Result<(), String>>) -> Run {
    let saving = r.then_do(EffectView::Save { session: r.session });
    match answer {
        None => saving.stop(Flow::Waiting(slot)),
        Some(Err(_)) => saving.stop(Flow::Failed),
        Some(Ok(_)) => saving,
    }
}

/// The reaction to merge conflicts is armed again.
pub open spec fn conflicts_forgotten(r: Run) -> Run {
    r.then_do(EffectView::ClearTracker { id: r.session.id.0@, key: "merge-conflicts"@ })
}

/// What is done about conflicts of the pull request.
#[verifier::opaque]
pub open spec fn conflicts_checked(
    r: Run,
    observation: Option<ObservationView>,
    dispatched: Option<Result<Option<ReactionOutcome>, String>>,
    save: Option<Result<(), String>>,
) -> Run {
    let s = r.session;
    if r.manager.keys is None {
        r
    } else if s.status.terminal() {
        let cleared = conflicts_forgotten(r);
        if s.last_merge_conflict_dispatched is Some {
            saved(
                cleared.with(Session { last_merge_conflict_dispatched: None, ..s }),
                Slot::ConflictSaved,
                save,
            )
        } else {
            cleared
        }
    } else if observation is None || !pr_track(s.status) {
        r
    } else if !observation->0.readiness.no_conflicts {
        if s.last_merge_conflict_dispatched == Some(true) {
            r
        } else {
            let asked = r.then_do(EffectView::Dispatch { session: s, key: "merge-conflicts"@ });
            match dispatched {
                None => asked.stop(Flow::Waiting(Slot::ConflictDispatched)),
                Some(Err(_)) => asked.stop(Flow::Failed),
                Some(Ok(None)) => asked,
                Some(Ok(Some(_))) => saved(
                    asked.with(Session { last_merge_conflict_dispatched: Some(true), ..s }),
                    Slot::ConflictSaved,
                    save,
                ),
            }
        }
    } else if s.last_merge_conflict_dispatched == Some(true) {
        saved(
            conflicts_forgotten(r).with(Session { last_merge_conflict_dispatched: None, ..s }),
            Slot::ConflictSaved,
            save,
        )
    } else {
        r
    }
}

/// Writes a session to disk; an error ends the poll.
pub fn save(
    session: &Session,
    slot: Slot,
    answer: &Option<Result<(), String>>,
    log: &mut Vec<Effect>,
) -> (flow: Flow)
    ensures
        forall|m: LifecycleManager| #[trigger]
            run_of(m, *session, final(log)@, flow) == saved(
                run_of(m, *session, old(log)@, Flow::Done),
                slot,
                *answer,
            ),
{
    note(log, Effect::Save { session: session.clone() });
    match answer {
        None => Flow::Waiting(slot),
        Some(Err(_)) => Flow::Failed,
        Some(Ok(_)) => Flow::Done,
    }
}

impl LifecycleManager {
    /// Keeps the clock of an agent's idleness. It starts when the agent is first seen idle
    /// or blocked, runs on while it stays so, and is taken away as soon as it does
    /// anything else.
    pub fn update_idle_since(
        &mut self,
        session: &Session,
        activity: ActivityState,
        now: &Option<u64>,
        log: &mut Vec<Effect>,
    ) -> (flow: Flow)
        ensures
            run_of(*final(self), *session, final(log)@, flow) == idle_updated(
                run_of(*old(self), *session, old(log)@, Flow::Done),
                activity,
                *now,
            ),
    {
        match activity {
            ActivityState::Idle | ActivityState::Blocked => {
                if !self.idle_since.contains_key(session.id.0.as_str()) {
                    note(log, Effect::ReadClock);
                    match now {
                        None => {
                            return Flow::Waiting(Slot::IdleNow);
                        },
                        Some(t) => {
                            self.idle_since.insert(session.id.0.clone(), *t);
                        },
                    }
                }
            },
            _ => {
                self.idle_since.remove(session.id.0.as_str());
            },
        }
        Flow::Done
    }

    /// Whether the agent is stuck right now. Without a reaction for it, without a readable
    /// threshold, and on the very nanosecond of the threshold, it is not.
    pub fn should_mark_stuck(
        &self,
        session: &Session,
        stage: Stage,
        answers: &StuckAnswers,
        log: &mut Vec<Effect>,
    ) -> (r: (bool, Flow))
        ensures
            (run_of(*self, *session, final(log)@, r.1), r.0) == stuck_decided(
                run_of(*self, *session, old(log)@, Flow::Done),
                stage,
                *answers,
            ),
    {
        proof {
            reveal(stuck_decided);
        }
        if !is_stuck_eligible(session.status) {
            return (false, Flow::Done);
        }
        let idle_started: u64 = match self.idle_since.get(session.id.0.as_str()) {
            Some(t) => *t,
            None => {
                return (false, Flow::Done);
            },
        };
        if self.reaction_engine.is_none() {
            return (false, Flow::Done);
        }
        note(
            log,
            Effect::ResolveReaction { session: session.clone(), key: "agent-stuck".to_string() },
        );
        let raw = match &answers.reaction {
            None => {
                return (false, Flow::Waiting(Slot::StuckReaction(stage)));
            },
            Some(Some(configured)) => match &configured.threshold {
                Some(raw) => raw,
                None => {
                    return (false, Flow::Done);
                },
            },
            Some(None) => {
                return (false, Flow::Done);
            },
        };
        let threshold: u64 = match parse_duration(raw.as_str()) {
            Some(secs) => secs,
            None => {
                note(
                    log,
                    Effect::WarnUnreadable {
                        key: "agent-stuck".to_string(),
                        field: "threshold".to_string(),
                        raw: raw.clone(),
                    },
                );
                return (false, Flow::Done);
            },
        };
        note(log, Effect::ReadClock);
        match &answers.now {
            None => (false, Flow::Waiting(Slot::StuckNow(stage))),
            Some(now) => {
                let idle: u64 = if *now >= idle_started {
                    *now - idle_started
                } else {
                    0
                };
                ((idle as u128) > (threshold as u128) * (NANOS_PER_SEC as u128), Flow::Done)
            },
        }
    }

    /// Makes a session `Stuck` where its agent is.
    pub fn check_stuck(
        &self,
        session: &mut Session,
        answers: &StuckAnswers,
        transition: &TransitionAnswers,
        log: &mut Vec<Effect>,
    ) -> (flow: Flow)
        ensures
            run_of(*self, *final(session), final(log)@, flow) == stuck_checked(
                run_of(*self, *old(session), old(log)@, Flow::Done),
                *answers,
                *transition,
            ),
    {
        proof {
            reveal(stuck_checked);
        }
        let (stuck, flow) = self.should_mark_stuck(session, Stage::Stuck, answers, log);
        if flow == Flow::Done && stuck {
            self.transition(session, SessionStatus::Stuck, Stage::Stuck, transition, log)
        } else {
            flow
        }
    }

    /// Passes merge conflicts on, once for each time that they come up. A conflict does not
    /// change the status of a session; that it was passed on is remembered in the session
    /// until it is resolved or the session ends.
    pub fn check_merge_conflicts(
        &self,
        session: &mut Session,
        observation: Option<&ScmObservation>,
        answers: &ScmAnswers,
        log: &mut Vec<Effect>,
    ) -> (flow: Flow)
        ensures
            run_of(*self, *final(session), final(log)@, flow) == conflicts_checked(
                run_of(*self, *old(session), old(log)@, Flow::Done),
                match observation {
                    Some(o) => Some(o@),
                    None => None,
                },
                answers.conflict_dispatched,
                answers.conflict_saved,
            ),
    {
        proof {
            reveal(conflicts_checked);
        }
        if self.reaction_engine.is_none() {
            return Flow::Done;
        }
        if session.status.is_terminal() {
            note(
                log,
                Effect::ClearTracker {
                    id: session.id.clone(),
                    key: "merge-conflicts".to_string(),
                },
            );
            if session.last_merge_conflict_dispatched.is_some() {
                session.last_merge_conflict_dispatched = None;
                return save(session, Slot::ConflictSaved, &answers.conflict_saved, log);
            }
            return Flow::Done;
        }
        let observation = match observation {
            Some(o) => o,
            None => {
                return Flow::Done;
            },
        };
        let eligible = matches!(
            session.status,
            SessionStatus::PrOpen
                | SessionStatus::CiFailed
                | SessionStatus::ReviewPending
                | SessionStatus::ChangesRequested
                | SessionStatus::Approved
                | SessionStatus::Mergeable
        );
        if !eligible {
            return Flow::Done;
        }
        let has_conflicts = !observation.readiness.no_conflicts;
        let already_dispatched = matches!(session.last_merge_conflict_dispatched, Some(true));
        if has_conflicts {
            if already_dispatched {
                return Flow::Done;
            }
            note(
                log,
                Effect::Dispatch { session: session.clone(), key: "merge-conflicts".to_string() },
            );
            match &answers.conflict_dispatched {
                None => Flow::Waiting(Slot::ConflictDispatched),
                Some(Err(_)) => Flow::Failed,
                Some(Ok(None)) => Flow::Done,
                Some(Ok(Some(_))) => {
                    session.last_merge_conflict_dispatched = Some(true);
                    save(session, Slot::ConflictSaved, &answers.conflict_saved, log)
                },
            }
        } else if already_dispatched {
            note(
                log,
                Effect::ClearTracker {
                    id: session.id.clone(),
                    key: "merge-conflicts".to_string(),
                },
            );
            session.last_merge_conflict_dispatched = None;
            save(session, Slot::ConflictSaved, &answers.conflict_saved, log)
        } else {
            Flow::Done
        }
    }
}

} // verus!
