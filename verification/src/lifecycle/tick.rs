//! One poll of one session.

use vstd::prelude::*;

use crate::events::{EventView, OrchestratorEvent, TerminationReason};
use crate::lifecycle::effects::{note, Effect, EffectView, Flow, PollAnswers, Slot, Stage};
use crate::lifecycle::scm_poll::{emit_error, erred, scm_polled};
use crate::lifecycle::stuck::{idle_updated, save, saved, stuck_checked};
use crate::lifecycle::transition::{terminated, transitioned};
use crate::lifecycle::{run_of, LifecycleManager, Run};
use crate::types::{ActivityState, Session, SessionStatus};

verus! {

/// What is left of a merged session is taken down.
pub open spec fn taken_down(r: Run) -> Run {
    let ended = match r.session.runtime_handle {
        Some(handle) => r.then_do(EffectView::DestroyRuntime { handle: handle@ }),
        None => r,
    };
    match r.session.workspace_path {
        Some(path) => if r.manager.workspace {
            ended.then_do(EffectView::DestroyWorkspace { path: path@ })
        } else {
            ended
        },
        None => ended,
    }
}

/// The end of a poll: a merged session is taken down, and one whose status is still
/// `before` may turn out to be stuck.
#[verifier::opaque]
pub open spec fn finished(r: Run, before: SessionStatus, a: PollAnswers) -> Run {
    let merged = r.session.status == SessionStatus::Merged;
    let down = if merged {
        taken_down(r)
    } else {
        r
    };
    if merged && r.manager.auto_terminate {
        terminated(down, TerminationReason::PrMerged, Stage::Killed, a.to_killed)
    } else if r.manager.keys is Some && r.session.status == before {
        stuck_checked(down, a.stuck, a.to_stuck)
    } else {
        down
    }
}

/// The statuses that a session leaves as soon as its agent is at work.
pub open spec fn wakes(status: SessionStatus) -> bool {
    ||| status == SessionStatus::Spawning
    ||| status == SessionStatus::Stuck
    ||| status == SessionStatus::NeedsInput
}

/// The agent is at work, or ready for it.
pub open spec fn at_work(activity: ActivityState) -> bool {
    activity == ActivityState::Active || activity == ActivityState::Ready
}

/// The statuses that follow from the agent's activity and from the pull request.
#[verifier::opaque]
pub open spec fn moved(r: Run, activity: ActivityState, a: PollAnswers) -> Run {
    let before = r.session.status;
    let awake = if wakes(before) && at_work(activity) {
        transitioned(r, SessionStatus::Working, Stage::Working, a.to_working)
    } else {
        r
    };
    let polled = if awake.flow == Flow::Done && r.manager.scm {
        scm_polled(awake, a.scm)
    } else {
        awake
    };
    if polled.flow == Flow::Done {
        finished(polled, before, a)
    } else {
        polled
    }
}

/// What the agent does is written to disk, if it is something else than before.
pub open spec fn activity_kept(r: Run, activity: ActivityState, answer: Option<Result<(), String>>) -> Run {
    let s = r.session;
    if s.activity == Some(activity) {
        r
    } else {
        let kept = saved(
            r.with(Session { activity: Some(activity), ..s }),
            Slot::ActivitySaved,
            answer,
        );
        if kept.flow == Flow::Done {
            kept.then_do(
                EffectView::Emit(
                    EventView::ActivityChanged { id: s.id.0@, prev: s.activity, next: activity },
                ),
            )
        } else {
            kept
        }
    }
}

/// The poll of a session whose agent was seen doing `activity`.
#[verifier::opaque]
pub open spec fn watched(r: Run, activity: ActivityState, a: PollAnswers) -> Run {
    let asked = if activity == ActivityState::WaitingInput && r.session.status
        != SessionStatus::NeedsInput {
        transitioned(r, SessionStatus::NeedsInput, Stage::NeedsInput, a.to_needs_input)
    } else {
        r
    };
    if asked.flow == Flow::Done {
        let kept = activity_kept(asked, activity, a.activity_saved);
        if kept.flow == Flow::Done {
            let timed = idle_updated(kept, activity, a.idle_now);
            if timed.flow == Flow::Done {
                moved(timed, activity, a)
            } else {
                timed
            }
        } else {
            kept
        }
    } else {
        asked
    }
}

/// The poll of a session whose runtime is alive.
#[verifier::opaque]
pub open spec fn live(r: Run, a: PollAnswers) -> Run {
    let asked = r.then_do(EffectView::DetectActivity { session: r.session });
    match a.activity {
        None => asked.stop(Flow::Waiting(Slot::Activity)),
        Some(Err(e)) => erred(asked, "detect_activity: "@ + e@),
        Some(Ok(activity)) => if activity == ActivityState::Exited {
            terminated(asked, TerminationReason::AgentExited, Stage::Killed, a.to_killed)
        } else {
            watched(asked, activity, a)
        },
    }
}

/// One poll of a session.
#[verifier::opaque]
pub open spec fn polled(r: Run, a: PollAnswers) -> Run {
    match r.session.runtime_handle {
        None => terminated(r, TerminationReason::NoHandle, Stage::Killed, a.to_killed),
        Some(handle) => {
            let asked = r.then_do(EffectView::IsAlive { handle: handle@ });
            match a.alive {
                None => asked.stop(Flow::Waiting(Slot::Alive)),
                Some(Err(e)) => erred(asked, "is_alive: "@ + e@),
                Some(Ok(alive)) => if alive {
                    live(asked, a)
                } else {
                    terminated(asked, TerminationReason::RuntimeGone, Stage::Killed, a.to_killed)
                },
            }
        },
    }
}

impl LifecycleManager {
    /// Takes a merged session down, and looks whether the agent is stuck.
    fn finish(
        &mut self,
        session: &mut Session,
        before: SessionStatus,
        answers: &PollAnswers,
        log: &mut Vec<Effect>,
    ) -> (flow: Flow)
        ensures
            run_of(*final(self), *final(session), final(log)@, flow) == finished(
                run_of(*old(self), *old(session), old(log)@, Flow::Done),
                before,
                *answers,
            ),
    {
        proof {
            reveal(finished);
        }
        if session.status == SessionStatus::Merged {
            if let Some(handle) = &session.runtime_handle {
                note(log, Effect::DestroyRuntime { handle: handle.clone() });
            }
            if self.workspace {
                if let Some(path) = &session.workspace_path {
                    note(log, Effect::DestroyWorkspace { path: path.clone() });
                }
            }
            if self.lifecycle_config.auto_terminate_on_merge {
                return self.terminate(
                    session,
                    TerminationReason::PrMerged,
                    Stage::Killed,
                    &answers.to_killed,
                    log,
                );
            }
        }
        if self.reaction_engine.is_some() && session.status == before {
            return self.check_stuck(session, &answers.stuck, &answers.to_stuck, log);
        }
        Flow::Done
    }

    /// Lets the status follow the agent's activity and the pull request.
    fn move_on(
        &mut self,
        session: &mut Session,
        activity: ActivityState,
        answers: &PollAnswers,
        log: &mut Vec<Effect>,
    ) -> (flow: Flow)
        ensures
            run_of(*final(self), *final(session), final(log)@, flow) == moved(
                run_of(*old(self), *old(session), old(log)@, Flow::Done),
                activity,
                *answers,
            ),
    {
        proof {
            reveal(moved);
        }
        let before = session.status;
        if matches!(
            session.status,
            SessionStatus::Spawning | SessionStatus::Stuck | SessionStatus::NeedsInput
        ) && matches!(activity, ActivityState::Active | ActivityState::Ready) {
            let flow = self.transition(
                session,
                SessionStatus::Working,
                Stage::Working,
                &answers.to_working,
                log,
            );
            if flow != Flow::Done {
                return flow;
            }
        }
        if self.scm {
            let flow = self.poll_scm(session, &answers.scm, log);
            if flow != Flow::Done {
                return flow;
            }
        }
        self.finish(session, before, answers, log)
    }

    /// Takes note of what the agent does, and lets the status follow.
    fn watch(
        &mut self,
        session: &mut Session,
        activity: ActivityState,
        answers: &PollAnswers,
        log: &mut Vec<Effect>,
    ) -> (flow: Flow)
        ensures
            run_of(*final(self), *final(session), final(log)@, flow) == watched(
                run_of(*old(self), *old(session), old(log)@, Flow::Done),
                activity,
                *answers,
            ),
    {
        proof {
            reveal(watched);
        }
        if activity == ActivityState::WaitingInput && session.status != SessionStatus::NeedsInput {
            let flow = self.transition(
                session,
                SessionStatus::NeedsInput,
                Stage::NeedsInput,
                &answers.to_needs_input,
                log,
            );
            if flow != Flow::Done {
                return flow;
            }
        }
        let unchanged = match session.activity {
            Some(known) => known == activity,
            None => false,
        };
        if !unchanged {
            let prev = session.activity;
            session.activity = Some(activity);
            let flow = save(session, Slot::ActivitySaved, &answers.activity_saved, log);
            assert(run_of(*self, *session, log@, flow).flow == flow);
            if flow != Flow::Done {
                return flow;
            }
            note(
                log,
                Effect::Emit(
                    OrchestratorEvent::ActivityChanged {
                        id: session.id.clone(),
                        prev,
                        next: activity,
                    },
                ),
            );
        }
        let flow = self.update_idle_since(session, activity, &answers.idle_now, log);
        if flow != Flow::Done {
            return flow;
        }
        self.move_on(session, activity, answers, log)
    }

    /// Polls one session: looks whether its runtime is alive and what its agent does, and
    /// changes its status accordingly. A probe that fails is reported, and the session left
    /// alone.
    pub fn poll_one(
        &mut self,
        session: &mut Session,
        answers: &PollAnswers,
        log: &mut Vec<Effect>,
    ) -> (flow: Flow)
        ensures
            run_of(*final(self), *final(session), final(log)@, flow) == polled(
                run_of(*old(self), *old(session), old(log)@, Flow::Done),
                *answers,
            ),
    {
        proof {
            reveal(polled);
            reveal(live);
        }
        let handle = match &session.runtime_handle {
            Some(handle) => handle.clone(),
            None => {
                return self.terminate(
                    session,
                    TerminationReason::NoHandle,
                    Stage::Killed,
                    &answers.to_killed,
                    log,
                );
            },
        };
        note(log, Effect::IsAlive { handle });
        match &answers.alive {
            None => {
                return Flow::Waiting(Slot::Alive);
            },
            Some(Err(e)) => {
                emit_error(&session.id, "is_alive: ", e.as_str(), log);
                return Flow::Done;
            },
            Some(Ok(alive)) => {
                if !*alive {
                    return self.terminate(
                        session,
                        TerminationReason::RuntimeGone,
                        Stage::Killed,
                        &answers.to_killed,
                        log,
                    );
                }
            },
        }
        note(log, Effect::DetectActivity { session: session.clone() });
        match &answers.activity {
            None => Flow::Waiting(Slot::Activity),
            Some(Err(e)) => {
                emit_error(&session.id, "detect_activity: ", e.as_str(), log);
                Flow::Done
            },
            Some(Ok(activity)) => {
                if activity.is_terminal() {
                    self.terminate(
                        session,
                        TerminationReason::AgentExited,
                        Stage::Killed,
                        &answers.to_killed,
                        log,
                    )
                } else {
                    self.watch(session, *activity, answers, log)
                }
            },
        }
    }
}

} // verus!
