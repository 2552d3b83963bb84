//! What follows from the state of a session's pull request.

use vstd::prelude::*;
use vstd::string::*;

use crate::events::{EventView, OrchestratorEvent};
use crate::lifecycle::effects::{
    note, opt_observation, views, Effect, EffectView, Flow, PrProbes, ScmAnswers, Slot, Stage,
};
use crate::lifecycle::fingerprint::{
    automated_rows, comment_rows, fingerprint, fingerprint_automated_comments,
    fingerprint_comments,
};
use crate::lifecycle::messages::{
    any_failed, automated_message, checks_message, comments_message,
    format_automated_comments_message, format_comments_message, format_failed_checks,
};
use crate::lifecycle::stuck::{conflicts_checked, save, saved, stuck_decided};
use crate::lifecycle::transition::transitioned;
use crate::lifecycle::{
    elapsed, run_of, LifecycleManager, ManagerView, Run, REVIEW_BACKLOG_THROTTLE,
};
use crate::reactions::ReactionOutcome;
use crate::scm::{
    check_views, AutomatedComment, ObservationView, PullRequest, ReviewComment, ScmObservation,
};
use crate::text::{decimal, decimal_text, join, joined, texts};
use crate::types::{Session, SessionId, SessionStatus};

verus! {

/// The text of an error, if there is one.
pub open spec fn failure<T>(slot: Seq<char>, answer: Result<T, String>) -> Seq<Seq<char>> {
    match answer {
        Ok(_) => Seq::empty(),
        Err(e) => seq![slot + ": "@ + e@],
    }
}

/// What each probe that failed has to say.
pub open spec fn failures(p: PrProbes) -> Seq<Seq<char>> {
    failure("pr_state"@, p.state) + failure("ci_status"@, p.ci) + failure(
        "review_decision"@,
        p.review,
    ) + failure("mergeability"@, p.readiness)
}

/// All four probes succeeded.
pub open spec fn all_probed(p: PrProbes) -> bool {
    p.state is Ok && p.ci is Ok && p.review is Ok && p.readiness is Ok
}

/// What all four probes observed.
pub open spec fn observed(p: PrProbes) -> ObservationView {
    ObservationView {
        state: p.state->Ok_0,
        ci: p.ci->Ok_0,
        review: p.review->Ok_0,
        readiness: p.readiness->Ok_0@,
    }
}

/// Adds what a probe that failed has to say.
fn push_failure<T>(parts: &mut Vec<String>, slot: &str, answer: &Result<T, String>)
    ensures
        texts(final(parts)@) == texts(old(parts)@) + failure(slot@, *answer),
{
    let ghost had = parts@;
    if let Err(e) = answer {
        let mut line: String = slot.to_string();
        line.append(": ");
        line.append(e.as_str());
        parts.push(line);
    }
    assert(texts(parts@) =~= texts(had) + failure(slot@, *answer));
}

/// Joins four probes into one observation. It is all or nothing: where a probe failed, the
/// errors of all that did come back instead.
pub fn assemble_observation(probes: &PrProbes) -> (r: Result<ScmObservation, String>)
    ensures
        match r {
            Ok(o) => all_probed(*probes) && o@ == observed(*probes),
            Err(e) => !all_probed(*probes) && e@ == joined(failures(*probes), "; "@),
        },
{
    match (&probes.state, &probes.ci, &probes.review, &probes.readiness) {
        (Ok(state), Ok(ci), Ok(review), Ok(readiness)) => Ok(
            ScmObservation { state: *state, ci: *ci, review: *review, readiness: readiness.clone() },
        ),
        _ => {
            let mut parts: Vec<String> = Vec::new();
            push_failure(&mut parts, "pr_state", &probes.state);
            push_failure(&mut parts, "ci_status", &probes.ci);
            push_failure(&mut parts, "review_decision", &probes.review);
            push_failure(&mut parts, "mergeability", &probes.readiness);
            assert(texts(parts@) =~= failures(*probes));
            Err(join(&parts, "; "))
        },
    }
}

/// The statuses of a session whose pull request is under review.
pub open spec fn review_stable(status: SessionStatus) -> bool {
    ||| status == SessionStatus::ChangesRequested
    ||| status == SessionStatus::ReviewPending
    ||| status == SessionStatus::Approved
}

/// Whether the session's pull request is under review.
pub fn is_review_stable(status: SessionStatus) -> (r: bool)
    ensures
        r == review_stable(status),
{
    matches!(
        status,
        SessionStatus::ChangesRequested | SessionStatus::ReviewPending | SessionStatus::Approved
    )
}

/// By what a pull request is found in a batch.
pub open spec fn pr_key(pr: PullRequest) -> Seq<char> {
    pr.owner@ + "/"@ + pr.repo@ + "#"@ + decimal(pr.number as nat)
}

/// By what a pull request is found in a batch: `owner/repo#number`.
pub fn enrichment_key(pr: &PullRequest) -> (r: String)
    ensures
        r@ == pr_key(*pr),
{
    let mut out: String = pr.owner.clone();
    out.append("/");
    out.append(pr.repo.as_str());
    out.append("#");
    let n = decimal_text(pr.number as u64);
    out.append(n.as_str());
    out
}

/// The watchers are told of an error.
pub open spec fn erred(r: Run, message: Seq<char>) -> Run {
    r.then_do(EffectView::Emit(EventView::TickError { id: r.session.id.0@, message }))
}

/// The answer to a reaction that was let run; an error ends the poll.
pub open spec fn answered(
    r: Run,
    slot: Slot,
    answer: Option<Result<Option<ReactionOutcome>, String>>,
) -> Run {
    match answer {
        None => r.stop(Flow::Waiting(slot)),
        Some(Err(_)) => r.stop(Flow::Failed),
        Some(Ok(_)) => r,
    }
}

/// There is a code host to ask, and something that carries out reactions.
pub open spec fn wired(m: ManagerView) -> bool {
    m.keys is Some && m.scm
}

/// The agent is told which checks fail.
#[verifier::opaque]
pub open spec fn checks_passed_on(r: Run, pr: PullRequest, a: ScmAnswers) -> Run {
    let asked = r.then_do(EffectView::ListChecks { pr });
    let generic = answered(
        asked.then_do(EffectView::Dispatch { session: r.session, key: "ci-failed"@ }),
        Slot::ChecksDispatched,
        a.checks_dispatched,
    );
    if !wired(r.manager) {
        r
    } else {
        match a.checks {
            None => asked.stop(Flow::Waiting(Slot::Checks)),
            Some(Err(_)) => generic,
            Some(Ok(checks)) => if any_failed(check_views(checks@)) {
                answered(
                    asked.then_do(
                        EffectView::DispatchWithMessage {
                            session: r.session,
                            key: "ci-failed"@,
                            message: checks_message(check_views(checks@)),
                        },
                    ),
                    Slot::ChecksDispatched,
                    a.checks_dispatched,
                )
            } else {
                generic
            },
        }
    }
}

/// Review comments with the fingerprint `print` are passed on to the agent, unless it is that
/// of the comments before.
pub open spec fn comments_passed_on(
    r: Run,
    comments: Seq<ReviewComment>,
    print: u64,
    a: ScmAnswers,
) -> Run {
    let s = r.session;
    let marked = Session { last_review_backlog_fingerprint: Some(print), ..s };
    if s.last_review_backlog_fingerprint == Some(print) {
        r
    } else if comments.len() == 0 {
        if s.last_review_backlog_fingerprint is None {
            saved(r.with(marked), Slot::CommentsSaved, a.comments_saved)
        } else {
            r
        }
    } else {
        let sent = answered(
            r.then_do(
                EffectView::DispatchWithMessage {
                    session: s,
                    key: "changes-requested"@,
                    message: comments_message(comments),
                },
            ),
            Slot::CommentsDispatched,
            a.comments_dispatched,
        );
        if sent.flow == Flow::Done {
            saved(sent.with(marked), Slot::CommentsSaved, a.comments_saved)
        } else {
            sent
        }
    }
}

/// New review comments are passed on to the agent.
#[verifier::opaque]
pub open spec fn backlog_passed_on(r: Run, pr: PullRequest, a: ScmAnswers) -> Run {
    if !wired(r.manager) || !review_stable(r.session.status) {
        r
    } else {
        let asked = r.then_do(EffectView::ListComments { pr });
        match a.comments {
            None => asked.stop(Flow::Waiting(Slot::Comments)),
            Some(Err(_)) => asked,
            Some(Ok(comments)) => comments_passed_on(
                asked,
                comments@,
                fingerprint(comment_rows(comments@)),
                a,
            ),
        }
    }
}

/// The review comments of the session `id` were asked for not long before `now`.
pub open spec fn asked_lately(m: ManagerView, id: Seq<char>, now: u64) -> bool {
    m.commented.dom().contains(id) && elapsed(m.commented[id], now) < REVIEW_BACKLOG_THROTTLE
}

/// New review comments are passed on to the agent, unless it is too soon to ask for them again.
#[verifier::opaque]
pub open spec fn backlog_due(r: Run, pr: PullRequest, a: ScmAnswers) -> Run {
    let id = r.session.id.0@;
    let m = r.manager;
    let timed = r.then_do(EffectView::ReadClock);
    if !wired(m) || !review_stable(r.session.status) {
        r
    } else {
        match a.comments_now {
            None => timed.stop(Flow::Waiting(Slot::CommentsNow)),
            Some(now) => if asked_lately(m, id, now) {
                timed
            } else {
                backlog_passed_on(
                    timed.knowing(ManagerView { commented: m.commented.insert(id, now), ..m }),
                    pr,
                    a,
                )
            },
        }
    }
}

/// A set of comments of bots that was not seen before gets a fresh budget of attempts.
pub open spec fn bots_seen(r: Run, print: u64) -> Run {
    let s = r.session;
    if s.last_automated_review_fingerprint == Some(print) {
        r
    } else {
        r.then_do(EffectView::ClearTracker { id: s.id.0@, key: "bugbot-comments"@ }).with(
            Session { last_automated_review_fingerprint: Some(print), ..s },
        )
    }
}

/// Comments of bots with the fingerprint `print` are passed on to the agent, unless that was
/// done before.
pub open spec fn bot_comments_passed_on(
    r: Run,
    comments: Seq<AutomatedComment>,
    print: u64,
    a: ScmAnswers,
) -> Run {
    let seen = bots_seen(r, print);
    let s = seen.session;
    if comments.len() == 0 {
        if s.last_automated_review_dispatch_hash is Some {
            saved(
                seen.with(Session { last_automated_review_dispatch_hash: None, ..s }),
                Slot::BotSaved,
                a.bot_saved,
            )
        } else {
            seen
        }
    } else if s.last_automated_review_dispatch_hash == Some(print) {
        seen
    } else {
        let sent = answered(
            seen.then_do(
                EffectView::DispatchWithMessage {
                    session: s,
                    key: "bugbot-comments"@,
                    message: automated_message(comments),
                },
            ),
            Slot::BotDispatched,
            a.bot_dispatched,
        );
        if sent.flow == Flow::Done {
            saved(
                sent.with(Session { last_automated_review_dispatch_hash: Some(print), ..s }),
                Slot::BotSaved,
                a.bot_saved,
            )
        } else {
            sent
        }
    }
}

/// New comments of bots are passed on to the agent.
#[verifier::opaque]
pub open spec fn bots_passed_on(r: Run, pr: PullRequest, a: ScmAnswers) -> Run {
    let asked = r.then_do(EffectView::ListAutomatedComments { pr });
    if !wired(r.manager) {
        r
    } else {
        match a.bot_comments {
            None => asked.stop(Flow::Waiting(Slot::BotComments)),
            Some(Err(_)) => asked,
            Some(Ok(comments)) => bot_comments_passed_on(
                asked,
                comments@,
                fingerprint(automated_rows(comments@)),
                a,
            ),
        }
    }
}

/// What is passed on to the agent once the status is settled.
#[verifier::opaque]
pub open spec fn passed_on(
    r: Run,
    observation: Option<ObservationView>,
    pr: Option<PullRequest>,
    a: ScmAnswers,
) -> Run {
    if r.manager.keys is None {
        r
    } else {
        let conflicts = conflicts_checked(r, observation, a.conflict_dispatched, a.conflict_saved);
        match pr {
            Some(pr) => if conflicts.flow == Flow::Done {
                let checks = if conflicts.session.status == SessionStatus::CiFailed {
                    checks_passed_on(conflicts, pr, a)
                } else {
                    conflicts
                };
                if checks.flow == Flow::Done {
                    let backlog = backlog_due(checks, pr, a);
                    if backlog.flow == Flow::Done {
                        bots_passed_on(backlog, pr, a)
                    } else {
                        backlog
                    }
                } else {
                    checks
                }
            } else {
                conflicts
            },
            None => conflicts,
        }
    }
}

/// The status follows what was observed; an agent that is stuck does not become one whose
/// pull request is open.
#[verifier::opaque]
pub open spec fn status_followed(
    r: Run,
    observation: Option<ObservationView>,
    pr: Option<PullRequest>,
    a: ScmAnswers,
) -> Run {
    let asked = r.then_do(
        EffectView::DeriveStatus { current: r.session.status, observation },
    );
    match a.derived {
        None => asked.stop(Flow::Waiting(Slot::Derived)),
        Some(None) => passed_on(asked, observation, pr, a),
        Some(Some(next)) => {
            let (decided, stuck) = if next == SessionStatus::PrOpen {
                stuck_decided(asked, Stage::Scm, a.stuck)
            } else {
                (asked, false)
            };
            let next = if stuck {
                SessionStatus::Stuck
            } else {
                next
            };
            if decided.flow == Flow::Done {
                let moved = transitioned(decided, next, Stage::Scm, a.transition);
                if moved.flow == Flow::Done {
                    passed_on(moved, observation, pr, a)
                } else {
                    moved
                }
            } else {
                decided
            }
        },
    }
}

/// The pull request is probed, and the status follows.
#[verifier::opaque]
pub open spec fn probed(r: Run, pr: PullRequest, a: ScmAnswers) -> Run {
    let m = r.manager;
    let asked = r.then_do(EffectView::ProbePr { pr });
    match a.probes {
        None => asked.stop(Flow::Waiting(Slot::Probes)),
        Some(probes) => {
            let timed = asked.then_do(EffectView::ReadClock);
            match a.probed_at {
                None => timed.stop(Flow::Waiting(Slot::ProbedAt)),
                Some(now) => {
                    let known = timed.knowing(
                        ManagerView { probed: m.probed.insert(r.session.id.0@, now), ..m },
                    );
                    if all_probed(probes) {
                        status_followed(known, Some(observed(probes)), Some(pr), a)
                    } else {
                        erred(known, "scm probes: "@ + joined(failures(probes), "; "@))
                    }
                },
            }
        },
    }
}

/// A pull request under review is not probed again before its time.
#[verifier::opaque]
pub open spec fn throttled(r: Run, pr: PullRequest, a: ScmAnswers) -> Run {
    let id = r.session.id.0@;
    let m = r.manager;
    if review_stable(r.session.status) && m.probed.dom().contains(id) {
        let timed = r.then_do(EffectView::ReadClock);
        match a.throttle_now {
            None => timed.stop(Flow::Waiting(Slot::ThrottleNow)),
            Some(now) => if elapsed(m.probed[id], now) < REVIEW_BACKLOG_THROTTLE {
                timed
            } else {
                probed(timed, pr, a)
            },
        }
    } else {
        probed(r, pr, a)
    }
}

/// The session remembers its first pull request.
pub open spec fn claimed(s: Session, pr: PullRequest) -> Session {
    Session {
        claimed_pr_number: match s.claimed_pr_number {
            Some(n) => Some(n),
            None => Some(pr.number),
        },
        claimed_pr_url: match s.claimed_pr_url {
            Some(u) => Some(u),
            None => Some(pr.url),
        },
        ..s
    }
}

/// What follows from the pull request that was found, or from there being none.
#[verifier::opaque]
pub open spec fn found(r: Run, pr: Option<PullRequest>, a: ScmAnswers) -> Run {
    match pr {
        None => status_followed(r, None, None, a),
        Some(pr) => {
            let s = claimed(r.session, pr);
            let kept = r.with(s).then_do(EffectView::Save { session: s });
            let m = r.manager;
            let key = pr_key(pr);
            if m.enriched.dom().contains(key) {
                status_followed(
                    kept.knowing(ManagerView { enriched: m.enriched.remove(key), ..m }),
                    Some(m.enriched[key].observation),
                    Some(pr),
                    a,
                )
            } else {
                throttled(kept, pr, a)
            }
        },
    }
}

/// One poll of the code host.
#[verifier::opaque]
pub open spec fn scm_polled(r: Run, a: ScmAnswers) -> Run {
    let id = r.session.id.0@;
    let m = r.manager;
    if r.session.status.terminal() {
        r
    } else if m.detected.dom().contains(id) {
        found(r.knowing(ManagerView { detected: m.detected.remove(id), ..m }), m.detected[id], a)
    } else {
        let asked = r.then_do(EffectView::DetectPr { session: r.session });
        match a.detected {
            None => asked.stop(Flow::Waiting(Slot::Detected)),
            Some(Err(e)) => erred(asked, "scm.detect_pr: "@ + e@),
            Some(Ok(pr)) => found(asked, pr, a),
        }
    }
}

/// Tells the watchers of an error.
pub fn emit_error(id: &SessionId, what: &str, error: &str, log: &mut Vec<Effect>)
    ensures
        views(final(log)@) == views(old(log)@).push(
            EffectView::Emit(EventView::TickError { id: id.0@, message: what@ + error@ }),
        ),
{
    let mut message: String = what.to_string();
    message.append(error);
    note(log, Effect::Emit(OrchestratorEvent::TickError { id: id.clone(), message }));
}

/// The flow after a reaction was let run.
fn after_dispatch(slot: Slot, answer: &Option<Result<Option<ReactionOutcome>, String>>) -> (flow:
    Flow)
    ensures
        forall|r: Run|
            r.flow == Flow::Done ==> #[trigger] answered(r, slot, *answer) == r.stop(flow),
{
    match answer {
        None => Flow::Waiting(slot),
        Some(Err(_)) => Flow::Failed,
        Some(Ok(_)) => Flow::Done,
    }
}

impl LifecycleManager {
    /// Tells the agent of a session whose checks failed which ones did. Where that is not
    /// known, the configured message has to do.
    pub fn check_ci_failed(
        &self,
        session: &Session,
        pr: &PullRequest,
        answers: &ScmAnswers,
        log: &mut Vec<Effect>,
    ) -> (flow: Flow)
        ensures
            run_of(*self, *session, final(log)@, flow) == checks_passed_on(
                run_of(*self, *session, old(log)@, Flow::Done),
                *pr,
                *answers,
            ),
    {
        proof {
            reveal(checks_passed_on);
        }
        if self.reaction_engine.is_none() || !self.scm {
            return Flow::Done;
        }
        note(log, Effect::ListChecks { pr: pr.clone() });
        let message = match &answers.checks {
            None => {
                return Flow::Waiting(Slot::Checks);
            },
            Some(Err(_)) => None,
            Some(Ok(checks)) => format_failed_checks(checks),
        };
        match message {
            Some(message) => {
                note(
                    log,
                    Effect::DispatchWithMessage {
                        session: session.clone(),
                        key: "ci-failed".to_string(),
                        message,
                    },
                );
            },
            None => {
                note(
                    log,
                    Effect::Dispatch { session: session.clone(), key: "ci-failed".to_string() },
                );
            },
        }
        after_dispatch(Slot::ChecksDispatched, &answers.checks_dispatched)
    }

    /// Passes review comments on to the agent, once for each set of comments that differs
    /// from the one before.
    pub fn check_review_backlog(
        &self,
        session: &mut Session,
        pr: &PullRequest,
        answers: &ScmAnswers,
        log: &mut Vec<Effect>,
    ) -> (flow: Flow)
        ensures
            run_of(*self, *final(session), final(log)@, flow) == backlog_passed_on(
                run_of(*self, *old(session), old(log)@, Flow::Done),
                *pr,
                *answers,
            ),
    {
        proof {
            reveal(backlog_passed_on);
        }
        if self.reaction_engine.is_none() || !self.scm {
            return Flow::Done;
        }
        if !is_review_stable(session.status) {
            return Flow::Done;
        }
        note(log, Effect::ListComments { pr: pr.clone() });
        let comments = match &answers.comments {
            None => {
                return Flow::Waiting(Slot::Comments);
            },
            Some(Err(_)) => {
                return Flow::Done;
            },
            Some(Ok(comments)) => comments,
        };
        let print: u64 = fingerprint_comments(comments);
        self.pass_comments_on(session, comments, print, answers, log)
    }

    /// Passes review comments with the fingerprint `print` on to the agent, unless it is that
    /// of the comments before.
    pub fn pass_comments_on(
        &self,
        session: &mut Session,
        comments: &Vec<ReviewComment>,
        print: u64,
        answers: &ScmAnswers,
        log: &mut Vec<Effect>,
    ) -> (flow: Flow)
        ensures
            run_of(*self, *final(session), final(log)@, flow) == comments_passed_on(
                run_of(*self, *old(session), old(log)@, Flow::Done),
                comments@,
                print,
                *answers,
            ),
    {
        let unchanged = match session.last_review_backlog_fingerprint {
            Some(p) => p == print,
            None => false,
        };
        if unchanged {
            return Flow::Done;
        }
        if comments.len() == 0 {
            if session.last_review_backlog_fingerprint.is_none() {
                session.last_review_backlog_fingerprint = Some(print);
                return save(session, Slot::CommentsSaved, &answers.comments_saved, log);
            }
            return Flow::Done;
        }
        note(
            log,
            Effect::DispatchWithMessage {
                session: session.clone(),
                key: "changes-requested".to_string(),
                message: format_comments_message(comments),
            },
        );
        let flow = after_dispatch(Slot::CommentsDispatched, &answers.comments_dispatched);
        if flow != Flow::Done {
            return flow;
        }
        session.last_review_backlog_fingerprint = Some(print);
        save(session, Slot::CommentsSaved, &answers.comments_saved, log)
    }

    /// Passes the comments of bots on to the agent, once for each set of comments.
    pub fn check_bugbot_comments(
        &self,
        session: &mut Session,
        pr: &PullRequest,
        answers: &ScmAnswers,
        log: &mut Vec<Effect>,
    ) -> (flow: Flow)
        ensures
            run_of(*self, *final(session), final(log)@, flow) == bots_passed_on(
                run_of(*self, *old(session), old(log)@, Flow::Done),
                *pr,
                *answers,
            ),
    {
        proof {
            reveal(bots_passed_on);
        }
        if self.reaction_engine.is_none() || !self.scm {
            return Flow::Done;
        }
        note(log, Effect::ListAutomatedComments { pr: pr.clone() });
        let comments = match &answers.bot_comments {
            None => {
                return Flow::Waiting(Slot::BotComments);
            },
            Some(Err(_)) => {
                return Flow::Done;
            },
            Some(Ok(comments)) => comments,
        };
        let print: u64 = fingerprint_automated_comments(comments);
        self.pass_bot_comments_on(session, comments, print, answers, log)
    }

    /// Passes the comments of bots with the fingerprint `print` on to the agent, unless that
    /// was done before.
    pub fn pass_bot_comments_on(
        &self,
        session: &mut Session,
        comments: &Vec<AutomatedComment>,
        print: u64,
        answers: &ScmAnswers,
        log: &mut Vec<Effect>,
    ) -> (flow: Flow)
        ensures
            run_of(*self, *final(session), final(log)@, flow) == bot_comments_passed_on(
                run_of(*self, *old(session), old(log)@, Flow::Done),
                comments@,
                print,
                *answers,
            ),
    {
        let known = match session.last_automated_review_fingerprint {
            Some(p) => p == print,
            None => false,
        };
        if !known {
            note(
                log,
                Effect::ClearTracker {
                    id: session.id.clone(),
                    key: "bugbot-comments".to_string(),
                },
            );
            session.last_automated_review_fingerprint = Some(print);
        }
        if comments.len() == 0 {
            if session.last_automated_review_dispatch_hash.is_some() {
                session.last_automated_review_dispatch_hash = None;
                return save(session, Slot::BotSaved, &answers.bot_saved, log);
            }
            return Flow::Done;
        }
        let sent = match session.last_automated_review_dispatch_hash {
            Some(p) => p == print,
            None => false,
        };
        if sent {
            return Flow::Done;
        }
        note(
            log,
            Effect::DispatchWithMessage {
                session: session.clone(),
                key: "bugbot-comments".to_string(),
                message: format_automated_comments_message(comments),
            },
        );
        let flow = after_dispatch(Slot::BotDispatched, &answers.bot_dispatched);
        if flow != Flow::Done {
            return flow;
        }
        session.last_automated_review_dispatch_hash = Some(print);
        save(session, Slot::BotSaved, &answers.bot_saved, log)
    }

    /// Passes review comments on to the agent, unless it is too soon to ask for them again.
    fn check_review_backlog_in_time(
        &mut self,
        session: &mut Session,
        pr: &PullRequest,
        answers: &ScmAnswers,
        log: &mut Vec<Effect>,
    ) -> (flow: Flow)
        ensures
            run_of(*final(self), *final(session), final(log)@, flow) == backlog_due(
                run_of(*old(self), *old(session), old(log)@, Flow::Done),
                *pr,
                *answers,
            ),
    {
        proof {
            reveal(backlog_due);
        }
        if self.reaction_engine.is_none() || !self.scm || !is_review_stable(session.status) {
            return Flow::Done;
        }
        note(log, Effect::ReadClock);
        let now: u64 = match &answers.comments_now {
            None => {
                return Flow::Waiting(Slot::CommentsNow);
            },
            Some(now) => *now,
        };
        if let Some(last) = self.last_comments_check.get(session.id.0.as_str()) {
            let since: u64 = if now >= *last {
                now - *last
            } else {
                0
            };
            if since < REVIEW_BACKLOG_THROTTLE {
                return Flow::Done;
            }
        }
        self.last_comments_check.insert(session.id.0.clone(), now);
        self.check_review_backlog(session, pr, answers, log)
    }

    /// Passes conflicts, failing checks and comments on to the agent.
    fn pass_on(
        &mut self,
        session: &mut Session,
        observation: Option<&ScmObservation>,
        pr: Option<&PullRequest>,
        answers: &ScmAnswers,
        log: &mut Vec<Effect>,
    ) -> (flow: Flow)
        ensures
            run_of(*final(self), *final(session), final(log)@, flow) == passed_on(
                run_of(*old(self), *old(session), old(log)@, Flow::Done),
                match observation {
                    Some(o) => Some(o@),
                    None => None,
                },
                match pr {
                    Some(p) => Some(*p),
                    None => None,
                },
                *answers,
            ),
    {
        proof {
            reveal(passed_on);
        }
        if self.reaction_engine.is_none() {
            return Flow::Done;
        }
        let flow = self.check_merge_conflicts(session, observation, answers, log);
        if flow != Flow::Done {
            return flow;
        }
        let pr = match pr {
            Some(p) => p,
            None => {
                return Flow::Done;
            },
        };
        if session.status == SessionStatus::CiFailed {
            let flow = self.check_ci_failed(session, pr, answers, log);
            if flow != Flow::Done {
                return flow;
            }
        }
        let flow = self.check_review_backlog_in_time(session, pr, answers, log);
        if flow != Flow::Done {
            return flow;
        }
        self.check_bugbot_comments(session, pr, answers, log)
    }

    /// Lets the status follow what was observed.
    fn follow_status(
        &mut self,
        session: &mut Session,
        observation: Option<ScmObservation>,
        pr: Option<&PullRequest>,
        answers: &ScmAnswers,
        log: &mut Vec<Effect>,
    ) -> (flow: Flow)
        ensures
            run_of(*final(self), *final(session), final(log)@, flow) == status_followed(
                run_of(*old(self), *old(session), old(log)@, Flow::Done),
                opt_observation(observation),
                match pr {
                    Some(p) => Some(*p),
                    None => None,
                },
                *answers,
            ),
    {
        proof {
            reveal(status_followed);
        }
        let copy = match &observation {
            Some(o) => Some(o.clone()),
            None => None,
        };
        note(log, Effect::DeriveStatus { current: session.status, observation: copy });
        match &answers.derived {
            None => {
                return Flow::Waiting(Slot::Derived);
            },
            Some(None) => {},
            Some(Some(derived)) => {
                let mut next = *derived;
                if next == SessionStatus::PrOpen {
                    let (stuck, flow) = self.should_mark_stuck(
                        session,
                        Stage::Scm,
                        &answers.stuck,
                        log,
                    );
                    if flow != Flow::Done {
                        return flow;
                    }
                    if stuck {
                        next = SessionStatus::Stuck;
                    }
                }
                let flow = self.transition(session, next, Stage::Scm, &answers.transition, log);
                if flow != Flow::Done {
                    return flow;
                }
            },
        }
        self.pass_on(session, observation.as_ref(), pr, answers, log)
    }

    /// Probes the pull request, unless it is too soon, and lets the status follow.
    fn probe(
        &mut self,
        session: &mut Session,
        pr: &PullRequest,
        answers: &ScmAnswers,
        log: &mut Vec<Effect>,
    ) -> (flow: Flow)
        ensures
            run_of(*final(self), *final(session), final(log)@, flow) == throttled(
                run_of(*old(self), *old(session), old(log)@, Flow::Done),
                *pr,
                *answers,
            ),
    {
        proof {
            reveal(throttled);
            reveal(probed);
        }
        if is_review_stable(session.status) {
            if let Some(last) = self.last_review_backlog_check.get(session.id.0.as_str()) {
                note(log, Effect::ReadClock);
                match &answers.throttle_now {
                    None => {
                        return Flow::Waiting(Slot::ThrottleNow);
                    },
                    Some(now) => {
                        let since: u64 = if *now >= *last {
                            *now - *last
                        } else {
                            0
                        };
                        if since < REVIEW_BACKLOG_THROTTLE {
                            return Flow::Done;
                        }
                    },
                }
            }
        }
        note(log, Effect::ProbePr { pr: pr.clone() });
        let probes = match &answers.probes {
            None => {
                return Flow::Waiting(Slot::Probes);
            },
            Some(probes) => probes,
        };
        note(log, Effect::ReadClock);
        match &answers.probed_at {
            None => {
                return Flow::Waiting(Slot::ProbedAt);
            },
            Some(now) => {
                self.last_review_backlog_check.insert(session.id.0.clone(), *now);
            },
        }
        match assemble_observation(probes) {
            Ok(observation) => self.follow_status(
                session,
                Some(observation),
                Some(pr),
                answers,
                log,
            ),
            Err(message) => {
                emit_error(&session.id, "scm probes: ", message.as_str(), log);
                Flow::Done
            },
        }
    }

    /// Takes note of the pull request that was found, and lets the status follow its state.
    fn on_found(
        &mut self,
        session: &mut Session,
        pr: Option<PullRequest>,
        answers: &ScmAnswers,
        log: &mut Vec<Effect>,
    ) -> (flow: Flow)
        ensures
            run_of(*final(self), *final(session), final(log)@, flow) == found(
                run_of(*old(self), *old(session), old(log)@, Flow::Done),
                pr,
                *answers,
            ),
    {
        proof {
            reveal(found);
        }
        match pr {
            None => self.follow_status(session, None, None, answers, log),
            Some(pr) => {
                if session.claimed_pr_number.is_none() {
                    session.claimed_pr_number = Some(pr.number);
                }
                if session.claimed_pr_url.is_none() {
                    session.claimed_pr_url = Some(pr.url.clone());
                }
                note(log, Effect::Save { session: session.clone() });
                let key = enrichment_key(&pr);
                let ghost m = self@;
                match self.pr_enrichment_cache.remove(key.as_str()) {
                    Some(enrichment) => {
                        assert(self@.enriched =~= m.enriched.remove(key@));
                        self.follow_status(
                            session,
                            Some(enrichment.observation),
                            Some(&pr),
                            answers,
                            log,
                        )
                    },
                    None => {
                        assert(self@.enriched =~= m.enriched);
                        self.probe(session, &pr, answers, log)
                    },
                }
            },
        }
    }

    /// Looks at the session's pull request, and lets the session's status follow it. A probe
    /// that fails is reported, and the status left alone.
    pub fn poll_scm(
        &mut self,
        session: &mut Session,
        answers: &ScmAnswers,
        log: &mut Vec<Effect>,
    ) -> (flow: Flow)
        requires
            old(self).scm || old(session).status.terminal(),
        ensures
            run_of(*final(self), *final(session), final(log)@, flow) == scm_polled(
                run_of(*old(self), *old(session), old(log)@, Flow::Done),
                *answers,
            ),
    {
        proof {
            reveal(scm_polled);
        }
        if session.is_terminal() {
            return Flow::Done;
        }
        let ghost m = self@;
        let cached = self.detected_prs_cache.remove(session.id.0.as_str());
        let pr = match cached {
            Some(pr) => pr,
            None => {
                assert(self@.detected =~= m.detected);
                note(log, Effect::DetectPr { session: session.clone() });
                match &answers.detected {
                    None => {
                        return Flow::Waiting(Slot::Detected);
                    },
                    Some(Err(e)) => {
                        emit_error(&session.id, "scm.detect_pr: ", e.as_str(), log);
                        return Flow::Done;
                    },
                    Some(Ok(None)) => None,
                    Some(Ok(Some(pr))) => Some(pr.clone()),
                }
            },
        };
        self.on_found(session, pr, answers, log)
    }
}

} // verus!
