//! What becomes of a poll in which something goes wrong, and of what is over.

use vstd::prelude::*;

use crate::events::EventView;
use crate::lifecycle::duties::{
    arrived, happens, hosted, lemma_arrival, lemma_happens_still, lemma_stations, pr_known, pr_of,
    provided, searched, sees,
};
use crate::lifecycle::effects::{
    EffectView, Flow, PollAnswers, PrProbes, ScmAnswers, Stage, StuckAnswers, TransitionAnswers,
};
use crate::lifecycle::fingerprint::{automated_rows, comment_rows, fingerprint};
use crate::lifecycle::fleet::{detected_one, Detection};
use crate::lifecycle::replay::{begins_with, group_begins};
use crate::lifecycle::scm_poll::{
    backlog_passed_on, bots_passed_on, failures, found, probed, scm_polled,
};
use crate::lifecycle::stuck::{conflicts_checked, stuck_decided};
use crate::lifecycle::tick::{activity_kept, live, polled};
use crate::lifecycle::transition::{reacted, settled, settled_and_reacted, transitioned};
use crate::lifecycle::{ManagerView, Run};
use crate::reactions::{duration_secs, ReactionConfig, ReactionOutcome};
use crate::scm::{AutomatedComment, ObservationView, PullRequest, ReviewComment};
use crate::text::joined;
use crate::types::{ActivityState, Session, SessionStatus};

verus! {

/// Where the runtime or the agent cannot be probed, that is the last thing said, in the words of the
/// error, and the session stays what it is.
pub proof fn law_failed_probes_are_reported(r: Run, a: PollAnswers, e: String)
    requires
        r.flow == Flow::Done,
        r.session.runtime_handle is Some,
        a.alive == Some(Err::<bool, String>(e)) || a.alive == Some(Ok::<bool, String>(true))
            && a.activity == Some(Err::<ActivityState, String>(e)),
    ensures
        polled(r, a).flow == Flow::Done,
        polled(r, a).session == r.session,
        polled(r, a).manager == r.manager,
        polled(r, a).log.last() == EffectView::Emit(
            EventView::TickError {
                id: r.session.id.0@,
                message: if a.alive == Some(Err::<bool, String>(e)) {
                    "is_alive: "@ + e@
                } else {
                    "detect_activity: "@ + e@
                },
            },
        ),
{
    reveal(polled);
    reveal(live);
}

/// Where the code host cannot be asked for the pull request, that is said, and the session stays
/// what it is.
pub proof fn law_failed_search_is_reported(r: Run, a: ScmAnswers, e: String)
    requires
        r.flow == Flow::Done,
        !r.session.status.terminal(),
        !r.manager.detected.dom().contains(r.session.id.0@),
        a.detected == Some(Err::<Option<PullRequest>, String>(e)),
    ensures
        scm_polled(r, a).flow == Flow::Done,
        scm_polled(r, a).session == r.session,
        scm_polled(r, a).log == r.log.push(EffectView::DetectPr { session: r.session }).push(
            EffectView::Emit(
                EventView::TickError { id: r.session.id.0@, message: "scm.detect_pr: "@ + e@ },
            ),
        ),
{
    reveal(scm_polled);
}

/// In the search of a tick an error is told as well, and counts as no pull request.
pub proof fn law_failed_search_of_a_tick_is_reported(
    d: Detection,
    s: Session,
    skipped: Map<Seq<char>, ()>,
    answers: Seq<Result<Option<PullRequest>, String>>,
    e: String,
)
    requires
        !d.waiting,
        !s.status.terminal(),
        !skipped.dom().contains(s.id.0@),
        d.used < answers.len(),
        answers[d.used as int] == Err::<Option<PullRequest>, String>(e),
    ensures
        ({
            let x = detected_one(d, s, skipped, answers);
            &&& x.found.dom().contains(s.id.0@) && x.found[s.id.0@] is None
            &&& x.prs == d.prs
            &&& x.used == d.used + 1
            &&& !x.waiting
            &&& x.log == d.log.push(EffectView::DetectPr { session: s }).push(
                EffectView::Emit(
                    EventView::TickError { id: s.id.0@, message: "scm.detect_pr: "@ + e@ },
                ),
            )
        }),
{
}

/// A pull request of which something could not be probed changes nothing about its session; what
/// went wrong is told, all of it.
pub proof fn law_half_a_probe_is_none(r: Run, pr: PullRequest, a: ScmAnswers, p: PrProbes)
    requires
        r.flow == Flow::Done,
        a.probes == Some(p),
        a.probed_at is Some,
        p.state is Err || p.ci is Err || p.review is Err || p.readiness is Err,
    ensures
        probed(r, pr, a).flow == Flow::Done,
        probed(r, pr, a).session == r.session,
        probed(r, pr, a).log.last() == EffectView::Emit(
            EventView::TickError {
                id: r.session.id.0@,
                message: "scm probes: "@ + joined(failures(p), "; "@),
            },
        ),
        p.state is Err ==> failures(p).contains("pr_state"@ + ": "@ + p.state->Err_0@),
        p.ci is Err ==> failures(p).contains("ci_status"@ + ": "@ + p.ci->Err_0@),
        p.review is Err ==> failures(p).contains("review_decision"@ + ": "@ + p.review->Err_0@),
        p.readiness is Err ==> failures(p).contains("mergeability"@ + ": "@ + p.readiness->Err_0@),
        failures(p).len() <= 4,
{
    reveal(probed);
    let a0 = crate::lifecycle::scm_poll::failure("pr_state"@, p.state);
    let a1 = crate::lifecycle::scm_poll::failure("ci_status"@, p.ci);
    let a2 = crate::lifecycle::scm_poll::failure("review_decision"@, p.review);
    let a3 = crate::lifecycle::scm_poll::failure("mergeability"@, p.readiness);
    let f = failures(p);
    let n1 = a0.len() as int;
    let n2 = n1 + a1.len();
    let n3 = n2 + a2.len();
    if p.state is Err {
        assert(f[0] == a0[0]);
    }
    if p.ci is Err {
        assert(f[n1] == a1[0]);
    }
    if p.review is Err {
        assert(f[n2] == a2[0]);
    }
    if p.readiness is Err {
        assert(f[n3] == a3[0]);
    }
}

/// Review comments that could not be passed on are not taken as passed on: the poll fails, and the
/// session remembers what it did. Where there are none, nothing is passed on.
pub proof fn law_unsent_comments_are_not_forgotten(
    r: Run,
    pr: PullRequest,
    a: ScmAnswers,
    list: Vec<ReviewComment>,
)
    requires
        r.flow == Flow::Done,
        a.comments == Some(Ok::<Vec<ReviewComment>, String>(list)),
    ensures
        ({
            let x = backlog_passed_on(r, pr, a);
            &&& (a.comments_dispatched matches Some(Err(_))) && list@.len() > 0
                ==> x.session.last_review_backlog_fingerprint
                == r.session.last_review_backlog_fingerprint
            &&& (a.comments_dispatched matches Some(Err(_))) && (x.log.last() is DispatchWithMessage)
                && x.log.len() > r.log.len() ==> x.flow == Flow::Failed
            &&& list@.len() == 0 ==> forall|i: int|
                r.log.len() <= i < x.log.len() ==> !(#[trigger] x.log[i] is DispatchWithMessage)
            &&& r.session.last_review_backlog_fingerprint == Some(fingerprint(comment_rows(list@)))
                ==> x.session == r.session && x.flow == Flow::Done
        }),
{
    reveal(backlog_passed_on);
}

/// Comments of bots that could not be passed on are not taken as passed on, and where there are
/// none nothing is. A set of comments that was not seen before gets a fresh budget of attempts.
pub proof fn law_unsent_bot_comments_are_not_forgotten(
    r: Run,
    pr: PullRequest,
    a: ScmAnswers,
    list: Vec<AutomatedComment>,
)
    requires
        r.flow == Flow::Done,
        r.manager.keys is Some,
        r.manager.scm,
        a.bot_comments == Some(Ok::<Vec<AutomatedComment>, String>(list)),
    ensures
        ({
            let x = bots_passed_on(r, pr, a);
            let print = fingerprint(automated_rows(list@));
            &&& (a.bot_dispatched matches Some(Err(_))) && list@.len() > 0
                && r.session.last_automated_review_dispatch_hash != Some(print) ==> x.flow
                == Flow::Failed && x.session.last_automated_review_dispatch_hash
                == r.session.last_automated_review_dispatch_hash
            &&& list@.len() == 0 ==> forall|i: int|
                r.log.len() <= i < x.log.len() ==> !(#[trigger] x.log[i] is DispatchWithMessage)
            &&& x.session.last_automated_review_fingerprint == Some(print)
            &&& r.session.last_automated_review_fingerprint != Some(print) ==> happens(
                x.log,
                r.log.len(),
                EffectView::ClearTracker { id: r.session.id.0@, key: "bugbot-comments"@ },
            )
            &&& r.session.last_automated_review_fingerprint == Some(print) ==> forall|i: int|
                r.log.len() <= i < x.log.len() ==> !(#[trigger] x.log[i] is ClearTracker)
        }),
{
    reveal(bots_passed_on);
    let print = fingerprint(automated_rows(list@));
    if r.session.last_automated_review_fingerprint != Some(print) {
        assert(bots_passed_on(r, pr, a).log[(r.log.len() + 1) as int]
            == (EffectView::ClearTracker { id: r.session.id.0@, key: "bugbot-comments"@ }));
    }
}

/// Where the comments cannot be listed, the poll goes on without them.
pub proof fn law_unlisted_comments_stop_nothing(r: Run, pr: PullRequest, a: ScmAnswers, e: String)
    requires
        r.flow == Flow::Done,
        a.comments == Some(Err::<Vec<ReviewComment>, String>(e)),
        a.bot_comments == Some(Err::<Vec<AutomatedComment>, String>(e)),
    ensures
        backlog_passed_on(r, pr, a).flow == Flow::Done,
        backlog_passed_on(r, pr, a).session == r.session,
        bots_passed_on(r, pr, a).flow == Flow::Done,
        bots_passed_on(r, pr, a).session == r.session,
{
    reveal(backlog_passed_on);
    reveal(bots_passed_on);
}

/// That conflicts were passed on is forgotten when the session ends, however it does, and the
/// reaction to them armed again. Where passing them on fails the poll fails, and where there is no
/// reaction for them they are not taken as passed on.
pub proof fn law_conflicts_are_forgotten_in_the_end(
    r: Run,
    observation: Option<ObservationView>,
    dispatched: Option<Result<Option<ReactionOutcome>, String>>,
    save: Option<Result<(), String>>,
)
    requires
        r.flow == Flow::Done,
        r.manager.keys is Some,
    ensures
        ({
            let x = conflicts_checked(r, observation, dispatched, save);
            let over = match r.session.status {
                SessionStatus::Idle => true,
                SessionStatus::Cleanup => true,
                SessionStatus::Merged => true,
                SessionStatus::Killed => true,
                SessionStatus::Terminated => true,
                SessionStatus::Done => true,
                SessionStatus::Errored => true,
                _ => false,
            };
            &&& over ==> x.session.last_merge_conflict_dispatched is None && happens(
                x.log,
                r.log.len(),
                EffectView::ClearTracker { id: r.session.id.0@, key: "merge-conflicts"@ },
            )
            &&& over && r.session.last_merge_conflict_dispatched is Some ==> x.log.last()
                == (EffectView::Save { session: x.session })
            &&& !over && observation is None ==> x == r
            &&& (dispatched matches Some(Err(_))) ==> x.session.last_merge_conflict_dispatched != Some(
                true,
            ) || r.session.last_merge_conflict_dispatched == Some(true)
            &&& (dispatched matches Some(Ok(None))) ==> x.session.last_merge_conflict_dispatched
                != Some(true) || r.session.last_merge_conflict_dispatched == Some(true)
            &&& match r.session.status {
                SessionStatus::Spawning => x == r,
                SessionStatus::Working => x == r,
                SessionStatus::NeedsInput => x == r,
                SessionStatus::Stuck => x == r,
                SessionStatus::MergeFailed => x == r,
                _ => true,
            }
        }),
{
    reveal(conflicts_checked);
    let e = EffectView::ClearTracker { id: r.session.id.0@, key: "merge-conflicts"@ };
    if r.session.status.terminal() {
        assert(conflicts_checked(r, observation, dispatched, save).log[r.log.len() as int] == e);
    }
}

/// A threshold that cannot be read stops nobody, but it is said that it cannot be read. Without a
/// threshold, without a reaction, or without idleness nobody is stuck.
pub proof fn law_unreadable_threshold_is_pointed_out(
    r: Run,
    stage: Stage,
    a: StuckAnswers,
    c: ReactionConfig,
)
    requires
        r.flow == Flow::Done,
        a.reaction == Some(Some(c)),
    ensures
        ({
            let (x, stuck) = stuck_decided(r, stage, a);
            &&& c.threshold is Some && duration_secs(c.threshold->0@) is None && x.log.len()
                > r.log.len() ==> x.log.last() == (EffectView::WarnUnreadable {
                key: "agent-stuck"@,
                field: "threshold"@,
                raw: c.threshold->0@,
            })
            &&& c.threshold is None || duration_secs(c.threshold->0@) is None ==> !stuck
            &&& !r.manager.idle_since.dom().contains(r.session.id.0@) || r.manager.keys is None
                ==> !stuck && x == r
            &&& x.session == r.session && x.manager == r.manager
        }),
{
    reveal(stuck_decided);
}

/// A change of status that cannot be written to disk is not announced: the poll fails there.
pub proof fn law_unsaved_change_is_not_announced(
    r: Run,
    to: SessionStatus,
    stage: Stage,
    a: TransitionAnswers,
    e: String,
)
    requires
        r.flow == Flow::Done,
        r.session.status != to,
        to != SessionStatus::Mergeable,
        a.cost is Some,
        a.saved == Some(Err::<(), String>(e)),
    ensures
        transitioned(r, to, stage, a).flow == Flow::Failed,
        transitioned(r, to, stage, a).log.last() is Save,
        forall|i: int|
            r.log.len() <= i < transitioned(r, to, stage, a).log.len() ==> !(
            #[trigger] transitioned(r, to, stage, a).log[i] is Emit),
{
    reveal(transitioned);
    reveal(reacted);
    reveal(settled_and_reacted);
    reveal(settled);
}

/// What an agent does now, where it is something else than before, is written to disk before it is
/// told. Where that fails the poll fails, and nothing is told.
pub proof fn law_activity_is_saved_first(
    r: Run,
    activity: ActivityState,
    answer: Option<Result<(), String>>,
)
    requires
        r.flow == Flow::Done,
        r.session.activity != Some(activity),
        answer is Some,
    ensures
        ({
            let s = Session { activity: Some(activity), ..r.session };
            let x = activity_kept(r, activity, answer);
            &&& x.session == s
            &&& answer->0 is Ok ==> x.flow == Flow::Done && x.log == r.log.push(
                EffectView::Save { session: s },
            ).push(
                EffectView::Emit(
                    EventView::ActivityChanged {
                        id: r.session.id.0@,
                        prev: r.session.activity,
                        next: activity,
                    },
                ),
            )
            &&& answer->0 is Err ==> x.flow == Flow::Failed && x.log == r.log.push(
                EffectView::Save { session: s },
            )
        }),
{
}

/// A session that has a pull request is written to disk with it.
pub proof fn law_pull_request_is_saved(
    r: Run,
    a: PollAnswers,
    activity: ActivityState,
    pr: PullRequest,
)
    requires
        sees(r, a, activity),
        r.manager.scm,
        !r.session.status.terminal(),
        pr_known(r, a.scm),
        pr_of(r, a.scm) == Some(pr),
    ensures
        exists|i: int|
            r.log.len() <= i < polled(r, a).log.len() && (#[trigger] polled(r, a).log[i] matches EffectView::Save {
                session,
            } && session.id == r.session.id && session.claimed_pr_number is Some
                && session.claimed_pr_url is Some),
{
    broadcast use group_begins;

    lemma_stations(r, a, activity);
    lemma_arrival(r, a, activity);
    let v = arrived(r, a, activity);
    let w = hosted(r, a, activity);
    let x = polled(r, a);
    let k = searched(v, a.scm);
    let p = provided(k, pr);
    let e = EffectView::Save { session: p.session };
    assert(p.log[k.log.len() as int] == e);
    assert(w == found(k, Some(pr), a.scm)) by {
        reveal(scm_polled);
    }
    assert(begins_with(w.log, p.log)) by {
        reveal(found);
        let m = k.manager;
        let key = crate::lifecycle::scm_poll::pr_key(pr);
        if m.enriched.dom().contains(key) {
            crate::lifecycle::replay::lemma_status_followed(
                p.knowing(ManagerView { enriched: m.enriched.remove(key), ..m }),
                Some(m.enriched[key].observation),
                Some(pr),
                a.scm,
                a.scm,
            );
        } else {
            crate::lifecycle::replay::lemma_throttled(p, pr, a.scm, a.scm);
        }
    }
    assert(begins_with(x.log, p.log));
    assert(r.log.len() <= k.log.len());
    lemma_happens_still(p.log, x.log, r.log.len(), r.log.len(), e);
    let i = choose|i: int| r.log.len() <= i < x.log.len() && #[trigger] x.log[i] == e;
    assert(x.log[i] == e);
}

} // verus!
