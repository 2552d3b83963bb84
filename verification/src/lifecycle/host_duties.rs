//! What a poll owes to an agent whose session has a pull request.

use vstd::prelude::*;

use crate::lifecycle::duties::{
    arrived, entry, happens, hosted, keeps, lemma_backlog_due_keeps, lemma_bots_keep,
    lemma_checks_keep, lemma_conflicts_keep, lemma_happens_still, lemma_host_stations,
    lemma_stations, lemma_transition_knows, pr_of, sees, timed,
};
use crate::lifecycle::effects::{EffectView, Flow, PollAnswers, ScmAnswers, Stage};
use crate::lifecycle::fingerprint::{automated_rows, comment_rows, fingerprint};
use crate::lifecycle::messages::{automated_message, checks_message, comments_message};
use crate::lifecycle::replay::{
    begins_with, group_begins, lemma_backlog, lemma_backlog_due, lemma_bots, lemma_checks,
    lemma_conflicts, lemma_stuck_decided, lemma_transitioned,
};
use crate::lifecycle::scm_poll::{
    backlog_due, backlog_passed_on, bots_passed_on, checks_passed_on, observed, passed_on, pr_key,
    status_followed,
};
use crate::lifecycle::stuck::{conflicts_checked, stuck_checked, stuck_decided};
use crate::lifecycle::tick::{finished, polled};
use crate::lifecycle::transition::{terminated, transitioned};
use crate::lifecycle::{ManagerView, Run};
use crate::scm::{
    check_views, AutomatedComment, CheckRun, CheckStatus, ObservationView, PullRequest,
    ReviewComment,
};
use crate::types::{ActivityState, Session, SessionStatus};

verus! {

/// The poll of a session that has not ended gets through to the pull request `pr`: it is in the
/// batch of this tick, or it can be probed and was not probed in the last two minutes.
pub open spec fn reaches(r: Run, a: PollAnswers, pr: PullRequest) -> bool {
    &&& r.manager.scm
    &&& !r.session.status.terminal()
    &&& pr_of(r, a.scm) == Some(pr)
    &&& r.manager.enriched.dom().contains(pr_key(pr)) || {
        &&& a.scm.probes matches Some(p) && p.state is Ok && p.ci is Ok && p.review is Ok
            && p.readiness is Ok
        &&& !r.manager.probed.dom().contains(r.session.id.0@) || a.scm.throttle_now->0
            >= r.manager.probed[r.session.id.0@] + 120_000_000_000
    }
}

/// The poll of the code host once the status has followed the pull request.
pub(crate) open spec fn placed(r: Run, observation: Option<ObservationView>, a: ScmAnswers) -> Run {
    let asked = r.then_do(EffectView::DeriveStatus { current: r.session.status, observation });
    match a.derived {
        Some(Some(next)) => {
            let (decided, stuck) = if next == SessionStatus::PrOpen {
                stuck_decided(asked, Stage::Scm, a.stuck)
            } else {
                (asked, false)
            };
            transitioned(
                decided,
                if stuck {
                    SessionStatus::Stuck
                } else {
                    next
                },
                Stage::Scm,
                a.transition,
            )
        },
        _ => asked,
    }
}

pub(crate) proof fn lemma_placed(
    r: Run,
    observation: Option<ObservationView>,
    pr: Option<PullRequest>,
    a: ScmAnswers,
)
    requires
        r.flow == Flow::Done,
        status_followed(r, observation, pr, a).flow == Flow::Done,
    ensures
        ({
            let k = placed(r, observation, a);
            &&& k.flow == Flow::Done
            &&& begins_with(k.log, r.log)
            &&& status_followed(r, observation, pr, a) == passed_on(k, observation, pr, a)
            &&& k.manager == r.manager
            &&& k.session == (Session {
                status: k.session.status,
                cost: k.session.cost,
                ..r.session
            })
        }),
{
    broadcast use group_begins;

    reveal(status_followed);
    let asked = r.then_do(EffectView::DeriveStatus { current: r.session.status, observation });
    assert(begins_with(asked.log, r.log));
    if let Some(Some(next)) = a.derived {
        lemma_stuck_decided(asked, Stage::Scm, a.stuck, a.stuck);
        let (decided, stuck) = if next == SessionStatus::PrOpen {
            stuck_decided(asked, Stage::Scm, a.stuck)
        } else {
            (asked, false)
        };
        assert(decided.session == asked.session && decided.manager == asked.manager) by {
            reveal(stuck_decided);
        }
        let to = if stuck {
            SessionStatus::Stuck
        } else {
            next
        };
        lemma_transitioned(decided, to, Stage::Scm, a.transition, a.transition);
        lemma_transition_knows(decided, to, Stage::Scm, a.transition);
    }
}

pub(crate) open spec fn after_conflicts(
    r: Run,
    observation: Option<ObservationView>,
    a: ScmAnswers,
) -> Run {
    conflicts_checked(r, observation, a.conflict_dispatched, a.conflict_saved)
}

pub(crate) open spec fn after_checks(
    r: Run,
    observation: Option<ObservationView>,
    pr: PullRequest,
    a: ScmAnswers,
) -> Run {
    let c = after_conflicts(r, observation, a);
    if c.session.status == SessionStatus::CiFailed {
        checks_passed_on(c, pr, a)
    } else {
        c
    }
}

/// How everything that is passed on is passed on.
pub(crate) proof fn lemma_passing_stations(
    r: Run,
    observation: Option<ObservationView>,
    pr: PullRequest,
    a: ScmAnswers,
)
    requires
        r.flow == Flow::Done,
        r.manager.keys is Some,
        passed_on(r, observation, Some(pr), a).flow == Flow::Done,
    ensures
        ({
            let c = after_conflicts(r, observation, a);
            let k = after_checks(r, observation, pr, a);
            let b = backlog_due(k, pr, a);
            let x = passed_on(r, observation, Some(pr), a);
            &&& c.flow == Flow::Done
            &&& k.flow == Flow::Done
            &&& b.flow == Flow::Done
            &&& x == bots_passed_on(b, pr, a)
            &&& begins_with(c.log, r.log)
            &&& begins_with(k.log, c.log)
            &&& begins_with(b.log, k.log)
            &&& begins_with(x.log, b.log)
            &&& r.log.len() <= c.log.len() <= k.log.len() <= b.log.len() <= x.log.len()
            &&& c.manager == r.manager
            &&& k.manager == r.manager
            &&& k.session == c.session
            &&& c.session == (Session {
                last_merge_conflict_dispatched: c.session.last_merge_conflict_dispatched,
                ..r.session
            })
            &&& keeps(k, b)
            &&& keeps(b, x)
        }),
{
    broadcast use group_begins;

    reveal(passed_on);
    let c = after_conflicts(r, observation, a);
    lemma_conflicts(r, observation, a, a);
    lemma_conflicts_keep(r, observation, a);
    lemma_checks(c, pr, a, a);
    lemma_checks_keep(c, pr, a);
    let k = after_checks(r, observation, pr, a);
    lemma_backlog_due(k, pr, a, a);
    lemma_backlog_due_keeps(k, pr, a);
    let b = backlog_due(k, pr, a);
    lemma_bots(b, pr, a, a);
    lemma_bots_keep(b, pr, a);
    reveal(begins_with);
}

/// How a poll that gets through to a pull request comes to what is passed on: from `k` on.
pub(crate) proof fn lemma_passes(r: Run, a: PollAnswers, activity: ActivityState, pr: PullRequest) -> (res: (
    Run,
    Option<ObservationView>,
))
    requires
        sees(r, a, activity),
        reaches(r, a, pr),
    ensures
        ({
            let (k, o) = res;
            let w = hosted(r, a, activity);
            &&& w.flow == Flow::Done
            &&& o is Some
            &&& k.flow == Flow::Done
            &&& w == passed_on(k, o, Some(pr), a.scm)
            &&& begins_with(k.log, r.log)
            &&& begins_with(polled(r, a).log, w.log)
            &&& r.log.len() <= k.log.len()
            &&& k.manager.keys == r.manager.keys
            &&& k.manager.scm
            &&& k.manager.commented == r.manager.commented
            &&& k.session.id == r.session.id
            &&& k.session.last_review_backlog_fingerprint
                == r.session.last_review_backlog_fingerprint
            &&& k.session.last_automated_review_fingerprint
                == r.session.last_automated_review_fingerprint
            &&& k.session.last_automated_review_dispatch_hash
                == r.session.last_automated_review_dispatch_hash
            &&& k.session.last_merge_conflict_dispatched
                == r.session.last_merge_conflict_dispatched
            &&& r.manager.enriched.dom().contains(pr_key(pr)) ==> o == Some(
                r.manager.enriched[pr_key(pr)].observation,
            )
            &&& !r.manager.enriched.dom().contains(pr_key(pr)) ==> o == Some(
                observed(a.scm.probes->0),
            )
        }),
{
    broadcast use group_begins;

    lemma_stations(r, a, activity);
    let v = arrived(r, a, activity);
    let w = hosted(r, a, activity);
    let t = timed(r, a, activity);
    crate::lifecycle::duties::lemma_arrival(r, a, activity);
    lemma_host_stations(v, a.scm);
    let (e, o) = entry(v, a.scm)->0;
    lemma_placed(e, o, Some(pr), a.scm);
    let k = placed(e, o, a.scm);
    assert(begins_with(k.log, r.log));
    reveal(begins_with);
    (k, o)
}

/// The status once the pull request was polled: the one in which the poll ends, unless a merged
/// session was killed after that or the agent turned out to be stuck.
pub(crate) proof fn lemma_ends_as_hosted(r: Run, a: PollAnswers, activity: ActivityState)
    requires
        sees(r, a, activity),
    ensures
        ({
            let x = polled(r, a).session;
            let w = hosted(r, a, activity).session;
            &&& x.status == w.status || x.status == SessionStatus::Stuck || x.status
                == SessionStatus::Killed && w.status == SessionStatus::Merged
            &&& x == (Session { status: x.status, cost: x.cost, ..w })
            &&& w.status == SessionStatus::Merged ==> x.status == if hosted(
                r,
                a,
                activity,
            ).manager.auto_terminate {
                SessionStatus::Killed
            } else {
                SessionStatus::Merged
            }
        }),
{
    lemma_stations(r, a, activity);
    let w = hosted(r, a, activity);
    let before = timed(r, a, activity).session.status;
    reveal(finished);
    reveal(stuck_checked);
    reveal(stuck_decided);
    reveal(terminated);
    let down = if w.session.status == SessionStatus::Merged {
        crate::lifecycle::tick::taken_down(w)
    } else {
        w
    };
    lemma_transition_knows(down, SessionStatus::Killed, Stage::Killed, a.to_killed);
    let (decided, stuck) = stuck_decided(down, Stage::Stuck, a.stuck);
    lemma_transition_knows(decided, SessionStatus::Stuck, Stage::Stuck, a.to_stuck);
    if decided.flow == Flow::Done && transitioned(
        decided,
        SessionStatus::Stuck,
        Stage::Stuck,
        a.to_stuck,
    ).flow == Flow::Done {
        crate::lifecycle::duties::lemma_transition_leads(
            decided,
            SessionStatus::Stuck,
            Stage::Stuck,
            a.to_stuck,
        );
    }
    if transitioned(down, SessionStatus::Killed, Stage::Killed, a.to_killed).flow == Flow::Done {
        crate::lifecycle::duties::lemma_transition_leads(
            down,
            SessionStatus::Killed,
            Stage::Killed,
            a.to_killed,
        );
    }
}

/// Among the effects from number `n` on the reaction under `key` is let run with `message`.
pub open spec fn tells(log: Seq<EffectView>, n: nat, key: Seq<char>, message: Seq<char>) -> bool {
    exists|i: int|
        n <= i < log.len() && (#[trigger] log[i] matches EffectView::DispatchWithMessage {
            key: k,
            message: m,
            ..
        } && k == key && m == message)
}

/// Among the effects from number `n` on the reaction under `key` is let run.
pub open spec fn reacts(log: Seq<EffectView>, n: nat, key: Seq<char>) -> bool {
    exists|i: int|
        n <= i < log.len() && (#[trigger] log[i] matches EffectView::Dispatch { key: k, .. } && k
            == key)
}

pub(crate) proof fn lemma_tells_still(
    a: Seq<EffectView>,
    b: Seq<EffectView>,
    n: nat,
    m: nat,
    key: Seq<char>,
    message: Seq<char>,
)
    requires
        begins_with(b, a),
        tells(a, n, key, message),
        m <= n,
    ensures
        tells(b, m, key, message),
{
    reveal(begins_with);
    let i = choose|i: int|
        n <= i < a.len() && (#[trigger] a[i] matches EffectView::DispatchWithMessage {
            key: k,
            message: t,
            ..
        } && k == key && t == message);
    assert(b[i] == a[i]);
}

pub(crate) proof fn lemma_reacts_still(
    a: Seq<EffectView>,
    b: Seq<EffectView>,
    n: nat,
    m: nat,
    key: Seq<char>,
)
    requires
        begins_with(b, a),
        reacts(a, n, key),
        m <= n,
    ensures
        reacts(b, m, key),
{
    reveal(begins_with);
    let i = choose|i: int|
        n <= i < a.len() && (#[trigger] a[i] matches EffectView::Dispatch { key: k, .. } && k
            == key);
    assert(b[i] == a[i]);
}

/// The review comments of the session were not asked for in the last two minutes.
pub open spec fn comments_due(r: Run, a: PollAnswers) -> bool {
    !r.manager.commented.dom().contains(r.session.id.0@) || a.scm.comments_now->0
        >= r.manager.commented[r.session.id.0@] + 120_000_000_000
}

/// A session whose pull request is under review, that is, one that is `ChangesRequested`,
/// `ReviewPending` or `Approved` after the poll, has had its review comments asked for. Where
/// there are some, and not the ones that it was told of last, it was told of all of them.
pub proof fn law_review_comments_reach_the_agent(
    r: Run,
    a: PollAnswers,
    activity: ActivityState,
    pr: PullRequest,
    list: Vec<ReviewComment>,
)
    requires
        sees(r, a, activity),
        reaches(r, a, pr),
        r.manager.keys is Some,
        comments_due(r, a),
        polled(r, a).session.status == SessionStatus::ChangesRequested || polled(r, a).session.status
            == SessionStatus::ReviewPending || polled(r, a).session.status
            == SessionStatus::Approved,
    ensures
        happens(polled(r, a).log, r.log.len(), EffectView::ListComments { pr }),
        a.scm.comments == Some(Ok::<Vec<ReviewComment>, String>(list)) && list@.len() > 0
            && r.session.last_review_backlog_fingerprint != Some(fingerprint(comment_rows(list@)))
            ==> {
            &&& tells(
                polled(r, a).log,
                r.log.len(),
                "changes-requested"@,
                comments_message(list@),
            )
            &&& polled(r, a).session.last_review_backlog_fingerprint == Some(
                fingerprint(comment_rows(list@)),
            )
        },
{
    broadcast use group_begins;

    let (k, o) = lemma_passes(r, a, activity, pr);
    lemma_ends_as_hosted(r, a, activity);
    let w = hosted(r, a, activity);
    let x = polled(r, a);
    lemma_passing_stations(k, o, pr, a.scm);
    let c = after_checks(k, o, pr, a.scm);
    let b = backlog_due(c, pr, a.scm);
    assert(begins_with(x.log, b.log));
    reveal(backlog_due);
    reveal(backlog_passed_on);
    let now = a.scm.comments_now->0;
    let timed = c.then_do(EffectView::ReadClock).knowing(
        ManagerView { commented: c.manager.commented.insert(c.session.id.0@, now), ..c.manager },
    );
    let asked = timed.then_do(EffectView::ListComments { pr });
    assert(b == backlog_passed_on(timed, pr, a.scm));
    lemma_backlog(timed, pr, a.scm, a.scm);
    assert(b.log[timed.log.len() as int] == (EffectView::ListComments { pr }));
    lemma_happens_still(b.log, x.log, r.log.len(), r.log.len(), EffectView::ListComments { pr });
    if a.scm.comments == Some(Ok::<Vec<ReviewComment>, String>(list)) && list@.len() > 0
        && r.session.last_review_backlog_fingerprint != Some(fingerprint(comment_rows(list@))) {
        assert(b.log[asked.log.len() as int] == (EffectView::DispatchWithMessage {
            session: c.session,
            key: "changes-requested"@,
            message: comments_message(list@),
        }));
        lemma_tells_still(
            b.log,
            x.log,
            r.log.len(),
            r.log.len(),
            "changes-requested"@,
            comments_message(list@),
        );
        assert(b.session.last_review_backlog_fingerprint == Some(
            fingerprint(comment_rows(list@)),
        ));
        assert(w.session.last_review_backlog_fingerprint
            == b.session.last_review_backlog_fingerprint) by {
            reveal(bots_passed_on);
        }
    }
}

/// A session whose checks fail after the poll has been told which of them do. Where that is not
/// known, or none of them does, it is told what is configured.
pub proof fn law_failing_checks_reach_the_agent(
    r: Run,
    a: PollAnswers,
    activity: ActivityState,
    pr: PullRequest,
    list: Vec<CheckRun>,
)
    requires
        sees(r, a, activity),
        reaches(r, a, pr),
        r.manager.keys is Some,
        polled(r, a).session.status == SessionStatus::CiFailed,
    ensures
        happens(polled(r, a).log, r.log.len(), EffectView::ListChecks { pr }),
        a.scm.checks == Some(Ok::<Vec<CheckRun>, String>(list)) && (exists|i: int|
            0 <= i < list@.len() && (#[trigger] list@[i]).status == CheckStatus::Failed) ==> tells(
            polled(r, a).log,
            r.log.len(),
            "ci-failed"@,
            checks_message(check_views(list@)),
        ),
        a.scm.checks == Some(Ok::<Vec<CheckRun>, String>(list)) && (forall|i: int|
            0 <= i < list@.len() ==> (#[trigger] list@[i]).status != CheckStatus::Failed)
            ==> reacts(polled(r, a).log, r.log.len(), "ci-failed"@),
        a.scm.checks matches Some(Err(_)) ==> reacts(
            polled(r, a).log,
            r.log.len(),
            "ci-failed"@,
        ),
{
    broadcast use group_begins;

    let (k, o) = lemma_passes(r, a, activity, pr);
    lemma_ends_as_hosted(r, a, activity);
    let w = hosted(r, a, activity);
    let x = polled(r, a);
    lemma_passing_stations(k, o, pr, a.scm);
    let c = after_conflicts(k, o, a.scm);
    let d = after_checks(k, o, pr, a.scm);
    assert(begins_with(x.log, d.log));
    reveal(checks_passed_on);
    let asked = c.then_do(EffectView::ListChecks { pr });
    assert(d == checks_passed_on(c, pr, a.scm));
    assert(d.log[c.log.len() as int] == (EffectView::ListChecks { pr }));
    lemma_happens_still(d.log, x.log, r.log.len(), r.log.len(), EffectView::ListChecks { pr });
    let views = check_views(list@);
    if a.scm.checks == Some(Ok::<Vec<CheckRun>, String>(list)) {
        if exists|i: int| 0 <= i < list@.len() && (#[trigger] list@[i]).status
            == CheckStatus::Failed {
            let i = choose|i: int|
                0 <= i < list@.len() && (#[trigger] list@[i]).status == CheckStatus::Failed;
            assert(views[i].status == CheckStatus::Failed);
            assert(d.log[asked.log.len() as int] == (EffectView::DispatchWithMessage {
                session: c.session,
                key: "ci-failed"@,
                message: checks_message(views),
            }));
            lemma_tells_still(
                d.log,
                x.log,
                r.log.len(),
                r.log.len(),
                "ci-failed"@,
                checks_message(views),
            );
        } else {
            assert forall|i: int| 0 <= i < views.len() implies (#[trigger] views[i]).status
                != CheckStatus::Failed by {
                assert(list@[i].status != CheckStatus::Failed);
            }
            assert(d.log[asked.log.len() as int] == (EffectView::Dispatch {
                session: c.session,
                key: "ci-failed"@,
            }));
            lemma_reacts_still(d.log, x.log, r.log.len(), r.log.len(), "ci-failed"@);
        }
    }
    if a.scm.checks matches Some(Err(_)) {
        assert(d.log[asked.log.len() as int] == (EffectView::Dispatch {
            session: c.session,
            key: "ci-failed"@,
        }));
        lemma_reacts_still(d.log, x.log, r.log.len(), r.log.len(), "ci-failed"@);
    }
}

/// Whatever the status of a session with a pull request, the comments of bots are asked for.
/// Where there are some, and not the ones that it was told of last, it is told of all of them.
pub proof fn law_bot_comments_reach_the_agent(
    r: Run,
    a: PollAnswers,
    activity: ActivityState,
    pr: PullRequest,
    list: Vec<AutomatedComment>,
)
    requires
        sees(r, a, activity),
        reaches(r, a, pr),
        r.manager.keys is Some,
    ensures
        happens(polled(r, a).log, r.log.len(), EffectView::ListAutomatedComments { pr }),
        a.scm.bot_comments == Some(Ok::<Vec<AutomatedComment>, String>(list)) && list@.len() > 0
            && r.session.last_automated_review_dispatch_hash != Some(
            fingerprint(automated_rows(list@)),
        ) ==> {
            &&& tells(
                polled(r, a).log,
                r.log.len(),
                "bugbot-comments"@,
                automated_message(list@),
            )
            &&& polled(r, a).session.last_automated_review_dispatch_hash == Some(
                fingerprint(automated_rows(list@)),
            )
        },
        a.scm.bot_comments == Some(Ok::<Vec<AutomatedComment>, String>(list)) && list@.len() == 0
            ==> polled(r, a).session.last_automated_review_dispatch_hash is None,
{
    broadcast use group_begins;

    let (k, o) = lemma_passes(r, a, activity, pr);
    lemma_ends_as_hosted(r, a, activity);
    let w = hosted(r, a, activity);
    let x = polled(r, a);
    lemma_passing_stations(k, o, pr, a.scm);
    let b = backlog_due(after_checks(k, o, pr, a.scm), pr, a.scm);
    reveal(bots_passed_on);
    assert(w == bots_passed_on(b, pr, a.scm));
    assert(b.session.last_automated_review_dispatch_hash
        == r.session.last_automated_review_dispatch_hash) by {
        reveal(backlog_due);
        reveal(backlog_passed_on);
    }
    assert(w.log[b.log.len() as int] == (EffectView::ListAutomatedComments { pr }));
    lemma_happens_still(
        w.log,
        x.log,
        r.log.len(),
        r.log.len(),
        EffectView::ListAutomatedComments { pr },
    );
    if a.scm.bot_comments == Some(Ok::<Vec<AutomatedComment>, String>(list)) && list@.len() > 0
        && r.session.last_automated_review_dispatch_hash != Some(
        fingerprint(automated_rows(list@)),
    ) {
        let print = fingerprint(automated_rows(list@));
        let seen = crate::lifecycle::scm_poll::bots_seen(
            b.then_do(EffectView::ListAutomatedComments { pr }),
            print,
        );
        assert(w.log[seen.log.len() as int] == (EffectView::DispatchWithMessage {
            session: seen.session,
            key: "bugbot-comments"@,
            message: automated_message(list@),
        }));
        lemma_tells_still(
            w.log,
            x.log,
            r.log.len(),
            r.log.len(),
            "bugbot-comments"@,
            automated_message(list@),
        );
    }
}

/// What was observed of the pull request.
pub open spec fn seen_of(r: Run, a: PollAnswers, pr: PullRequest) -> ObservationView {
    if r.manager.enriched.dom().contains(pr_key(pr)) {
        r.manager.enriched[pr_key(pr)].observation
    } else {
        ObservationView {
            state: a.scm.probes->0.state->Ok_0,
            ci: a.scm.probes->0.ci->Ok_0,
            review: a.scm.probes->0.review->Ok_0,
            readiness: a.scm.probes->0.readiness->Ok_0@,
        }
    }
}

/// A pull request that cannot be merged because of conflicts is passed on to the agent of a
/// session that is `PrOpen`, `CiFailed`, `ReviewPending`, `ChangesRequested`, `Approved` or
/// `Mergeable` after the poll, unless that was done before.
pub proof fn law_conflicts_reach_the_agent(
    r: Run,
    a: PollAnswers,
    activity: ActivityState,
    pr: PullRequest,
)
    requires
        sees(r, a, activity),
        reaches(r, a, pr),
        r.manager.keys is Some,
        r.session.last_merge_conflict_dispatched != Some(true),
        !seen_of(r, a, pr).readiness.no_conflicts,
        match polled(r, a).session.status {
            SessionStatus::PrOpen => true,
            SessionStatus::CiFailed => true,
            SessionStatus::ReviewPending => true,
            SessionStatus::ChangesRequested => true,
            SessionStatus::Approved => true,
            SessionStatus::Mergeable => true,
            _ => false,
        },
    ensures
        reacts(polled(r, a).log, r.log.len(), "merge-conflicts"@),
        a.scm.conflict_dispatched matches Some(Ok(Some(_))) ==> polled(
            r,
            a,
        ).session.last_merge_conflict_dispatched == Some(true),
{
    broadcast use group_begins;

    let (k, o) = lemma_passes(r, a, activity, pr);
    lemma_ends_as_hosted(r, a, activity);
    let w = hosted(r, a, activity);
    let x = polled(r, a);
    lemma_passing_stations(k, o, pr, a.scm);
    let c = after_conflicts(k, o, a.scm);
    assert(begins_with(x.log, c.log));
    assert(o->0 == seen_of(r, a, pr));
    reveal(conflicts_checked);
    assert(c.log[k.log.len() as int] == (EffectView::Dispatch {
        session: k.session,
        key: "merge-conflicts"@,
    }));
    lemma_reacts_still(c.log, x.log, r.log.len(), r.log.len(), "merge-conflicts"@);
    assert(w.session.last_merge_conflict_dispatched == c.session.last_merge_conflict_dispatched)
        by {
        reveal(bots_passed_on);
        reveal(backlog_due);
        reveal(backlog_passed_on);
    }
}

} // verus!
