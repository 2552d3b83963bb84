//! What a poll owes to the agent, to its session and to those who watch it.

use vstd::prelude::*;

use crate::events::EventView;
use crate::lifecycle::effects::{EffectView, Flow, PollAnswers, ScmAnswers, Stage, TransitionAnswers};
use crate::lifecycle::replay::{
    begins_with, group_begins, lemma_activity_kept, lemma_finished, lemma_idle_updated,
    lemma_scm_polled, lemma_transitioned,
};
use crate::lifecycle::scm_poll::{
    all_probed, backlog_due, backlog_passed_on, bots_passed_on, checks_passed_on, claimed, erred,
    failures, found, observed, passed_on, pr_key, probed, review_stable, scm_polled,
    status_followed, throttled,
};
use crate::lifecycle::stuck::{conflicts_checked, idle_updated, stuck_checked, stuck_decided};
use crate::lifecycle::tick::{
    activity_kept, at_work, finished, live, moved, polled, wakes, watched,
};
use crate::lifecycle::trail::{adds_up, leads, same_origin, trail};
use crate::lifecycle::transition::{
    merged_and_settled, reacted, settled, settled_and_reacted, transitioned,
};
use crate::lifecycle::{ManagerView, Run};
use crate::reactions::{duration_secs, ReactionConfig};
use crate::scm::{ObservationView, PullRequest};
use crate::text::joined;
use crate::types::{ActivityState, Session, SessionStatus};

verus! {

/// Among the effects from number `n` on is `e`.
pub open spec fn happens(log: Seq<EffectView>, n: nat, e: EffectView) -> bool {
    exists|i: int| n <= i < log.len() && #[trigger] log[i] == e
}

/// Among the effects from number `n` on a change of status to `to` is announced.
pub open spec fn changes_to(log: Seq<EffectView>, n: nat, to: SessionStatus) -> bool {
    exists|i: int|
        n <= i < log.len() && (#[trigger] log[i] matches EffectView::Emit(
            EventView::StatusChanged { to: t, .. },
        ) && t == to)
}

/// The poll got through to an agent that is seen doing `activity`.
pub open spec fn sees(r: Run, a: PollAnswers, activity: ActivityState) -> bool {
    &&& r.flow == Flow::Done
    &&& r.session.runtime_handle is Some
    &&& a.alive == Some(Ok::<bool, String>(true))
    &&& a.activity == Some(Ok::<ActivityState, String>(activity))
    &&& activity != ActivityState::Exited
    &&& polled(r, a).flow == Flow::Done
}

/// What happened stays so.
pub(crate) proof fn lemma_happens_still(
    a: Seq<EffectView>,
    b: Seq<EffectView>,
    n: nat,
    m: nat,
    e: EffectView,
)
    requires
        begins_with(b, a),
        happens(a, n, e),
        m <= n,
    ensures
        happens(b, m, e),
{
    reveal(begins_with);
    let i = choose|i: int| n <= i < a.len() && #[trigger] a[i] == e;
    assert(b[i] == e);
}

/// A change that was announced stays so.
pub(crate) proof fn lemma_changes_still(
    a: Seq<EffectView>,
    b: Seq<EffectView>,
    n: nat,
    m: nat,
    to: SessionStatus,
)
    requires
        begins_with(b, a),
        changes_to(a, n, to),
        m <= n,
    ensures
        changes_to(b, m, to),
{
    reveal(begins_with);
    let i = choose|i: int|
        n <= i < a.len() && (#[trigger] a[i] matches EffectView::Emit(
            EventView::StatusChanged { to: t, .. },
        ) && t == to);
    assert(b[i] == a[i]);
}

/// The poll as it has come through what the agent does.
pub(crate) open spec fn timed(r: Run, a: PollAnswers, activity: ActivityState) -> Run {
    let seen = r.then_do(
        EffectView::IsAlive { handle: r.session.runtime_handle->0@ },
    ).then_do(EffectView::DetectActivity { session: r.session });
    let asked = if activity == ActivityState::WaitingInput && r.session.status
        != SessionStatus::NeedsInput {
        transitioned(seen, SessionStatus::NeedsInput, Stage::NeedsInput, a.to_needs_input)
    } else {
        seen
    };
    idle_updated(activity_kept(asked, activity, a.activity_saved), activity, a.idle_now)
}

/// The poll as it comes to the code host.
pub(crate) open spec fn arrived(r: Run, a: PollAnswers, activity: ActivityState) -> Run {
    let t = timed(r, a, activity);
    if wakes(t.session.status) && at_work(activity) {
        transitioned(t, SessionStatus::Working, Stage::Working, a.to_working)
    } else {
        t
    }
}

/// The poll as it leaves the code host.
pub(crate) open spec fn hosted(r: Run, a: PollAnswers, activity: ActivityState) -> Run {
    if r.manager.scm {
        scm_polled(arrived(r, a, activity), a.scm)
    } else {
        arrived(r, a, activity)
    }
}

/// A transition leaves alone what the lifecycle knows.
pub(crate) proof fn lemma_transition_knows(r: Run, to: SessionStatus, stage: Stage, a: TransitionAnswers)
    ensures
        transitioned(r, to, stage, a).manager == r.manager,
        transitioned(r, to, stage, a).session == (Session {
            status: transitioned(r, to, stage, a).session.status,
            cost: transitioned(r, to, stage, a).session.cost,
            ..r.session
        }),
{
    reveal(transitioned);
    reveal(reacted);
    reveal(settled_and_reacted);
    reveal(merged_and_settled);
    reveal(settled);
}

/// A transition to anything but `Mergeable` that gets through leads there, and says so.
pub(crate) proof fn lemma_transition_leads(r: Run, to: SessionStatus, stage: Stage, a: TransitionAnswers)
    requires
        r.flow == Flow::Done,
        to != SessionStatus::Mergeable,
        transitioned(r, to, stage, a).flow == Flow::Done,
    ensures
        transitioned(r, to, stage, a).session.status == to,
        r.session.status != to ==> happens(
            transitioned(r, to, stage, a).log,
            r.log.len(),
            EffectView::Emit(
                EventView::StatusChanged {
                    id: r.session.id.0@,
                    from: r.session.status,
                    to,
                },
            ),
        ),
{
    reveal(transitioned);
    reveal(reacted);
    reveal(settled_and_reacted);
    reveal(settled);
    if r.session.status != to {
        let x = transitioned(r, to, stage, a);
        let e = EffectView::Emit(
            EventView::StatusChanged { id: r.session.id.0@, from: r.session.status, to },
        );
        let paid = crate::lifecycle::transition::costed(
            r.with(Session { status: to, ..r.session }).then_do(
                EffectView::EstimateCost { session: Session { status: to, ..r.session } },
            ),
            a.cost->0,
        );
        assert(x.log[(paid.log.len() + 1) as int] == e);
    }
}

/// How a poll that gets through comes about.
pub(crate) proof fn lemma_stations(r: Run, a: PollAnswers, activity: ActivityState)
    requires
        sees(r, a, activity),
    ensures
        ({
            let t = timed(r, a, activity);
            let v = arrived(r, a, activity);
            let w = hosted(r, a, activity);
            &&& t.flow == Flow::Done
            &&& v.flow == Flow::Done
            &&& w.flow == Flow::Done
            &&& polled(r, a) == finished(w, t.session.status, a)
            &&& begins_with(t.log, r.log)
            &&& begins_with(v.log, t.log)
            &&& begins_with(w.log, v.log)
            &&& begins_with(polled(r, a).log, w.log)
            &&& r.log.len() <= t.log.len() <= v.log.len() <= w.log.len() <= polled(r, a).log.len()
            &&& t.manager == (ManagerView { idle_since: t.manager.idle_since, ..r.manager })
            &&& v.manager == t.manager
            &&& v.session.id == r.session.id
            &&& v.session == (Session {
                status: v.session.status,
                activity: Some(activity),
                cost: v.session.cost,
                ..r.session
            })
            &&& !(activity == ActivityState::WaitingInput && r.session.status
                != SessionStatus::NeedsInput) ==> t.session.status == r.session.status
        }),
{
    broadcast use group_begins;

    reveal(polled);
    reveal(live);
    reveal(watched);
    reveal(moved);
    let first = r.then_do(EffectView::IsAlive { handle: r.session.runtime_handle->0@ });
    let seen = first.then_do(EffectView::DetectActivity { session: r.session });
    assert(begins_with(first.log, r.log));
    assert(begins_with(seen.log, r.log));
    let asked = if activity == ActivityState::WaitingInput && r.session.status
        != SessionStatus::NeedsInput {
        transitioned(seen, SessionStatus::NeedsInput, Stage::NeedsInput, a.to_needs_input)
    } else {
        seen
    };
    lemma_transitioned(
        seen,
        SessionStatus::NeedsInput,
        Stage::NeedsInput,
        a.to_needs_input,
        a.to_needs_input,
    );
    lemma_transition_knows(seen, SessionStatus::NeedsInput, Stage::NeedsInput, a.to_needs_input);
    assert(begins_with(asked.log, r.log));
    let kept = activity_kept(asked, activity, a.activity_saved);
    lemma_activity_kept(asked, activity, a.activity_saved, a.activity_saved);
    lemma_idle_updated(kept, activity, a.idle_now, a.idle_now);
    let t = timed(r, a, activity);
    assert(t == idle_updated(kept, activity, a.idle_now));
    lemma_transitioned(t, SessionStatus::Working, Stage::Working, a.to_working, a.to_working);
    lemma_transition_knows(t, SessionStatus::Working, Stage::Working, a.to_working);
    let v = arrived(r, a, activity);
    lemma_scm_polled(v, a.scm, a.scm);
    let w = hosted(r, a, activity);
    lemma_finished(w, t.session.status, a, a);
    reveal(begins_with);
}

/// With which status a poll comes to the code host: with the one it began with, unless the agent
/// waits for input or has come back to work.
pub(crate) proof fn lemma_arrival(r: Run, a: PollAnswers, activity: ActivityState)
    requires
        sees(r, a, activity),
    ensures
        ({
            let s = arrived(r, a, activity).session.status;
            ||| s == r.session.status
            ||| s == SessionStatus::NeedsInput
            ||| s == SessionStatus::Working
        }),
{
    lemma_stations(r, a, activity);
    let t = timed(r, a, activity);
    let seen = r.then_do(
        EffectView::IsAlive { handle: r.session.runtime_handle->0@ },
    ).then_do(EffectView::DetectActivity { session: r.session });
    let to = SessionStatus::NeedsInput;
    let asked = transitioned(seen, to, Stage::NeedsInput, a.to_needs_input);
    if asked.flow == Flow::Done {
        lemma_transition_leads(seen, to, Stage::NeedsInput, a.to_needs_input);
    }
    let back = transitioned(t, SessionStatus::Working, Stage::Working, a.to_working);
    if back.flow == Flow::Done {
        lemma_transition_leads(t, SessionStatus::Working, Stage::Working, a.to_working);
    }
}

/// Announcements that lead to another status name it.
pub(crate) proof fn lemma_trail_names(log: Seq<EffectView>, n: nat, id: Seq<char>, status: SessionStatus)
    requires
        trail(log, n, id, status) is Some,
        trail(log, n, id, status)->0.status != status,
    ensures
        changes_to(log, n, trail(log, n, id, status)->0.status),
    decreases log.len(),
{
    let t = trail(log, n, id, status)->0;
    if log.len() > n {
        let before = log.drop_last();
        if trail(before, n, id, status)->0.status == t.status {
            lemma_trail_names(before, n, id, status);
            let i = choose|i: int|
                n <= i < before.len() && (#[trigger] before[i] matches EffectView::Emit(
                    EventView::StatusChanged { to, .. },
                ) && to == t.status);
            assert(log[i] == before[i]);
        } else {
            assert(log[log.len() - 1] == log.last());
        }
    }
}

/// A poll of the code host that leads to another status announces it.
pub(crate) proof fn lemma_host_announces(r: Run, a: ScmAnswers)
    requires
        r.flow == Flow::Done,
        scm_polled(r, a).flow == Flow::Done,
        scm_polled(r, a).session.status != r.session.status,
    ensures
        changes_to(scm_polled(r, a).log, r.log.len(), scm_polled(r, a).session.status),
{
    assert(crate::lifecycle::trail::under_way(r, r)) by {
        reveal(leads);
    }
    crate::lifecycle::trail::lemma_scm_polled(r, r, a);
    reveal(adds_up);
    lemma_trail_names(scm_polled(r, a).log, r.log.len(), r.session.id.0@, r.session.status);
}

/// The session is what it was but for what was passed on to it, and nothing new is known but for
/// when its comments were asked for.
pub(crate) open spec fn keeps(r: Run, x: Run) -> bool {
    &&& x.manager == (ManagerView { commented: x.manager.commented, ..r.manager })
    &&& x.session == (Session {
        last_merge_conflict_dispatched: x.session.last_merge_conflict_dispatched,
        last_review_backlog_fingerprint: x.session.last_review_backlog_fingerprint,
        last_automated_review_fingerprint: x.session.last_automated_review_fingerprint,
        last_automated_review_dispatch_hash: x.session.last_automated_review_dispatch_hash,
        ..r.session
    })
}

pub(crate) proof fn lemma_conflicts_keep(r: Run, observation: Option<ObservationView>, a: ScmAnswers)
    ensures
        ({
            let x = conflicts_checked(r, observation, a.conflict_dispatched, a.conflict_saved);
            &&& keeps(r, x)
            &&& x.manager == r.manager
            &&& x.session == (Session {
                last_merge_conflict_dispatched: x.session.last_merge_conflict_dispatched,
                ..r.session
            })
        }),
{
    reveal(conflicts_checked);
}

pub(crate) proof fn lemma_checks_keep(r: Run, pr: PullRequest, a: ScmAnswers)
    ensures
        checks_passed_on(r, pr, a).session == r.session,
        checks_passed_on(r, pr, a).manager == r.manager,
{
    reveal(checks_passed_on);
}

pub(crate) proof fn lemma_backlog_keeps(r: Run, pr: PullRequest, a: ScmAnswers)
    ensures
        keeps(r, backlog_passed_on(r, pr, a)),
{
    reveal(backlog_passed_on);
}

pub(crate) proof fn lemma_backlog_due_keeps(r: Run, pr: PullRequest, a: ScmAnswers)
    ensures
        keeps(r, backlog_due(r, pr, a)),
{
    reveal(backlog_due);
    if let Some(now) = a.comments_now {
        let m = r.manager;
        lemma_backlog_keeps(
            r.then_do(EffectView::ReadClock).knowing(
                ManagerView { commented: m.commented.insert(r.session.id.0@, now), ..m },
            ),
            pr,
            a,
        );
    }
}

pub(crate) proof fn lemma_bots_keep(r: Run, pr: PullRequest, a: ScmAnswers)
    ensures
        keeps(r, bots_passed_on(r, pr, a)),
{
    reveal(bots_passed_on);
}

/// Passing things on leaves the status alone.
pub(crate) proof fn lemma_passing_on_keeps(
    r: Run,
    observation: Option<ObservationView>,
    pr: Option<PullRequest>,
    a: ScmAnswers,
)
    ensures
        keeps(r, passed_on(r, observation, pr, a)),
{
    reveal(passed_on);
    lemma_conflicts_keep(r, observation, a);
    let conflicts = conflicts_checked(r, observation, a.conflict_dispatched, a.conflict_saved);
    if let Some(p) = pr {
        lemma_checks_keep(conflicts, p, a);
        let checks = if conflicts.session.status == SessionStatus::CiFailed {
            checks_passed_on(conflicts, p, a)
        } else {
            conflicts
        };
        lemma_backlog_due_keeps(checks, p, a);
        lemma_bots_keep(backlog_due(checks, p, a), p, a);
    }
}

/// To which statuses a poll of the code host can lead.
pub(crate) open spec fn within_reach(from: SessionStatus, a: ScmAnswers, to: SessionStatus) -> bool {
    ||| to == from
    ||| a.derived == Some(Some(to))
    ||| a.derived == Some(Some(SessionStatus::PrOpen)) && to == SessionStatus::Stuck
    ||| a.derived == Some(Some(SessionStatus::Mergeable)) && to == SessionStatus::MergeFailed
}

pub(crate) proof fn lemma_following(
    r: Run,
    observation: Option<ObservationView>,
    pr: Option<PullRequest>,
    a: ScmAnswers,
)
    requires
        r.flow == Flow::Done,
        status_followed(r, observation, pr, a).flow == Flow::Done,
    ensures
        ({
            let x = status_followed(r, observation, pr, a);
            &&& within_reach(r.session.status, a, x.session.status)
            &&& x.manager.idle_since == r.manager.idle_since
            &&& x.manager.keys == r.manager.keys
            &&& x.manager.workspace == r.manager.workspace
            &&& x.manager.auto_terminate == r.manager.auto_terminate
        }),
{
    reveal(status_followed);
    let asked = r.then_do(EffectView::DeriveStatus { current: r.session.status, observation });
    lemma_passing_on_keeps(asked, observation, pr, a);
    if let Some(Some(next)) = a.derived {
        let (decided, stuck) = if next == SessionStatus::PrOpen {
            stuck_decided(asked, Stage::Scm, a.stuck)
        } else {
            (asked, false)
        };
        assert(decided.session == asked.session && decided.manager == asked.manager) by {
            reveal(stuck_decided);
        }
        let to = if stuck {
            SessionStatus::Stuck
        } else {
            next
        };
        let x = transitioned(decided, to, Stage::Scm, a.transition);
        lemma_transition_knows(decided, to, Stage::Scm, a.transition);
        lemma_passing_on_keeps(x, observation, pr, a);
        assert(x.flow == Flow::Done ==> x.session.status == to || to == SessionStatus::Mergeable
            && x.session.status == SessionStatus::MergeFailed) by {
            reveal(transitioned);
            reveal(reacted);
            reveal(settled_and_reacted);
            reveal(merged_and_settled);
            reveal(settled);
        }
    }
}

/// The pull request that the poll works with: the one that this tick has found, or else the one
/// that the code host names.
pub open spec fn pr_of(r: Run, a: ScmAnswers) -> Option<PullRequest> {
    let id = r.session.id.0@;
    if r.manager.detected.dom().contains(id) {
        r.manager.detected[id]
    } else {
        match a.detected {
            Some(Ok(pr)) => pr,
            _ => None,
        }
    }
}

/// The code host could be asked for the pull request, or that was done before.
pub open spec fn pr_known(r: Run, a: ScmAnswers) -> bool {
    r.manager.detected.dom().contains(r.session.id.0@) || a.detected matches Some(Ok(_))
}

/// The poll of the code host once it is known whether there is a pull request.
pub(crate) open spec fn searched(r: Run, a: ScmAnswers) -> Run {
    let id = r.session.id.0@;
    let m = r.manager;
    if m.detected.dom().contains(id) {
        r.knowing(ManagerView { detected: m.detected.remove(id), ..m })
    } else {
        r.then_do(EffectView::DetectPr { session: r.session })
    }
}

/// The poll of the code host once the session has its pull request.
pub(crate) open spec fn provided(r: Run, pr: PullRequest) -> Run {
    let s = claimed(r.session, pr);
    r.with(s).then_do(EffectView::Save { session: s })
}

/// The poll of the code host once the pull request was probed.
pub(crate) open spec fn looked_at(r: Run, pr: PullRequest, a: ScmAnswers) -> Run {
    r.then_do(EffectView::ProbePr { pr }).then_do(EffectView::ReadClock).knowing(
        ManagerView {
            probed: r.manager.probed.insert(r.session.id.0@, a.probed_at->0),
            ..r.manager
        },
    )
}

/// The session under review was probed less than two minutes ago.
pub open spec fn too_soon(r: Run, a: ScmAnswers) -> bool {
    &&& r.session.status == SessionStatus::ReviewPending || r.session.status
        == SessionStatus::ChangesRequested || r.session.status == SessionStatus::Approved
    &&& r.manager.probed.dom().contains(r.session.id.0@)
    &&& a.throttle_now->0 < r.manager.probed[r.session.id.0@] + 120_000_000_000
}

/// The poll of the code host as it comes to the status, and what was observed by then; nothing,
/// if it does not come so far.
pub(crate) open spec fn entry(r: Run, a: ScmAnswers) -> Option<(Run, Option<ObservationView>)> {
    let k = searched(r, a);
    if !pr_known(r, a) {
        None
    } else {
        match pr_of(r, a) {
            None => Some((k, None)),
            Some(pr) => {
                let p = provided(k, pr);
                let key = pr_key(pr);
                let m = r.manager;
                if m.enriched.dom().contains(key) {
                    Some(
                        (
                            p.knowing(
                                ManagerView { enriched: m.enriched.remove(key), ..p.manager },
                            ),
                            Some(m.enriched[key].observation),
                        ),
                    )
                } else if too_soon(r, a) || !all_probed(a.probes->0) {
                    None
                } else if review_stable(r.session.status) && m.probed.dom().contains(
                    r.session.id.0@,
                ) {
                    Some(
                        (
                            looked_at(p.then_do(EffectView::ReadClock), pr, a),
                            Some(observed(a.probes->0)),
                        ),
                    )
                } else {
                    Some((looked_at(p, pr, a), Some(observed(a.probes->0))))
                }
            },
        }
    }
}

pub(crate) proof fn lemma_probing(r: Run, pr: PullRequest, a: ScmAnswers)
    requires
        r.flow == Flow::Done,
        throttled(r, pr, a).flow == Flow::Done,
    ensures
        ({
            let timed = if review_stable(r.session.status) && r.manager.probed.dom().contains(
                r.session.id.0@,
            ) {
                r.then_do(EffectView::ReadClock)
            } else {
                r
            };
            let x = throttled(r, pr, a);
            &&& too_soon(r, a) ==> x == timed
            &&& !too_soon(r, a) ==> {
                &&& a.probes is Some
                &&& all_probed(a.probes->0) ==> x == status_followed(
                    looked_at(timed, pr, a),
                    Some(observed(a.probes->0)),
                    Some(pr),
                    a,
                )
                &&& !all_probed(a.probes->0) ==> x == erred(
                    looked_at(timed, pr, a),
                    "scm probes: "@ + joined(failures(a.probes->0), "; "@),
                )
            }
        }),
{
    reveal(throttled);
    reveal(probed);
}

/// How a poll of the code host that gets through comes about.
pub(crate) proof fn lemma_host_stations(r: Run, a: ScmAnswers)
    requires
        r.flow == Flow::Done,
        !r.session.status.terminal(),
        scm_polled(r, a).flow == Flow::Done,
    ensures
        ({
            let x = scm_polled(r, a);
            match entry(r, a) {
                Some((k, o)) => {
                    &&& x == status_followed(k, o, pr_of(r, a), a)
                    &&& k.flow == Flow::Done
                    &&& begins_with(k.log, r.log)
                    &&& k.session == match pr_of(r, a) {
                        Some(pr) => claimed(r.session, pr),
                        None => r.session,
                    }
                    &&& k.manager == (ManagerView {
                        detected: k.manager.detected,
                        enriched: k.manager.enriched,
                        probed: k.manager.probed,
                        ..r.manager
                    })
                    &&& o is Some <==> pr_of(r, a) is Some
                },
                None => {
                    &&& x.session == match pr_of(r, a) {
                        Some(pr) => claimed(r.session, pr),
                        None => r.session,
                    }
                    &&& x.manager == (ManagerView {
                        detected: x.manager.detected,
                        enriched: x.manager.enriched,
                        probed: x.manager.probed,
                        ..r.manager
                    })
                },
            }
        }),
{
    broadcast use group_begins;

    reveal(scm_polled);
    reveal(found);
    let k = searched(r, a);
    assert(begins_with(k.log, r.log));
    if pr_known(r, a) {
        assert(scm_polled(r, a) == found(k, pr_of(r, a), a));
        if let Some(pr) = pr_of(r, a) {
            let p = provided(k, pr);
            assert(begins_with(p.log, r.log));
            let q = p.then_do(EffectView::ReadClock);
            assert(begins_with(q.log, r.log));
            assert(begins_with(looked_at(p, pr, a).log, p.log)) by {
                assert(begins_with(p.then_do(EffectView::ProbePr { pr }).log, p.log));
            }
            assert(begins_with(looked_at(q, pr, a).log, q.log)) by {
                assert(begins_with(q.then_do(EffectView::ProbePr { pr }).log, q.log));
            }
            if !r.manager.enriched.dom().contains(pr_key(pr)) {
                lemma_probing(p, pr, a);
            }
        }
    }
}

/// What a poll of the code host can make of a session.
pub(crate) proof fn lemma_host_reaches(r: Run, a: ScmAnswers)
    requires
        r.flow == Flow::Done,
        scm_polled(r, a).flow == Flow::Done,
    ensures
        ({
            let x = scm_polled(r, a);
            &&& within_reach(r.session.status, a, x.session.status)
            &&& x.manager.idle_since == r.manager.idle_since
            &&& x.manager.keys == r.manager.keys
            &&& x.manager.workspace == r.manager.workspace
            &&& x.manager.auto_terminate == r.manager.auto_terminate
            &&& x.session.id == r.session.id
            &&& x.session.runtime_handle == r.session.runtime_handle
            &&& x.session.workspace_path == r.session.workspace_path
        }),
{
    assert(crate::lifecycle::trail::under_way(r, r)) by {
        reveal(leads);
    }
    crate::lifecycle::trail::lemma_scm_polled(r, r, a);
    assert(same_origin(scm_polled(r, a).session, r.session)) by {
        reveal(adds_up);
    }
    if r.session.status.terminal() {
        reveal(scm_polled);
    } else {
        lemma_host_stations(r, a);
        if let Some((k, o)) = entry(r, a) {
            lemma_following(k, o, pr_of(r, a), a);
        }
    }
}

/// An agent is expected to work in this status: it has a task, or a pull request that is not
/// merged yet.
pub open spec fn owes_work(status: SessionStatus) -> bool {
    match status {
        SessionStatus::Working => true,
        SessionStatus::PrOpen => true,
        SessionStatus::CiFailed => true,
        SessionStatus::ReviewPending => true,
        SessionStatus::ChangesRequested => true,
        SessionStatus::Approved => true,
        SessionStatus::Mergeable => true,
        SessionStatus::Spawning => false,
        SessionStatus::NeedsInput => false,
        SessionStatus::Idle => false,
        SessionStatus::Stuck => false,
        SessionStatus::MergeFailed => false,
        SessionStatus::Cleanup => false,
        SessionStatus::Merged => false,
        SessionStatus::Killed => false,
        SessionStatus::Terminated => false,
        SessionStatus::Done => false,
        SessionStatus::Errored => false,
    }
}

/// Since when the agent has been idle, once it was seen so in this poll.
pub open spec fn idle_from(r: Run, a: PollAnswers) -> u64 {
    if r.manager.idle_since.dom().contains(r.session.id.0@) {
        r.manager.idle_since[r.session.id.0@]
    } else {
        a.idle_now->0
    }
}

/// An agent of which work is expected, and that has been idle or blocked for longer than the
/// reaction to stuck agents allows, is stuck after the poll; one that has not is not. It does not
/// matter what else is configured, as long as no other change of status comes first.
pub proof fn law_silent_agent_becomes_stuck(
    r: Run,
    a: PollAnswers,
    activity: ActivityState,
    c: ReactionConfig,
    raw: String,
    secs: nat,
    now: u64,
)
    requires
        sees(r, a, activity),
        activity == ActivityState::Idle || activity == ActivityState::Blocked,
        r.manager.keys is Some,
        owes_work(r.session.status),
        a.stuck.reaction == Some(Some(c)),
        c.threshold == Some(raw),
        duration_secs(raw@) == Some(secs),
        secs <= u64::MAX,
        a.stuck.now == Some(now),
        forall|to: SessionStatus|
            to != SessionStatus::Stuck ==> !changes_to(polled(r, a).log, r.log.len(), to),
    ensures
        now > idle_from(r, a) + secs * 1_000_000_000 ==> {
            &&& polled(r, a).session.status == SessionStatus::Stuck
            &&& changes_to(polled(r, a).log, r.log.len(), SessionStatus::Stuck)
        },
        now <= idle_from(r, a) + secs * 1_000_000_000 && !(r.manager.scm && (a.scm.derived == Some(
            Some(SessionStatus::Stuck),
        ) || a.scm.derived == Some(Some(SessionStatus::PrOpen)))) ==> polled(r, a).session.status
            == r.session.status,
{
    lemma_stations(r, a, activity);
    let t = timed(r, a, activity);
    let v = arrived(r, a, activity);
    let w = hosted(r, a, activity);
    let x = polled(r, a);
    let id = r.session.id.0@;
    assert(v == t);
    assert(t.manager.idle_since.dom().contains(id) && t.manager.idle_since[id] == idle_from(r, a));
    if r.manager.scm {
        lemma_host_reaches(v, a.scm);
        if w.session.status != r.session.status {
            lemma_host_announces(v, a.scm);
            lemma_changes_still(w.log, x.log, v.log.len(), r.log.len(), w.session.status);
        }
    }
    assert(w.session.status == r.session.status || w.session.status == SessionStatus::Stuck);
    assert(w.manager.idle_since == t.manager.idle_since && w.manager.keys is Some);
    reveal(finished);
    reveal(stuck_checked);
    reveal(stuck_decided);
    if w.session.status == r.session.status {
        let (decided, stuck) = stuck_decided(w, Stage::Stuck, a.stuck);
        assert(x == stuck_checked(w, a.stuck, a.to_stuck));
        assert(decided.flow == Flow::Done);
        assert(stuck == (now > idle_from(r, a) + secs * 1_000_000_000));
        if stuck {
            lemma_transition_leads(decided, SessionStatus::Stuck, Stage::Stuck, a.to_stuck);
            let e = EffectView::Emit(
                EventView::StatusChanged {
                    id,
                    from: r.session.status,
                    to: SessionStatus::Stuck,
                },
            );
            let i = choose|i: int|
                decided.log.len() <= i < x.log.len() && #[trigger] x.log[i] == e;
            assert(x.log[i] == e);
        }
    }
}

} // verus!
