//! What a tick owes to the sessions and to those who watch them.

use vstd::prelude::*;

use crate::dashboard_payload::{dashboard_pr, EnrichmentView};
use crate::events::EventView;
use crate::lifecycle::branches::{refreshed_one, Refreshed};
use crate::lifecycle::cycle::{visited_one, TickFlow, Visits};
use crate::lifecycle::duties::happens;
use crate::lifecycle::effects::{EffectView, Flow, PollAnswers};
use crate::lifecycle::fleet::{
    announcement, begun, detected_all, detected_one, has_pr, lost, told_one, visited, BeginFlow,
    DetectAnswers, Telling,
};
use crate::lifecycle::refresh::{goes_on, law_agent_is_followed};
use crate::lifecycle::replay::law_poll_goes_on;
use crate::lifecycle::resume::{lemma_begun_from, lemma_detected, lemma_lost};
use crate::lifecycle::scm_poll::pr_key;
use crate::lifecycle::setup::{initial, leftovers};
use crate::lifecycle::tick::polled;
use crate::lifecycle::{ManagerView, Run};
use crate::scm::{PrState, PullRequest};
use crate::types::{Session, SessionStatus};

verus! {

proof fn lemma_happens_on(a: Seq<EffectView>, b: Seq<EffectView>, n: nat, e: EffectView)
    requires
        a.is_prefix_of(b),
        happens(a, n, e),
    ensures
        happens(b, n, e),
{
    let i = choose|i: int| n <= i < a.len() && #[trigger] a[i] == e;
    assert(b[i] == a[i]);
}

proof fn lemma_looked_for(
    log: Seq<EffectView>,
    sessions: Seq<Session>,
    skipped: Map<Seq<char>, ()>,
    answers: Seq<Result<Option<PullRequest>, String>>,
)
    requires
        !detected_all(log, sessions, skipped, answers).waiting,
    ensures
        ({
            let d = detected_all(log, sessions, skipped, answers);
            &&& forall|i: int|
                #![trigger sessions[i]]
                0 <= i < sessions.len() && goes_on(sessions[i]) ==> {
                    &&& d.found.dom().contains(sessions[i].id.0@)
                    &&& !skipped.dom().contains(sessions[i].id.0@) ==> happens(
                        d.log,
                        log.len(),
                        EffectView::DetectPr { session: sessions[i] },
                    )
                }
            &&& forall|id: Seq<char>| #[trigger]
                d.found.dom().contains(id) ==> {
                    &&& exists|i: int|
                        0 <= i < sessions.len() && (#[trigger] sessions[i]).id.0@ == id && goes_on(
                            sessions[i],
                        )
                    &&& d.found[id] is Some ==> d.prs.contains(d.found[id]->0)
                }
        }),
    decreases sessions.len(),
{
    if sessions.len() > 0 {
        let rest = sessions.drop_last();
        let s = sessions.last();
        lemma_looked_for(log, rest, skipped, answers);
        lemma_detected(log, rest, skipped, answers, answers);
        let b = detected_all(log, rest, skipped, answers);
        let d = detected_all(log, sessions, skipped, answers);
        assert(b.log.is_prefix_of(d.log)) by {
            assert(b.log.is_prefix_of(detected_one(b, s, skipped, answers).log));
        }
        assert forall|i: int|
            #![trigger sessions[i]]
            0 <= i < sessions.len() && goes_on(sessions[i]) implies {
            &&& d.found.dom().contains(sessions[i].id.0@)
            &&& !skipped.dom().contains(sessions[i].id.0@) ==> happens(
                d.log,
                log.len(),
                EffectView::DetectPr { session: sessions[i] },
            )
        } by {
            if i < rest.len() {
                assert(rest[i] == sessions[i]);
                if !skipped.dom().contains(sessions[i].id.0@) {
                    lemma_happens_on(
                        b.log,
                        d.log,
                        log.len(),
                        EffectView::DetectPr { session: sessions[i] },
                    );
                }
            } else if !skipped.dom().contains(s.id.0@) {
                assert(d.log[b.log.len() as int] == (EffectView::DetectPr { session: s }));
            }
        }
        assert forall|id: Seq<char>| #[trigger] d.found.dom().contains(id) implies {
            &&& exists|i: int|
                0 <= i < sessions.len() && (#[trigger] sessions[i]).id.0@ == id && goes_on(
                    sessions[i],
                )
            &&& d.found[id] is Some ==> d.prs.contains(d.found[id]->0)
        } by {
            let last = goes_on(s) && s.id.0@ == id;
            if last {
                assert(sessions[sessions.len() - 1] == s);
                if d.found[id] is Some {
                    assert(d.prs.last() == d.found[id]->0);
                    assert(d.prs.contains(d.prs[d.prs.len() - 1]));
                }
            } else {
                assert(b.found.dom().contains(id));
                let i = choose|i: int|
                    0 <= i < rest.len() && (#[trigger] rest[i]).id.0@ == id && goes_on(rest[i]);
                assert(sessions[i] == rest[i]);
                assert(d.found[id] == b.found[id]);
                if d.found[id] is Some {
                    let j = choose|j: int| 0 <= j < b.prs.len() && b.prs[j] == d.found[id]->0;
                    assert(d.prs[j] == b.prs[j]);
                }
            }
        }
    }
}

/// Every tick looks for the pull request of every session that goes on and has a branch, and of no
/// other. What it finds is kept for the polls, and is fetched in one batch.
pub proof fn law_pull_requests_are_looked_for(
    m: ManagerView,
    t: Telling,
    sessions: Seq<Session>,
    skipped: Map<Seq<char>, ()>,
    a: DetectAnswers,
)
    requires
        m.scm,
        begun(m, t, sessions, skipped, a).flow == BeginFlow::Done,
    ensures
        ({
            let b = begun(m, t, sessions, skipped, a);
            &&& forall|i: int|
                #![trigger sessions[i]]
                0 <= i < sessions.len() && goes_on(sessions[i]) ==> {
                    &&& b.manager.detected.dom().contains(sessions[i].id.0@)
                    &&& !skipped.dom().contains(sessions[i].id.0@) ==> happens(
                        b.log,
                        t.log.len(),
                        EffectView::DetectPr { session: sessions[i] },
                    )
                }
            &&& forall|id: Seq<char>| #[trigger]
                b.manager.detected.dom().contains(id) ==> exists|i: int|
                    0 <= i < sessions.len() && (#[trigger] sessions[i]).id.0@ == id && goes_on(
                        sessions[i],
                    )
            &&& forall|id: Seq<char>| #[trigger]
                b.manager.detected.dom().contains(id) && b.manager.detected[id] is Some
                    ==> exists|prs: Seq<PullRequest>|
                    prs.contains(b.manager.detected[id]->0) && #[trigger] happens(
                        b.log,
                        t.log.len(),
                        EffectView::EnrichPrs { prs },
                    )
        }),
{
    reveal(begun);
    lemma_begun_from(m, t, sessions, skipped, a);
    let d = detected_all(t.log, sessions, skipped, a.detected@);
    lemma_looked_for(t.log, sessions, skipped, a.detected@);
    lemma_detected(t.log, sessions, skipped, a.detected@, a.detected@);
    let b = begun(m, t, sessions, skipped, a);
    assert(b.manager.detected == d.found);
    assert forall|i: int|
        #![trigger sessions[i]]
        0 <= i < sessions.len() && goes_on(sessions[i]) && !skipped.dom().contains(
            sessions[i].id.0@,
        ) implies happens(b.log, t.log.len(), EffectView::DetectPr { session: sessions[i] }) by {
        lemma_happens_on(
            d.log,
            b.log,
            t.log.len(),
            EffectView::DetectPr { session: sessions[i] },
        );
    }
    assert forall|id: Seq<char>| #[trigger]
        b.manager.detected.dom().contains(id) && b.manager.detected[id] is Some implies exists|
        prs: Seq<PullRequest>,
    |
        prs.contains(b.manager.detected[id]->0) && #[trigger] happens(
            b.log,
            t.log.len(),
            EffectView::EnrichPrs { prs },
        ) by {
        let asked = d.log.push(EffectView::EnrichPrs { prs: d.prs });
        assert(asked[d.log.len() as int] == (EffectView::EnrichPrs { prs: d.prs }));
        lemma_happens_on(asked, b.log, t.log.len(), EffectView::EnrichPrs { prs: d.prs });
    }
}

/// What the watchers have been told of a session in which nothing else changes stays so.
proof fn lemma_lost_keeps(
    t: Telling,
    ids: Seq<Seq<char>>,
    found: Map<Seq<char>, Option<PullRequest>>,
    id: Seq<char>,
)
    ensures
        ({
            let l = lost(t, ids, found);
            &&& has_pr(found, id) ==> (l.told.dom().contains(id) <==> t.told.dom().contains(id)) && (
            t.told.dom().contains(id) ==> l.told[id] == t.told[id]) && (l.shown.dom().contains(id)
                <==> t.shown.dom().contains(id)) && (t.shown.dom().contains(id) ==> l.shown[id]
                == t.shown[id])
            &&& !has_pr(found, id) && ids.contains(id) ==> !l.told.dom().contains(id)
                && !l.shown.dom().contains(id) && happens(
                l.log,
                t.log.len(),
                EffectView::Emit(
                    EventView::PrEnrichmentChanged {
                        id,
                        pr: None,
                        attention_level: Seq::empty(),
                    },
                ),
            )
        }),
    decreases ids.len(),
{
    if ids.len() > 0 {
        let rest = ids.drop_last();
        lemma_lost_keeps(t, rest, found, id);
        lemma_lost(t, rest, found);
        let b = lost(t, rest, found);
        let l = lost(t, ids, found);
        if !has_pr(found, id) && ids.contains(id) {
            let e = EffectView::Emit(
                EventView::PrEnrichmentChanged { id, pr: None, attention_level: Seq::empty() },
            );
            if ids.last() == id {
                assert(l.log[b.log.len() as int] == e);
            } else {
                let j = choose|j: int| 0 <= j < ids.len() && ids[j] == id;
                assert(rest[j] == id);
                assert(b.log.is_prefix_of(l.log));
                lemma_happens_on(b.log, l.log, t.log.len(), e);
            }
        }
    }
}

/// The watchers, and the dashboard, know of no pull request that is gone: once a tick has begun,
/// whatever they were told of a session without one has been taken back.
pub proof fn law_gone_pull_requests_are_taken_back(
    t: Telling,
    found: Map<Seq<char>, Option<PullRequest>>,
    id: Seq<char>,
)
    requires
        t.order.contains(id),
        !found.dom().contains(id) || found[id] is None,
    ensures
        ({
            let l = lost(t, t.order, found);
            &&& !l.told.dom().contains(id)
            &&& !l.shown.dom().contains(id)
            &&& happens(
                l.log,
                t.log.len(),
                EffectView::Emit(
                    EventView::PrEnrichmentChanged {
                        id,
                        pr: None,
                        attention_level: Seq::empty(),
                    },
                ),
            )
        }),
{
    lemma_lost_keeps(t, t.order, found, id);
}

/// What is fetched of a session's pull request, and differs from what the watchers know, is told
/// with the column in which the session stands from now on, and shown on the dashboard.
pub proof fn law_news_are_told(
    t: Telling,
    s: Session,
    found: Map<Seq<char>, Option<PullRequest>>,
    enriched: Map<Seq<char>, EnrichmentView>,
    pr: PullRequest,
)
    requires
        found.dom().contains(s.id.0@),
        found[s.id.0@] == Some(pr),
        enriched.dom().contains(pr_key(pr)),
    ensures
        ({
            let x = told_one(t, s, found, enriched);
            let e = enriched[pr_key(pr)];
            let id = s.id.0@;
            &&& x.told.dom().contains(id) && x.told[id] == e
            &&& !(t.told.dom().contains(id) && t.told[id] == e) ==> {
                &&& x.shown.dom().contains(id) && x.shown[id] == dashboard_pr(pr, e)
                &&& x.log == t.log.push(
                    EffectView::Emit(
                        EventView::PrEnrichmentChanged {
                            id,
                            pr: Some(dashboard_pr(pr, e)),
                            attention_level: crate::dashboard_payload::attention(
                                s.status,
                                Some(dashboard_pr(pr, e)),
                            ),
                        },
                    ),
                )
                &&& t.told.dom().contains(id) || x.order == t.order.push(id)
            }
            &&& t.told.dom().contains(id) && t.told[id] == e ==> x == t
        }),
{
}

/// A session that the loop finds when it begins, and that was made before that, is announced as
/// restored, with the status that it has. Any other is announced as spawned.
pub proof fn law_old_sessions_are_restored(m: ManagerView, s: Session)
    ensures
        announcement(m, s) == if m.startup_ms > 0 && s.created_at < m.startup_ms {
            EventView::SessionRestored { id: s.id.0@, project_id: s.project_id@, status: s.status }
        } else {
            EventView::Spawned { id: s.id.0@, project_id: s.project_id@ }
        },
{
}

/// Every session that goes on is polled when it is visited, and makes the end of all sessions worth
/// announcing again.
pub proof fn law_sessions_that_go_on_are_polled(r: Run, seen: Map<Seq<char>, ()>, a: PollAnswers)
    requires
        r.flow == Flow::Done,
        goes_on(r.session),
        r.session.runtime_handle is Some,
    ensures
        happens(
            visited(r, seen, a).log,
            r.log.len(),
            EffectView::IsAlive { handle: r.session.runtime_handle->0@ },
        ),
        !visited(r, seen, a).manager.all_complete_fired,
{
    reveal(visited);
    let announced = if seen.dom().contains(r.session.id.0@) {
        r
    } else {
        r.then_do(EffectView::Emit(announcement(r.manager, r.session)))
    };
    let start = announced.knowing(ManagerView { all_complete_fired: false, ..r.manager });
    let x = polled(start, a);
    let blank = PollAnswers { alive: None, ..a };
    law_poll_goes_on(start, blank, a);
    crate::lifecycle::trail::law_poll_keeps_to_its_session(start, a);
    let e = EffectView::IsAlive { handle: r.session.runtime_handle->0@ };
    assert(polled(start, blank).log == start.log.push(e)) by {
        reveal(polled);
    }
    assert(start.log.push(e)[start.log.len() as int] == e);
    lemma_happens_on(start.log.push(e), x.log, r.log.len(), e);
}

/// A poll that fails keeps no other session from being visited.
pub proof fn law_failed_poll_stops_nobody(v: Visits, s: Session, polls: Seq<PollAnswers>)
    requires
        v.flow == TickFlow::Done,
        v.visited < polls.len(),
        visited(
            Run { manager: v.manager, session: s, log: v.log, flow: Flow::Done },
            v.seen,
            polls[v.visited as int],
        ).flow == Flow::Failed,
    ensures
        visited_one(v, s, polls).flow == TickFlow::Done,
        visited_one(v, s, polls).visited == v.visited + 1,
        visited_one(v, s, polls).seen.dom().contains(s.id.0@),
{
}

/// A session holds on to its branch as long as its pull request is open: while its status says so,
/// while a merge is to be tried again, and while the watchers were last told so.
pub open spec fn bound_to_branch(m: ManagerView, s: Session) -> bool {
    match s.status {
        SessionStatus::PrOpen => true,
        SessionStatus::CiFailed => true,
        SessionStatus::ReviewPending => true,
        SessionStatus::ChangesRequested => true,
        SessionStatus::Approved => true,
        SessionStatus::Mergeable => true,
        SessionStatus::MergeFailed => true,
        _ => m.told.dom().contains(s.id.0@) && m.told[s.id.0@].observation.state == PrState::Open,
    }
}

/// In a tick every session that goes on, has a worktree and is not bound to its branch comes to the
/// branch that its worktree is on, unless another session of its project that goes on is there or
/// is coming there. It is written to disk with it. A session that is bound to its branch, or has
/// ended, is not even looked at.
pub proof fn law_tick_follows_agents(
    x: Refreshed,
    i: int,
    answers: Seq<Option<String>>,
    branch: String,
)
    requires
        0 <= i < x.sessions.len(),
        !x.waiting,
    ensures
        ({
            let s = x.sessions[i];
            let y = refreshed_one(x, i, answers);
            let reserved = s.project_id@ + ":"@ + branch@;
            &&& !goes_on(s) || s.workspace_path is None || bound_to_branch(x.manager, s) ==> y == x
            &&& goes_on(s) && s.workspace_path is Some && !bound_to_branch(x.manager, s)
                && x.used < answers.len() && answers[x.used as int] == Some(branch) && branch@.len()
                > 0 && branch@ != s.branch@ && (!x.manager.reserved.dom().contains(reserved)
                || x.manager.reserved[reserved] == s.id.0@) && (forall|j: int|
                0 <= j < x.sessions.len() ==> {
                    let o = #[trigger] x.sessions[j];
                    o.id.0@ == s.id.0@ || o.project_id@ != s.project_id@ || !goes_on(o)
                        || o.branch@ != branch@
                }) ==> {
                &&& y.sessions[i] == (Session { branch, ..s })
                &&& y.log == x.log.push(
                    EffectView::ProbeBranch { path: s.workspace_path->0@ },
                ).push(EffectView::Save { session: y.sessions[i] })
                &&& y.skipped == x.skipped
            }
            &&& goes_on(s) && s.workspace_path is Some && !bound_to_branch(x.manager, s)
                && x.used < answers.len() && answers[x.used as int] == Some(branch) && branch@.len()
                == 0 ==> y.sessions[i].branch@.len() == 0 && y.skipped.dom().contains(s.id.0@)
        }),
{
    law_agent_is_followed(x.manager, x.sessions[i], x.sessions, branch);
}

/// The worktrees that are left to be removed are those of merged sessions, and of no others.
pub proof fn law_only_merged_sessions_leave_something(sessions: Seq<Session>, path: Seq<char>)
    ensures
        leftovers(sessions).contains(path) <==> exists|i: int|
            0 <= i < sessions.len() && (#[trigger] sessions[i]).status == SessionStatus::Merged
                && sessions[i].workspace_path is Some && sessions[i].workspace_path->0@ == path,
    decreases sessions.len(),
{
    if sessions.len() > 0 {
        let rest = sessions.drop_last();
        let s = sessions.last();
        law_only_merged_sessions_leave_something(rest, path);
        let l = leftovers(sessions);
        if l.contains(path) {
            let k = choose|k: int| 0 <= k < l.len() && l[k] == path;
            if k < leftovers(rest).len() {
                assert(leftovers(rest)[k] == path);
                let i = choose|i: int|
                    0 <= i < rest.len() && (#[trigger] rest[i]).status == SessionStatus::Merged
                        && rest[i].workspace_path is Some && rest[i].workspace_path->0@ == path;
                assert(sessions[i] == rest[i]);
            } else {
                assert(sessions[sessions.len() - 1] == s);
            }
        }
        if exists|i: int|
            0 <= i < sessions.len() && (#[trigger] sessions[i]).status == SessionStatus::Merged
                && sessions[i].workspace_path is Some && sessions[i].workspace_path->0@ == path {
            let i = choose|i: int|
                0 <= i < sessions.len() && (#[trigger] sessions[i]).status == SessionStatus::Merged
                    && sessions[i].workspace_path is Some && sessions[i].workspace_path->0@ == path;
            if i < rest.len() {
                assert(rest[i] == sessions[i]);
                let k = choose|k: int| 0 <= k < leftovers(rest).len() && leftovers(rest)[k] == path;
                assert(l[k] == path);
            } else {
                assert(l[l.len() - 1] == path);
            }
        }
    }
}

/// A lifecycle that has not been told otherwise ticks every ten seconds, asks no code host, carries
/// out no reaction, removes no worktree, and ends sessions whose pull request was merged.
pub proof fn law_lifecycle_starts_out_plain()
    ensures
        initial().poll_interval == 10_000,
        !initial().scm && !initial().workspace && initial().keys is None,
        initial().auto_terminate,
        initial().startup_ms == 0 && !initial().all_complete_fired,
{
}

} // verus!
