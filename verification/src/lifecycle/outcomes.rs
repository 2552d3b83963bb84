//! What becomes of a session in a poll.

use vstd::prelude::*;

use crate::events::{EventView, TerminationReason};
use crate::lifecycle::duties::{
    arrived, changes_to, entry, happens, hosted, idle_from, lemma_arrival, lemma_happens_still,
    lemma_host_reaches, lemma_host_stations, lemma_passing_on_keeps, lemma_probing, lemma_stations,
    lemma_transition_knows, lemma_transition_leads, owes_work, pr_known, pr_of, sees, timed,
    too_soon,
};
use crate::lifecycle::effects::{EffectView, Flow, PollAnswers, ScmAnswers, Stage};
use crate::lifecycle::host_duties::{lemma_ends_as_hosted, lemma_placed, placed, reaches, seen_of};
use crate::lifecycle::replay::{begins_with, group_begins, lemma_passed_on, lemma_transitioned};
use crate::lifecycle::scm_poll::{probed, scm_polled, throttled};
use crate::lifecycle::stuck::{stuck_checked, stuck_decided};
use crate::lifecycle::tick::{activity_kept, finished, polled, taken_down};
use crate::lifecycle::transition::{terminated, transitioned};
use crate::lifecycle::turns::law_ended_session_is_forgotten;
use crate::lifecycle::Run;
use crate::reactions::{duration_secs, ReactionConfig};
use crate::scm::PullRequest;
use crate::types::{ActivityState, SessionStatus};

verus! {

/// An agent that waits for input puts its session into `NeedsInput`, if it is not there already.
pub proof fn law_waiting_agent_needs_input(r: Run, a: PollAnswers)
    requires
        sees(r, a, ActivityState::WaitingInput),
        r.session.status != SessionStatus::NeedsInput,
    ensures
        happens(
            polled(r, a).log,
            r.log.len(),
            EffectView::Emit(
                EventView::StatusChanged {
                    id: r.session.id.0@,
                    from: r.session.status,
                    to: SessionStatus::NeedsInput,
                },
            ),
        ),
{
    broadcast use group_begins;

    let activity = ActivityState::WaitingInput;
    lemma_stations(r, a, activity);
    let seen = r.then_do(
        EffectView::IsAlive { handle: r.session.runtime_handle->0@ },
    ).then_do(EffectView::DetectActivity { session: r.session });
    let to = SessionStatus::NeedsInput;
    let asked = transitioned(seen, to, Stage::NeedsInput, a.to_needs_input);
    assert(asked.flow == Flow::Done) by {
        reveal(polled);
        reveal(crate::lifecycle::tick::live);
        reveal(crate::lifecycle::tick::watched);
    }
    lemma_transition_leads(seen, to, Stage::NeedsInput, a.to_needs_input);
    let kept = activity_kept(asked, activity, a.activity_saved);
    crate::lifecycle::replay::lemma_activity_kept(asked, activity, a.activity_saved, a.activity_saved);
    crate::lifecycle::replay::lemma_idle_updated(kept, activity, a.idle_now, a.idle_now);
    let t = timed(r, a, activity);
    assert(begins_with(t.log, asked.log));
    assert(begins_with(polled(r, a).log, asked.log));
    lemma_happens_still(
        asked.log,
        polled(r, a).log,
        seen.log.len(),
        r.log.len(),
        EffectView::Emit(
            EventView::StatusChanged { id: r.session.id.0@, from: r.session.status, to },
        ),
    );
}

/// A session that has just been spawned, was stuck or needed input is `Working` as soon as its
/// agent is seen active or ready.
pub proof fn law_agent_at_work_is_working(r: Run, a: PollAnswers, activity: ActivityState)
    requires
        sees(r, a, activity),
        activity == ActivityState::Active || activity == ActivityState::Ready,
        r.session.status == SessionStatus::Spawning || r.session.status == SessionStatus::Stuck
            || r.session.status == SessionStatus::NeedsInput,
    ensures
        happens(
            polled(r, a).log,
            r.log.len(),
            EffectView::Emit(
                EventView::StatusChanged {
                    id: r.session.id.0@,
                    from: r.session.status,
                    to: SessionStatus::Working,
                },
            ),
        ),
{
    broadcast use group_begins;

    lemma_stations(r, a, activity);
    let t = timed(r, a, activity);
    let v = arrived(r, a, activity);
    lemma_transition_leads(t, SessionStatus::Working, Stage::Working, a.to_working);
    lemma_happens_still(
        v.log,
        polled(r, a).log,
        t.log.len(),
        r.log.len(),
        EffectView::Emit(
            EventView::StatusChanged {
                id: r.session.id.0@,
                from: r.session.status,
                to: SessionStatus::Working,
            },
        ),
    );
}

/// Without a cause a session keeps its status. The causes are an agent that waits for input, one
/// that has come back to work, one that is stuck although work is expected of it, and what follows
/// from the pull request.
pub proof fn law_status_stays_without_a_cause(r: Run, a: PollAnswers, activity: ActivityState)
    requires
        sees(r, a, activity),
        r.session.status != SessionStatus::Merged,
        !r.manager.scm || !(a.scm.derived matches Some(Some(_))),
        activity != ActivityState::WaitingInput || r.session.status == SessionStatus::NeedsInput,
        match r.session.status {
            SessionStatus::Spawning => activity != ActivityState::Active && activity
                != ActivityState::Ready,
            SessionStatus::Stuck => activity != ActivityState::Active && activity
                != ActivityState::Ready,
            SessionStatus::NeedsInput => activity != ActivityState::Active && activity
                != ActivityState::Ready,
            _ => true,
        },
    ensures
        ({
            let s = polled(r, a).session.status;
            ||| s == r.session.status
            ||| s == SessionStatus::Stuck && owes_work(r.session.status) && r.manager.keys is Some
                && (activity == ActivityState::Idle || activity == ActivityState::Blocked)
        }),
{
    lemma_stations(r, a, activity);
    let t = timed(r, a, activity);
    let v = arrived(r, a, activity);
    let w = hosted(r, a, activity);
    assert(v == t);
    if r.manager.scm {
        lemma_host_reaches(v, a.scm);
    }
    reveal(finished);
    reveal(stuck_checked);
    reveal(stuck_decided);
    let (decided, stuck) = stuck_decided(w, Stage::Stuck, a.stuck);
    if decided.flow == Flow::Done && transitioned(
        decided,
        SessionStatus::Stuck,
        Stage::Stuck,
        a.to_stuck,
    ).flow == Flow::Done {
        lemma_transition_leads(decided, SessionStatus::Stuck, Stage::Stuck, a.to_stuck);
    }
}

/// What the agent was seen doing is kept in the session; where it is news, the session is written
/// to disk and the watchers are told. Its idleness is timed from when it was first seen idle or
/// blocked, and no longer than it is so.
pub proof fn law_activity_is_kept(r: Run, a: PollAnswers, activity: ActivityState)
    requires
        sees(r, a, activity),
    ensures
        polled(r, a).session.activity == Some(activity),
        r.session.activity != Some(activity) ==> happens(
            polled(r, a).log,
            r.log.len(),
            EffectView::Emit(
                EventView::ActivityChanged {
                    id: r.session.id.0@,
                    prev: r.session.activity,
                    next: activity,
                },
            ),
        ),
        polled(r, a).session.status != SessionStatus::Killed ==> {
            let since = polled(r, a).manager.idle_since;
            let id = r.session.id.0@;
            if activity == ActivityState::Idle || activity == ActivityState::Blocked {
                since.dom().contains(id) && since[id] == idle_from(r, a)
            } else {
                !since.dom().contains(id)
            }
        },
{
    broadcast use group_begins;

    lemma_stations(r, a, activity);
    lemma_ends_as_hosted(r, a, activity);
    let seen = r.then_do(
        EffectView::IsAlive { handle: r.session.runtime_handle->0@ },
    ).then_do(EffectView::DetectActivity { session: r.session });
    let to = SessionStatus::NeedsInput;
    let asked = if activity == ActivityState::WaitingInput && r.session.status != to {
        transitioned(seen, to, Stage::NeedsInput, a.to_needs_input)
    } else {
        seen
    };
    lemma_transition_knows(seen, to, Stage::NeedsInput, a.to_needs_input);
    lemma_transitioned(seen, to, Stage::NeedsInput, a.to_needs_input, a.to_needs_input);
    let kept = activity_kept(asked, activity, a.activity_saved);
    assert(kept.flow == Flow::Done && asked.flow == Flow::Done) by {
        reveal(polled);
        reveal(crate::lifecycle::tick::live);
        reveal(crate::lifecycle::tick::watched);
    }
    let t = timed(r, a, activity);
    let v = arrived(r, a, activity);
    let w = hosted(r, a, activity);
    let x = polled(r, a);
    crate::lifecycle::replay::lemma_idle_updated(kept, activity, a.idle_now, a.idle_now);
    if r.session.activity != Some(activity) {
        let e = EffectView::Emit(
            EventView::ActivityChanged {
                id: r.session.id.0@,
                prev: r.session.activity,
                next: activity,
            },
        );
        assert(asked.log.len() >= r.log.len()) by {
            reveal(begins_with);
        }
        assert(kept.log[kept.log.len() - 1] == e);
        assert(begins_with(x.log, kept.log));
        lemma_happens_still(kept.log, x.log, r.log.len(), r.log.len(), e);
    }
    if r.manager.scm {
        lemma_host_reaches(v, a.scm);
        lemma_host_activity(v, a.scm);
    }
    reveal(finished);
    reveal(stuck_checked);
    reveal(stuck_decided);
    reveal(terminated);
    let (decided, stuck) = stuck_decided(
        if w.session.status == SessionStatus::Merged {
            taken_down(w)
        } else {
            w
        },
        Stage::Stuck,
        a.stuck,
    );
    lemma_transition_knows(decided, SessionStatus::Stuck, Stage::Stuck, a.to_stuck);
    if w.session.status == SessionStatus::Merged && w.manager.auto_terminate {
        law_ended_session_is_forgotten(
            taken_down(w),
            TerminationReason::PrMerged,
            Stage::Killed,
            a.to_killed,
        );
    }
}

proof fn lemma_host_activity(r: Run, a: ScmAnswers)
    requires
        r.flow == Flow::Done,
        scm_polled(r, a).flow == Flow::Done,
    ensures
        scm_polled(r, a).session.activity == r.session.activity,
{
    if r.session.status.terminal() {
        reveal(scm_polled);
    } else {
        lemma_host_stations(r, a);
        if let Some((k, o)) = entry(r, a) {
            lemma_placed(k, o, pr_of(r, a), a);
            lemma_passing_on_keeps(placed(k, o, a), o, pr_of(r, a), a);
        }
    }
}

/// The status of a session follows what the code host says follows from its pull request. Of that
/// it is asked with the status that the session has and what was observed.
pub proof fn law_status_follows_the_pull_request(
    r: Run,
    a: PollAnswers,
    activity: ActivityState,
    pr: PullRequest,
    next: SessionStatus,
)
    requires
        sees(r, a, activity),
        reaches(r, a, pr),
        a.scm.derived == Some(Some(next)),
        next != r.session.status,
        next != SessionStatus::NeedsInput,
        next != SessionStatus::Working,
        next != SessionStatus::PrOpen,
        next != SessionStatus::Mergeable,
    ensures
        changes_to(polled(r, a).log, r.log.len(), next),
        polled(r, a).session.status == if next == SessionStatus::Merged
            && r.manager.auto_terminate {
            SessionStatus::Killed
        } else {
            next
        },
        exists|current: SessionStatus|
            happens(
                polled(r, a).log,
                r.log.len(),
                #[trigger] derivation(current, seen_of(r, a, pr)),
            ),
{
    broadcast use group_begins;

    lemma_stations(r, a, activity);
    lemma_arrival(r, a, activity);
    lemma_ends_as_hosted(r, a, activity);
    let v = arrived(r, a, activity);
    let w = hosted(r, a, activity);
    let x = polled(r, a);
    lemma_host_stations(v, a.scm);
    let (e, o) = entry(v, a.scm)->0;
    assert(o == Some(seen_of(r, a, pr)));
    lemma_placed(e, o, Some(pr), a.scm);
    let k = placed(e, o, a.scm);
    let asked = e.then_do(EffectView::DeriveStatus { current: e.session.status, observation: o });
    lemma_transition_leads(asked, next, Stage::Scm, a.scm.transition);
    lemma_transitioned(asked, next, Stage::Scm, a.scm.transition, a.scm.transition);
    lemma_passing_on_keeps(k, o, Some(pr), a.scm);
    lemma_passed_on(k, o, Some(pr), a.scm, a.scm);
    assert(begins_with(x.log, k.log));
    assert(begins_with(x.log, asked.log));
    let q = derivation(e.session.status, seen_of(r, a, pr));
    assert(asked.log[e.log.len() as int] == q);
    assert(r.log.len() <= e.log.len()) by {
        reveal(begins_with);
    }
    lemma_happens_still(asked.log, x.log, r.log.len(), r.log.len(), q);
    let told = EffectView::Emit(
        EventView::StatusChanged { id: r.session.id.0@, from: e.session.status, to: next },
    );
    lemma_happens_still(k.log, x.log, asked.log.len(), r.log.len(), told);
    let i = choose|i: int| r.log.len() <= i < x.log.len() && #[trigger] x.log[i] == told;
    assert(x.log[i] == told);
    assert(w.session.status == next);
    if next != SessionStatus::Merged {
        assert(x.session.status == next) by {
            reveal(finished);
        }
    } else {
        lemma_host_reaches(v, a.scm);
    }
}

/// The question which status follows from `current` and what was observed.
pub open spec fn derivation(
    current: SessionStatus,
    observation: crate::scm::ObservationView,
) -> EffectView {
    EffectView::DeriveStatus { current, observation: Some(observation) }
}

/// A session whose pull request has been merged has its runtime ended and, where that is wanted,
/// its worktree removed. Where sessions end with the merge it is killed, and that is said last.
pub proof fn law_merged_session_is_taken_down(
    r: Run,
    a: PollAnswers,
    activity: ActivityState,
    pr: PullRequest,
)
    requires
        sees(r, a, activity),
        reaches(r, a, pr),
        a.scm.derived == Some(Some(SessionStatus::Merged)),
    ensures
        happens(
            polled(r, a).log,
            r.log.len(),
            EffectView::DestroyRuntime { handle: r.session.runtime_handle->0@ },
        ),
        r.manager.workspace && r.session.workspace_path is Some ==> happens(
            polled(r, a).log,
            r.log.len(),
            EffectView::DestroyWorkspace { path: r.session.workspace_path->0@ },
        ),
        !r.manager.workspace ==> forall|path: Seq<char>|
            polled(r, a).log.last() != (EffectView::DestroyWorkspace { path }),
        r.manager.auto_terminate ==> {
            &&& polled(r, a).session.status == SessionStatus::Killed
            &&& polled(r, a).log.last() == EffectView::Emit(
                EventView::Terminated {
                    id: r.session.id.0@,
                    reason: TerminationReason::PrMerged,
                },
            )
        },
        !r.manager.auto_terminate ==> polled(r, a).session.status == SessionStatus::Merged,
{
    broadcast use group_begins;

    let next = SessionStatus::Merged;
    law_status_follows_the_pull_request(r, a, activity, pr, next);
    lemma_stations(r, a, activity);
    lemma_ends_as_hosted(r, a, activity);
    lemma_arrival(r, a, activity);
    let v = arrived(r, a, activity);
    let w = hosted(r, a, activity);
    let x = polled(r, a);
    lemma_host_reaches(v, a.scm);
    let t = timed(r, a, activity);
    lemma_host_stations(v, a.scm);
    let (e, o) = entry(v, a.scm)->0;
    lemma_placed(e, o, Some(pr), a.scm);
    let k = placed(e, o, a.scm);
    lemma_transition_leads(
        e.then_do(EffectView::DeriveStatus { current: e.session.status, observation: o }),
        next,
        Stage::Scm,
        a.scm.transition,
    );
    lemma_passing_on_keeps(k, o, Some(pr), a.scm);
    assert(w.session.status == next);
    let down = taken_down(w);
    let handle = r.session.runtime_handle->0@;
    assert(down.log[w.log.len() as int] == (EffectView::DestroyRuntime { handle }));
    assert(t.session.status != next);
    reveal(finished);
    reveal(terminated);
    assert(begins_with(down.log, w.log));
    if r.manager.auto_terminate {
        crate::lifecycle::replay::lemma_terminated(
            down,
            TerminationReason::PrMerged,
            Stage::Killed,
            a.to_killed,
            a.to_killed,
        );
        law_ended_session_is_forgotten(
            down,
            TerminationReason::PrMerged,
            Stage::Killed,
            a.to_killed,
        );
    }
    assert(begins_with(x.log, down.log));
    lemma_happens_still(
        down.log,
        x.log,
        r.log.len(),
        r.log.len(),
        EffectView::DestroyRuntime { handle },
    );
    if r.manager.workspace && r.session.workspace_path is Some {
        let path = r.session.workspace_path->0@;
        assert(down.log[(w.log.len() + 1) as int] == (EffectView::DestroyWorkspace { path }));
        lemma_happens_still(
            down.log,
            x.log,
            r.log.len(),
            r.log.len(),
            EffectView::DestroyWorkspace { path },
        );
    }
}

/// An agent that is stuck does not become one whose pull request is open: where that would follow
/// from the pull request, and it has been idle for longer than allowed, it is stuck.
pub proof fn law_stuck_agent_outranks_open_pull_request(
    r: Run,
    a: PollAnswers,
    activity: ActivityState,
    pr: PullRequest,
    c: ReactionConfig,
    raw: String,
    secs: nat,
    now: u64,
)
    requires
        sees(r, a, activity),
        reaches(r, a, pr),
        activity == ActivityState::Idle || activity == ActivityState::Blocked,
        r.manager.keys is Some,
        owes_work(r.session.status),
        r.session.status != SessionStatus::PrOpen,
        a.scm.derived == Some(Some(SessionStatus::PrOpen)),
        a.scm.stuck.reaction == Some(Some(c)),
        c.threshold == Some(raw),
        duration_secs(raw@) == Some(secs),
        secs <= u64::MAX,
        a.scm.stuck.now == Some(now),
    ensures
        polled(r, a).session.status == if now > idle_from(r, a) + secs * 1_000_000_000 {
            SessionStatus::Stuck
        } else {
            SessionStatus::PrOpen
        },
{
    lemma_stations(r, a, activity);
    lemma_ends_as_hosted(r, a, activity);
    let t = timed(r, a, activity);
    let v = arrived(r, a, activity);
    let w = hosted(r, a, activity);
    assert(v == t);
    let id = r.session.id.0@;
    assert(t.manager.idle_since.dom().contains(id) && t.manager.idle_since[id] == idle_from(r, a));
    lemma_host_stations(v, a.scm);
    let (e, o) = entry(v, a.scm)->0;
    lemma_placed(e, o, Some(pr), a.scm);
    let k = placed(e, o, a.scm);
    let asked = e.then_do(EffectView::DeriveStatus { current: e.session.status, observation: o });
    let (decided, stuck) = stuck_decided(asked, Stage::Scm, a.scm.stuck);
    reveal(stuck_decided);
    assert(decided.flow == Flow::Done);
    assert(stuck == (now > idle_from(r, a) + secs * 1_000_000_000));
    let to = if stuck {
        SessionStatus::Stuck
    } else {
        SessionStatus::PrOpen
    };
    lemma_transition_leads(decided, to, Stage::Scm, a.scm.transition);
    lemma_passing_on_keeps(k, o, Some(pr), a.scm);
    assert(w.session.status == to);
    reveal(finished);
}

/// The first pull request of a session stays its own: its number and its address are kept, and
/// those of a later one are not.
pub proof fn law_first_pull_request_is_kept(
    r: Run,
    a: PollAnswers,
    activity: ActivityState,
    pr: PullRequest,
)
    requires
        sees(r, a, activity),
        r.manager.scm,
        !r.session.status.terminal(),
        pr_known(r, a.scm),
        pr_of(r, a.scm) == Some(pr),
    ensures
        polled(r, a).session.claimed_pr_number == if r.session.claimed_pr_number is Some {
            r.session.claimed_pr_number
        } else {
            Some(pr.number)
        },
        polled(r, a).session.claimed_pr_url == if r.session.claimed_pr_url is Some {
            r.session.claimed_pr_url
        } else {
            Some(pr.url)
        },
{
    lemma_stations(r, a, activity);
    lemma_ends_as_hosted(r, a, activity);
    lemma_arrival(r, a, activity);
    let v = arrived(r, a, activity);
    lemma_host_stations(v, a.scm);
    if let Some((k, o)) = entry(v, a.scm) {
        lemma_placed(k, o, Some(pr), a.scm);
        lemma_passing_on_keeps(placed(k, o, a.scm), o, Some(pr), a.scm);
    }
}

/// A pull request that is not in the batch of this tick is probed. Only one that is under review,
/// that is `ReviewPending`, `ChangesRequested` or `Approved`, is left alone for two minutes after
/// it was probed.
pub proof fn law_pull_requests_are_probed(r: Run, pr: PullRequest, a: ScmAnswers)
    requires
        r.flow == Flow::Done,
        throttled(r, pr, a).flow == Flow::Done,
    ensures
        ({
            let x = throttled(r, pr, a);
            let id = r.session.id.0@;
            let reviewed = match r.session.status {
                SessionStatus::ReviewPending => true,
                SessionStatus::ChangesRequested => true,
                SessionStatus::Approved => true,
                _ => false,
            };
            if reviewed && r.manager.probed.dom().contains(id) && a.throttle_now->0
                < r.manager.probed[id] + 120_000_000_000 {
                x.log == r.log.push(EffectView::ReadClock) && x.session == r.session && x.manager
                    == r.manager
            } else {
                happens(x.log, r.log.len(), EffectView::ProbePr { pr })
            }
        }),
{
    broadcast use group_begins;

    lemma_probing(r, pr, a);
    if !too_soon(r, a) {
        let timed = if crate::lifecycle::scm_poll::review_stable(r.session.status)
            && r.manager.probed.dom().contains(r.session.id.0@) {
            r.then_do(EffectView::ReadClock)
        } else {
            r
        };
        let l = crate::lifecycle::duties::looked_at(timed, pr, a);
        assert(l.log[timed.log.len() as int] == (EffectView::ProbePr { pr }));
        let o = Some(crate::lifecycle::scm_poll::observed(a.probes->0));
        crate::lifecycle::replay::lemma_status_followed(l, o, Some(pr), a, a);
        let x = throttled(r, pr, a);
        assert(begins_with(x.log, l.log));
        lemma_happens_still(
            l.log,
            x.log,
            r.log.len(),
            r.log.len(),
            EffectView::ProbePr { pr },
        );
    }
}

} // verus!
