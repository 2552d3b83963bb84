//! What holds of the lifecycle as a whole.

use vstd::prelude::*;

use crate::dashboard_payload::EnrichmentView;
use crate::events::{EventView, TerminationReason};
use crate::lifecycle::cycle::{visited_all, wound_up, TickFlow, Visits};
use crate::lifecycle::effects::{EffectView, Flow, PollAnswers, ScmAnswers, Stage, TransitionAnswers};
use crate::lifecycle::fingerprint::{automated_rows, comment_rows, law_fingerprint_ignores_order};
use crate::lifecycle::fleet::{announcement, has_pr, told_all, visited, Telling};
use crate::lifecycle::replay::law_poll_goes_on;
use crate::lifecycle::scm_poll::{
    all_probed, asked_lately, backlog_due, backlog_passed_on, bot_comments_passed_on, bots_passed_on, checks_passed_on,
    comments_passed_on, erred, observed, passed_on, pr_key, probed, review_stable,
    status_followed, throttled, wired,
};
use crate::lifecycle::stuck::{conflicts_checked, idle_updated, pr_track, stuck_decided};
use crate::lifecycle::tick::polled;
use crate::lifecycle::trail::{law_announcements_add_up, law_poll_keeps_to_its_session, trail};
use crate::lifecycle::transition::{
    costed, forgotten_key, may_merge, merged_and_settled, merges, reacted, settled,
    settled_and_reacted, transitioned,
};
use crate::lifecycle::{elapsed, reaction_key, ManagerView, Run, REVIEW_BACKLOG_THROTTLE};
use crate::reactions::ReactionOutcome;
use crate::scm::{AutomatedComment, ObservationView, PullRequest, ReviewComment};
use crate::types::{ActivityState, Session, SessionStatus};

verus! {

/// A session that has ended is left alone: at most it is announced.
pub proof fn law_ended_sessions_are_left_alone(
    r: Run,
    seen: Map<Seq<char>, ()>,
    a: PollAnswers,
)
    requires
        r.session.status.terminal(),
    ensures
        visited(r, seen, a) == if seen.dom().contains(r.session.id.0@) {
            r
        } else {
            r.then_do(EffectView::Emit(announcement(r.manager, r.session)))
        },
{
    reveal(visited);
}

/// How often the session `id` is announced among the effects from number `n` on.
pub open spec fn hails(log: Seq<EffectView>, n: nat, id: Seq<char>) -> nat
    decreases log.len(),
{
    if log.len() <= n {
        0
    } else {
        hails(log.drop_last(), n, id) + match log.last() {
            EffectView::Emit(EventView::Spawned { id: i, .. }) => if i == id {
                1nat
            } else {
                0nat
            },
            EffectView::Emit(EventView::SessionRestored { id: i, .. }) => if i == id {
                1nat
            } else {
                0nat
            },
            _ => 0nat,
        }
    }
}

proof fn lemma_hails_add_up(log: Seq<EffectView>, n: nat, k: nat, id: Seq<char>)
    requires
        n <= k <= log.len(),
    ensures
        hails(log, n, id) == hails(log.take(k as int), n, id) + hails(log, k, id),
    decreases log.len(),
{
    if log.len() == k {
        assert(log.take(k as int) =~= log);
    } else {
        assert(log.drop_last().take(k as int) =~= log.take(k as int));
        lemma_hails_add_up(log.drop_last(), n, k, id);
    }
}

proof fn lemma_trail_hails_nobody(
    log: Seq<EffectView>,
    n: nat,
    id: Seq<char>,
    status: SessionStatus,
    other: Seq<char>,
)
    requires
        trail(log, n, id, status) is Some,
    ensures
        hails(log, n, other) == 0,
    decreases log.len(),
{
    if log.len() > n {
        lemma_trail_hails_nobody(log.drop_last(), n, id, status, other);
    }
}

proof fn lemma_visit_hails(r: Run, seen: Map<Seq<char>, ()>, a: PollAnswers, n: nat, id: Seq<char>)
    requires
        r.flow == Flow::Done,
        n <= r.log.len(),
    ensures
        r.log.len() <= visited(r, seen, a).log.len(),
        hails(visited(r, seen, a).log, n, id) == hails(r.log, n, id) + if id == r.session.id.0@
            && !seen.dom().contains(id) {
            1nat
        } else {
            0nat
        },
{
    reveal(visited);
    let announced = if seen.dom().contains(r.session.id.0@) {
        r
    } else {
        r.then_do(EffectView::Emit(announcement(r.manager, r.session)))
    };
    assert(hails(announced.log, n, id) == hails(r.log, n, id) + if id == r.session.id.0@
        && !seen.dom().contains(id) {
        1nat
    } else {
        0nat
    }) by {
        if !seen.dom().contains(r.session.id.0@) {
            assert(announced.log.drop_last() =~= r.log);
        }
    }
    if !r.session.status.terminal() {
        let start = announced.knowing(ManagerView { all_complete_fired: false, ..r.manager });
        let x = polled(start, a);
        law_poll_goes_on(start, a, a);
        law_announcements_add_up(start, a);
        lemma_trail_hails_nobody(
            x.log,
            start.log.len(),
            start.session.id.0@,
            start.session.status,
            id,
        );
        lemma_hails_add_up(x.log, n, start.log.len(), id);
        assert(x.log.take(start.log.len() as int) =~= start.log);
    }
}

/// Over the visits of a tick a session is announced exactly once if it is seen for the first
/// time, and not at all otherwise. What was seen stays so, and nothing else is seen than the
/// sessions that are visited.
pub proof fn law_announced_once(v: Visits, sessions: Seq<Session>, polls: Seq<PollAnswers>, n: nat, id: Seq<char>)
    requires
        n <= v.log.len(),
    ensures
        ({
            let x = visited_all(v, sessions, polls);
            &&& v.log.len() <= x.log.len()
            &&& v.seen.dom().contains(id) ==> x.seen.dom().contains(id)
            &&& x.seen.dom().contains(id) && !v.seen.dom().contains(id) ==> exists|i: int|
                0 <= i < sessions.len() && (#[trigger] sessions[i]).id.0@ == id
            &&& hails(x.log, n, id) == hails(v.log, n, id) + if x.seen.dom().contains(id)
                && !v.seen.dom().contains(id) {
                1nat
            } else {
                0nat
            }
        }),
    decreases sessions.len(),
{
    if sessions.len() > 0 {
        let rest = sessions.drop_last();
        let s = sessions.last();
        law_announced_once(v, rest, polls, n, id);
        let b = visited_all(v, rest, polls);
        if b.seen.dom().contains(id) && !v.seen.dom().contains(id) {
            let i = choose|i: int| 0 <= i < rest.len() && (#[trigger] rest[i]).id.0@ == id;
            assert(sessions[i].id.0@ == id);
        }
        if b.flow == TickFlow::Done && b.visited < polls.len() {
            let r = Run { manager: b.manager, session: s, log: b.log, flow: Flow::Done };
            lemma_visit_hails(r, b.seen, polls[b.visited as int], n, id);
            assert(sessions[sessions.len() - 1].id.0@ == s.id.0@);
        }
    }
}

/// Whether the end of all sessions has been announced is remembered as long as no session is
/// active; the visit to one that has not ended makes it worth announcing again.
pub proof fn law_active_session_rearms_all_complete(
    v: Visits,
    sessions: Seq<Session>,
    polls: Seq<PollAnswers>,
)
    requires
        v.any_active ==> !v.manager.all_complete_fired,
    ensures
        ({
            let x = visited_all(v, sessions, polls);
            &&& x.any_active ==> !x.manager.all_complete_fired
            &&& !x.any_active ==> x.manager.all_complete_fired == v.manager.all_complete_fired
        }),
    decreases sessions.len(),
{
    if sessions.len() > 0 {
        let rest = sessions.drop_last();
        let s = sessions.last();
        law_active_session_rearms_all_complete(v, rest, polls);
        let b = visited_all(v, rest, polls);
        if b.flow == TickFlow::Done && b.visited < polls.len() {
            reveal(visited);
            let r = Run { manager: b.manager, session: s, log: b.log, flow: Flow::Done };
            let announced = if b.seen.dom().contains(s.id.0@) {
                r
            } else {
                r.then_do(EffectView::Emit(announcement(r.manager, r.session)))
            };
            law_poll_keeps_to_its_session(
                announced.knowing(ManagerView { all_complete_fired: false, ..r.manager }),
                polls[b.visited as int],
            );
        }
    }
}

/// The end of all sessions is announced once for each time that they have all ended: where it
/// has been, a tick that finds no active session does not announce it again.
pub proof fn law_all_complete_once(
    v: Visits,
    sessions: Seq<Session>,
    polls: Seq<PollAnswers>,
    now_ms: Option<u64>,
    answer: Option<bool>,
)
    requires
        v.manager.all_complete_fired,
        !v.any_active,
    ensures
        wound_up(visited_all(v, sessions, polls), now_ms, answer).completed is None,
{
    law_active_session_rearms_all_complete(v, sessions, polls);
}

/// A probe of the runtime that fails is reported, and changes nothing.
pub proof fn law_failed_liveness_changes_nothing(r: Run, a: PollAnswers, e: String)
    requires
        r.flow == Flow::Done,
        r.session.runtime_handle is Some,
        a.alive == Some(Err::<bool, String>(e)),
    ensures
        polled(r, a) == erred(
            r.then_do(EffectView::IsAlive { handle: r.session.runtime_handle->0@ }),
            "is_alive: "@ + e@,
        ),
{
    reveal(polled);
}

/// A probe of the agent that fails is reported, and changes nothing.
pub proof fn law_failed_detection_changes_nothing(r: Run, a: PollAnswers, e: String)
    requires
        r.flow == Flow::Done,
        r.session.runtime_handle is Some,
        a.alive == Some(Ok::<bool, String>(true)),
        a.activity == Some(Err::<ActivityState, String>(e)),
    ensures
        polled(r, a) == erred(
            r.then_do(
                EffectView::IsAlive { handle: r.session.runtime_handle->0@ },
            ).then_do(EffectView::DetectActivity { session: r.session }),
            "detect_activity: "@ + e@,
        ),
{
    reveal(polled);
    reveal(crate::lifecycle::tick::live);
}

/// Why a session ends whose runtime or agent is gone.
pub open spec fn gone(r: Run, a: PollAnswers) -> Option<TerminationReason> {
    if r.session.runtime_handle is None {
        Some(TerminationReason::NoHandle)
    } else if a.alive == Some(Ok::<bool, String>(false)) {
        Some(TerminationReason::RuntimeGone)
    } else if a.alive == Some(Ok::<bool, String>(true)) && a.activity == Some(
        Ok::<ActivityState, String>(ActivityState::Exited),
    ) {
        Some(TerminationReason::AgentExited)
    } else {
        None
    }
}

/// A change of status is persisted, then announced, and only then is its reaction carried out,
/// unless the reaction is configured to merge.
pub proof fn law_change_is_announced_before_its_reaction(
    r: Run,
    to: SessionStatus,
    stage: Stage,
    a: TransitionAnswers,
)
    requires
        r.flow == Flow::Done,
        r.session.status != to,
        r.manager.keys is Some,
        reaction_key(r.manager.keys->0, to) is Some,
        !may_merge(to, reaction_key(r.manager.keys->0, to)->0) || (a.reaction matches Some(c)
            && !merges(c)),
        transitioned(r, to, stage, a).flow == Flow::Done,
    ensures
        ({
            let x = transitioned(r, to, stage, a);
            &&& x.session.status == to
            &&& x.log.last() == EffectView::Dispatch {
                session: x.session,
                key: reaction_key(r.manager.keys->0, to)->0,
            }
            &&& exists|i: int|
                r.log.len() <= i < x.log.len() - 2 && #[trigger] x.log[i] == (EffectView::Save {
                    session: x.session,
                }) && x.log[i + 1] == EffectView::Emit(
                    EventView::StatusChanged { id: r.session.id.0@, from: r.session.status, to },
                )
        }),
{
    reveal(transitioned);
    reveal(reacted);
    reveal(settled_and_reacted);
    reveal(settled);
    let key = reaction_key(r.manager.keys->0, to)->0;
    let entered = r.with(Session { status: to, ..r.session });
    let asked = entered.then_do(EffectView::EstimateCost { session: entered.session });
    let paid = costed(asked, a.cost->0);
    let ready = if may_merge(to, key) {
        paid.then_do(EffectView::ResolveReaction { session: paid.session, key })
    } else {
        paid
    };
    let x = transitioned(r, to, stage, a);
    assert(x == settled_and_reacted(ready, key, r.session.status, stage, a));
    assert(x.log[ready.log.len() as int] == (EffectView::Save { session: x.session }));
}

/// A session without a runtime, whose runtime is gone, or whose agent has exited is killed,
/// and that is the last thing announced.
pub proof fn law_gone_session_is_killed(r: Run, a: PollAnswers)
    requires
        r.flow == Flow::Done,
        gone(r, a) is Some,
        polled(r, a).flow == Flow::Done,
    ensures
        polled(r, a).session.status == SessionStatus::Killed,
        polled(r, a).log.last() == EffectView::Emit(
            EventView::Terminated { id: r.session.id.0@, reason: gone(r, a)->0 },
        ),
        !polled(r, a).manager.idle_since.dom().contains(r.session.id.0@),
        !polled(r, a).manager.probed.dom().contains(r.session.id.0@),
{
    reveal(polled);
    reveal(crate::lifecycle::tick::live);
    reveal(crate::lifecycle::transition::terminated);
    reveal(transitioned);
    reveal(reacted);
    reveal(settled_and_reacted);
    reveal(settled);
}

/// The clock of an agent's idleness starts when it is first seen idle or blocked, and is not
/// started again as long as it stays so.
pub proof fn law_idle_clock_runs_on(
    r: Run,
    first: ActivityState,
    then: ActivityState,
    now: u64,
    later: Option<u64>,
)
    requires
        r.flow == Flow::Done,
        first == ActivityState::Idle || first == ActivityState::Blocked,
        then == ActivityState::Idle || then == ActivityState::Blocked,
    ensures
        ({
            let x = idle_updated(r, first, Some(now));
            let id = r.session.id.0@;
            &&& x.manager.idle_since.dom().contains(id)
            &&& !r.manager.idle_since.dom().contains(id) ==> x.manager.idle_since[id] == now
            &&& idle_updated(x, then, later) == x
        }),
{
}

/// As soon as an agent does anything else than being idle or blocked its clock is taken away,
/// so that its next idleness starts anew.
pub proof fn law_activity_resets_idle_clock(
    r: Run,
    busy: ActivityState,
    idle: ActivityState,
    now: u64,
)
    requires
        r.flow == Flow::Done,
        busy != ActivityState::Idle && busy != ActivityState::Blocked,
        idle == ActivityState::Idle || idle == ActivityState::Blocked,
    ensures
        ({
            let x = idle_updated(r, busy, None);
            let id = r.session.id.0@;
            &&& !x.manager.idle_since.dom().contains(id)
            &&& idle_updated(x, idle, Some(now)).manager.idle_since[id] == now
        }),
{
}

/// A session that goes back and forth between `Mergeable` and `MergeFailed` keeps the count
/// of its attempts at the merge. Leaving `MergeFailed` for anything else forgets them.
pub proof fn law_parking_keeps_attempts(
    keys: Seq<(SessionStatus, Seq<char>)>,
    to: SessionStatus,
)
    ensures
        forgotten_key(keys, SessionStatus::Mergeable, SessionStatus::MergeFailed) is None,
        forgotten_key(keys, SessionStatus::MergeFailed, SessionStatus::Mergeable) is None,
        to != SessionStatus::Mergeable ==> forgotten_key(keys, SessionStatus::MergeFailed, to)
            == Some("approved-and-green"@),
{
}

/// Merge conflicts are passed on once. After that nothing is done about them as long as they
/// last. Once they are resolved the reaction is armed again.
pub proof fn law_conflicts_passed_on_once(
    r: Run,
    now: ObservationView,
    then: ObservationView,
    outcome: ReactionOutcome,
    dispatched: Option<Result<Option<ReactionOutcome>, String>>,
    save: Option<Result<(), String>>,
)
    requires
        r.flow == Flow::Done,
        r.manager.keys is Some,
        pr_track(r.session.status),
        !now.readiness.no_conflicts,
        r.session.last_merge_conflict_dispatched != Some(true),
    ensures
        ({
            let x = conflicts_checked(
                r,
                Some(now),
                Some(Ok::<Option<ReactionOutcome>, String>(Some(outcome))),
                Some(Ok::<(), String>(())),
            );
            let y = conflicts_checked(x, Some(then), dispatched, save);
            &&& x.flow == Flow::Done
            &&& x.session.last_merge_conflict_dispatched == Some(true)
            &&& x.session.status == r.session.status
            &&& !then.readiness.no_conflicts ==> y == x
            &&& then.readiness.no_conflicts ==> {
                &&& y.session.last_merge_conflict_dispatched is None
                &&& y.log == x.log.push(
                    EffectView::ClearTracker { id: r.session.id.0@, key: "merge-conflicts"@ },
                ).push(EffectView::Save { session: y.session })
            }
        }),
{
    reveal(conflicts_checked);
}

/// The same session, and nothing new about it but for when its comments were asked for.
spec fn stays(r: Run, x: Run) -> bool {
    &&& x.manager == (ManagerView { commented: x.manager.commented, ..r.manager })
    &&& x.session.id == r.session.id
}

proof fn lemma_conflicts_stay(r: Run, observation: Option<ObservationView>, a: ScmAnswers)
    ensures
        stays(r, conflicts_checked(r, observation, a.conflict_dispatched, a.conflict_saved)),
{
    reveal(conflicts_checked);
}

proof fn lemma_checks_stay(r: Run, pr: PullRequest, a: ScmAnswers)
    ensures
        stays(r, checks_passed_on(r, pr, a)),
{
    reveal(checks_passed_on);
}

proof fn lemma_backlog_stays(r: Run, pr: PullRequest, a: ScmAnswers)
    ensures
        stays(r, backlog_passed_on(r, pr, a)),
{
    reveal(backlog_passed_on);
    reveal(comments_passed_on);
}

proof fn lemma_backlog_due_stays(r: Run, pr: PullRequest, a: ScmAnswers)
    ensures
        stays(r, backlog_due(r, pr, a)),
{
    reveal(backlog_due);
    if let Some(now) = a.comments_now {
        let m = r.manager;
        let noted = r.then_do(EffectView::ReadClock).knowing(
            ManagerView { commented: m.commented.insert(r.session.id.0@, now), ..m },
        );
        lemma_backlog_stays(noted, pr, a);
    }
}

proof fn lemma_bots_stay(r: Run, pr: PullRequest, a: ScmAnswers)
    ensures
        stays(r, bots_passed_on(r, pr, a)),
{
    reveal(bots_passed_on);
    reveal(bot_comments_passed_on);
}

proof fn lemma_passed_on_stays(
    r: Run,
    observation: Option<ObservationView>,
    pr: Option<PullRequest>,
    a: ScmAnswers,
)
    ensures
        stays(r, passed_on(r, observation, pr, a)),
{
    reveal(passed_on);
    lemma_conflicts_stay(r, observation, a);
    let conflicts = conflicts_checked(r, observation, a.conflict_dispatched, a.conflict_saved);
    if let Some(p) = pr {
        lemma_checks_stay(conflicts, p, a);
        let checks = if conflicts.session.status == SessionStatus::CiFailed {
            checks_passed_on(conflicts, p, a)
        } else {
            conflicts
        };
        lemma_backlog_due_stays(checks, p, a);
        lemma_bots_stay(backlog_due(checks, p, a), p, a);
    }
}

proof fn lemma_transition_stays(r: Run, to: SessionStatus, stage: Stage, a: TransitionAnswers)
    ensures
        stays(r, transitioned(r, to, stage, a)),
{
    reveal(transitioned);
    reveal(reacted);
    reveal(settled_and_reacted);
    reveal(merged_and_settled);
    reveal(settled);
}

proof fn lemma_status_stays(
    r: Run,
    observation: Option<ObservationView>,
    pr: Option<PullRequest>,
    a: ScmAnswers,
)
    ensures
        stays(r, status_followed(r, observation, pr, a)),
{
    reveal(status_followed);
    let asked = r.then_do(EffectView::DeriveStatus { current: r.session.status, observation });
    match a.derived {
        None => {},
        Some(None) => {
            lemma_passed_on_stays(asked, observation, pr, a);
        },
        Some(Some(next)) => {
            let (decided, stuck) = if next == SessionStatus::PrOpen {
                stuck_decided(asked, Stage::Scm, a.stuck)
            } else {
                (asked, false)
            };
            assert(stays(asked, decided)) by {
                reveal(stuck_decided);
            }
            let to = if stuck {
                SessionStatus::Stuck
            } else {
                next
            };
            let moved = transitioned(decided, to, Stage::Scm, a.transition);
            lemma_transition_stays(decided, to, Stage::Scm, a.transition);
            lemma_passed_on_stays(moved, observation, pr, a);
        },
    }
}

/// A pull request under review that has been probed is left alone until two minutes have
/// passed.
pub proof fn law_reviews_are_probed_seldom(
    r: Run,
    pr: PullRequest,
    a: ScmAnswers,
    again: ScmAnswers,
    then: u64,
    now: u64,
)
    requires
        a.probes is Some,
        a.probed_at == Some(then),
        again.throttle_now == Some(now),
        elapsed(then, now) < REVIEW_BACKLOG_THROTTLE,
        review_stable(probed(r, pr, a).session.status),
    ensures
        throttled(probed(r, pr, a), pr, again) == probed(r, pr, a).then_do(
            EffectView::ReadClock,
        ),
{
    reveal(probed);
    reveal(throttled);
    let known = r.manager.probed.insert(r.session.id.0@, then);
    let timed = r.then_do(EffectView::ProbePr { pr }).then_do(EffectView::ReadClock).knowing(
        ManagerView { probed: known, ..r.manager },
    );
    if all_probed(a.probes->0) {
        lemma_status_stays(
            timed,
            Some(observed(a.probes->0)),
            Some(pr),
            a,
        );
    }
    assert(probed(r, pr, a).manager.probed == known);
}

/// Review comments that have been asked for are not asked for again until two minutes have
/// passed.
pub proof fn law_comments_are_asked_for_seldom(
    r: Run,
    pr: PullRequest,
    a: ScmAnswers,
    again: ScmAnswers,
    then: u64,
    now: u64,
)
    requires
        r.flow == Flow::Done,
        wired(r.manager),
        review_stable(r.session.status),
        a.comments_now == Some(then),
        !asked_lately(r.manager, r.session.id.0@, then),
        again.comments_now == Some(now),
        elapsed(then, now) < REVIEW_BACKLOG_THROTTLE,
    ensures
        backlog_due(backlog_due(r, pr, a), pr, again) == backlog_due(r, pr, a).then_do(
            EffectView::ReadClock,
        ),
{
    reveal(backlog_due);
    let m = r.manager;
    let noted = r.then_do(EffectView::ReadClock).knowing(
        ManagerView { commented: m.commented.insert(r.session.id.0@, then), ..m },
    );
    assert(backlog_due(r, pr, a) == backlog_passed_on(noted, pr, a));
    reveal(backlog_passed_on);
    reveal(comments_passed_on);
}

/// Review comments that have been passed on are not passed on again, in whatever order they
/// are listed.
pub proof fn law_comments_passed_on_once(
    r: Run,
    pr: PullRequest,
    a: ScmAnswers,
    again: ScmAnswers,
    first: Vec<ReviewComment>,
    second: Vec<ReviewComment>,
)
    requires
        r.flow == Flow::Done,
        review_stable(r.session.status),
        a.comments == Some(Ok::<Vec<ReviewComment>, String>(first)),
        again.comments == Some(Ok::<Vec<ReviewComment>, String>(second)),
        first@.len() > 0,
        comment_rows(first@).to_multiset() == comment_rows(second@).to_multiset(),
        backlog_passed_on(r, pr, a).flow == Flow::Done,
    ensures
        ({
            let x = backlog_passed_on(r, pr, a);
            backlog_passed_on(x, pr, again) == if wired(r.manager) {
                x.then_do(EffectView::ListComments { pr })
            } else {
                x
            }
        }),
{
    reveal(backlog_passed_on);
    law_fingerprint_ignores_order(comment_rows(first@), comment_rows(second@));
}

/// Comments of bots that have been passed on are not passed on again, in whatever order they
/// are listed.
pub proof fn law_bot_comments_passed_on_once(
    r: Run,
    pr: PullRequest,
    a: ScmAnswers,
    again: ScmAnswers,
    first: Vec<AutomatedComment>,
    second: Vec<AutomatedComment>,
)
    requires
        r.flow == Flow::Done,
        a.bot_comments == Some(Ok::<Vec<AutomatedComment>, String>(first)),
        again.bot_comments == Some(Ok::<Vec<AutomatedComment>, String>(second)),
        first@.len() > 0,
        automated_rows(first@).to_multiset() == automated_rows(second@).to_multiset(),
        bots_passed_on(r, pr, a).flow == Flow::Done,
    ensures
        ({
            let x = bots_passed_on(r, pr, a);
            bots_passed_on(x, pr, again) == if wired(r.manager) {
                x.then_do(EffectView::ListAutomatedComments { pr })
            } else {
                x
            }
        }),
{
    reveal(bots_passed_on);
    law_fingerprint_ignores_order(automated_rows(first@), automated_rows(second@));
    assert(second@.len() > 0) by {
        automated_rows(first@).to_multiset_ensures();
        automated_rows(second@).to_multiset_ensures();
    }
}

/// What the watchers are told about the session's pull request, where there is something.
pub open spec fn news(
    s: Session,
    found: Map<Seq<char>, Option<PullRequest>>,
    enriched: Map<Seq<char>, EnrichmentView>,
) -> Option<EnrichmentView> {
    let id = s.id.0@;
    if has_pr(found, id) && enriched.dom().contains(pr_key(found[id]->0)) {
        Some(enriched[pr_key(found[id]->0)])
    } else {
        None
    }
}

/// The watchers have been told what was fetched for the session.
pub open spec fn informed(
    t: Telling,
    s: Session,
    found: Map<Seq<char>, Option<PullRequest>>,
    enriched: Map<Seq<char>, EnrichmentView>,
) -> bool {
    news(s, found, enriched) matches Some(e) ==> t.told.dom().contains(s.id.0@) && t.told[s.id.0@]
        == e
}

proof fn lemma_all_informed(
    t: Telling,
    sessions: Seq<Session>,
    found: Map<Seq<char>, Option<PullRequest>>,
    enriched: Map<Seq<char>, EnrichmentView>,
)
    ensures
        forall|i: int|
            0 <= i < sessions.len() ==> informed(
                told_all(t, sessions, found, enriched),
                #[trigger] sessions[i],
                found,
                enriched,
            ),
    decreases sessions.len(),
{
    if sessions.len() > 0 {
        let rest = sessions.drop_last();
        lemma_all_informed(t, rest, found, enriched);
        assert forall|i: int| 0 <= i < sessions.len() implies informed(
            told_all(t, sessions, found, enriched),
            #[trigger] sessions[i],
            found,
            enriched,
        ) by {
            if i < rest.len() {
                assert(rest[i] == sessions[i]);
            }
        }
    }
}

proof fn lemma_nothing_new(
    t: Telling,
    sessions: Seq<Session>,
    found: Map<Seq<char>, Option<PullRequest>>,
    enriched: Map<Seq<char>, EnrichmentView>,
)
    requires
        forall|i: int|
            0 <= i < sessions.len() ==> informed(t, #[trigger] sessions[i], found, enriched),
    ensures
        told_all(t, sessions, found, enriched) == t,
    decreases sessions.len(),
{
    if sessions.len() > 0 {
        let rest = sessions.drop_last();
        assert forall|i: int| 0 <= i < rest.len() implies informed(
            t,
            #[trigger] rest[i],
            found,
            enriched,
        ) by {
            assert(rest[i] == sessions[i]);
        }
        lemma_nothing_new(t, rest, found, enriched);
        assert(informed(t, sessions[sessions.len() - 1], found, enriched));
    }
}

/// The watchers are only told of changes: where the same is fetched again, there is nothing
/// to tell.
pub proof fn law_watchers_are_told_of_changes_only(
    t: Telling,
    sessions: Seq<Session>,
    found: Map<Seq<char>, Option<PullRequest>>,
    enriched: Map<Seq<char>, EnrichmentView>,
)
    ensures
        ({
            let x = told_all(t, sessions, found, enriched);
            told_all(x, sessions, found, enriched) == x
        }),
{
    lemma_all_informed(t, sessions, found, enriched);
    lemma_nothing_new(told_all(t, sessions, found, enriched), sessions, found, enriched);
}

} // verus!
