//! What the watchers are told adds up.

use vstd::prelude::*;

use crate::events::{EventView, TerminationReason};
use crate::lifecycle::effects::{
    EffectView, Flow, PollAnswers, ScmAnswers, Slot, Stage, StuckAnswers, TransitionAnswers,
};
use crate::lifecycle::scm_poll::{
    all_probed, backlog_due, backlog_passed_on, bots_passed_on, checks_passed_on, claimed, found,
    observed, passed_on, pr_key, probed, scm_polled, status_followed, throttled,
};
use crate::lifecycle::stuck::{
    conflicts_checked, idle_updated, saved, stuck_checked, stuck_decided,
};
use crate::lifecycle::tick::{
    activity_kept, at_work, finished, live, moved, polled, taken_down, wakes, watched,
};
use crate::lifecycle::transition::{
    buried, costed, end_status, merged_and_settled, notified, reacted, settled, settled_and_reacted,
    terminated, transitioned,
};
use crate::lifecycle::{reaction_key, ManagerView, Run};
use crate::reactions::{ReactionConfig, ReactionOutcome};
use crate::scm::{ObservationView, PullRequest};
use crate::types::{ActivityState, Session, SessionStatus};

verus! {

/// Where the announcements lead.
pub struct Trail {
    /// The status that was announced last.
    pub status: SessionStatus,
    /// The session's end has been announced.
    pub ended: bool,
}

/// Where the announcements among the effects from number `n` on lead, for the session `id`
/// that had `status` before. They lead nowhere if they do not add up. A change of status
/// starts from the status that was announced before, leads to another one, and comes right
/// after the session was written to disk with it. The end of a session is announced when it
/// has a terminal status, and nothing comes after that.
pub open spec fn trail(
    log: Seq<EffectView>,
    n: nat,
    id: Seq<char>,
    status: SessionStatus,
) -> Option<Trail>
    decreases log.len(),
{
    if log.len() <= n {
        Some(Trail { status, ended: false })
    } else {
        match trail(log.drop_last(), n, id, status) {
            None => None,
            Some(t) => if t.ended {
                None
            } else {
                match log.last() {
                    EffectView::Emit(EventView::StatusChanged { id: i, from, to }) => if i == id
                        && from == t.status && from != to && log.len() >= n + 2 && (log[log.len()
                        - 2] matches EffectView::Save { session } && session.id.0@ == id
                        && session.status == to) {
                        Some(Trail { status: to, ended: false })
                    } else {
                        None
                    },
                    EffectView::Emit(EventView::Terminated { id: i, reason }) => if i == id
                        && t.status.terminal() {
                        Some(Trail { status: t.status, ended: true })
                    } else {
                        None
                    },
                    e => if quiet(e, id) {
                        Some(t)
                    } else {
                        None
                    },
                }
            },
        }
    }
}

/// An effect that announces neither a change of status nor an end. Of the events only what
/// the session `id` does now, and errors of its poll, are left.
pub open spec fn quiet(e: EffectView, id: Seq<char>) -> bool {
    match e {
        EffectView::Emit(EventView::ActivityChanged { id: i, .. }) => i == id,
        EffectView::Emit(EventView::TickError { id: i, .. }) => i == id,
        EffectView::Emit(_) => false,
        _ => true,
    }
}

/// Two maps differ at most in what stands under `id`.
pub open spec fn same_but<V>(a: Map<Seq<char>, V>, b: Map<Seq<char>, V>, id: Seq<char>) -> bool {
    forall|k: Seq<char>|
        k != id ==> (#[trigger] a.dom().contains(k) == b.dom().contains(k)) && (a.dom().contains(k)
            ==> a[k] == b[k])
}

/// All that is in the first map is in the second.
pub open spec fn within<V>(a: Map<Seq<char>, V>, b: Map<Seq<char>, V>) -> bool {
    forall|k: Seq<char>| #[trigger]
        a.dom().contains(k) ==> b.dom().contains(k) && a[k] == b[k]
}

/// What the lifecycle knows besides the session `id` is what it knew before; of what the
/// batch fetched, some may have been used up.
pub open spec fn frame(m: ManagerView, before: ManagerView, id: Seq<char>) -> bool {
    &&& m == (ManagerView {
        idle_since: m.idle_since,
        probed: m.probed,
        commented: m.commented,
        detected: m.detected,
        enriched: m.enriched,
        ..before
    })
    &&& same_but(m.idle_since, before.idle_since, id)
    &&& same_but(m.probed, before.probed, id)
    &&& same_but(m.commented, before.commented, id)
    &&& same_but(m.detected, before.detected, id)
    &&& within(m.enriched, before.enriched)
}

/// The session is the one that it was before, whatever has become of it: only its status,
/// its activity, its cost, its pull request and what was passed on to it may be others.
pub open spec fn same_origin(s: Session, before: Session) -> bool {
    s == (Session {
        status: s.status,
        activity: s.activity,
        cost: s.cost,
        claimed_pr_number: s.claimed_pr_number,
        claimed_pr_url: s.claimed_pr_url,
        last_merge_conflict_dispatched: s.last_merge_conflict_dispatched,
        last_review_backlog_fingerprint: s.last_review_backlog_fingerprint,
        last_automated_review_fingerprint: s.last_automated_review_fingerprint,
        last_automated_review_dispatch_hash: s.last_automated_review_dispatch_hash,
        ..before
    })
}

/// Where the announcements since `o` lead.
pub open spec fn trail_since(r: Run, o: Run) -> Option<Trail> {
    trail(r.log, o.log.len(), o.session.id.0@, o.session.status)
}

/// Nothing but the session has changed since `o`.
pub open spec fn apart(r: Run, o: Run) -> bool {
    &&& o.log.len() <= r.log.len()
    &&& same_origin(r.session, o.session)
    &&& frame(r.manager, o.manager, o.session.id.0@)
}

/// The announcements since `o` lead to `status`.
#[verifier::opaque]
pub open spec fn leads(r: Run, o: Run, status: SessionStatus) -> bool {
    &&& apart(r, o)
    &&& trail_since(r, o) == Some(Trail { status, ended: false })
}

/// The announcements since `o` add up, and if the poll is not cut short they lead to the
/// status that the session has.
#[verifier::opaque]
pub open spec fn adds_up(r: Run, o: Run) -> bool {
    &&& apart(r, o)
    &&& trail_since(r, o) is Some
    &&& r.flow == Flow::Done ==> trail_since(r, o)->0.status == r.session.status
}

/// The announcements add up so far, and the session has not ended.
pub open spec fn under_way(r: Run, o: Run) -> bool {
    leads(r, o, r.session.status)
}

broadcast proof fn lemma_whose(r: Run, o: Run, status: SessionStatus)
    requires
        #[trigger] leads(r, o, status),
    ensures
        r.session.id.0@ == o.session.id.0@,
{
    reveal(leads);
}

broadcast proof fn lemma_quiet(r: Run, e: EffectView, o: Run, status: SessionStatus)
    requires
        leads(r, o, status),
        quiet(e, o.session.id.0@),
    ensures
        #[trigger] leads(r.then_do(e), o, status),
{
    reveal(leads);
    assert(r.then_do(e).log.drop_last() =~= r.log);
}

broadcast proof fn lemma_stopped(r: Run, flow: Flow, o: Run, status: SessionStatus)
    requires
        leads(r, o, status),
    ensures
        #[trigger] leads(r.stop(flow), o, status),
{
    reveal(leads);
}

broadcast proof fn lemma_with(r: Run, s: Session, o: Run, status: SessionStatus)
    requires
        leads(r, o, status),
        same_origin(s, r.session),
    ensures
        #[trigger] leads(r.with(s), o, status),
{
    reveal(leads);
}

broadcast proof fn lemma_knowing(r: Run, m: ManagerView, o: Run, status: SessionStatus)
    requires
        leads(r, o, status),
        frame(m, r.manager, r.session.id.0@),
    ensures
        #[trigger] leads(r.knowing(m), o, status),
{
    reveal(leads);
}

broadcast proof fn lemma_done(r: Run, o: Run)
    requires
        under_way(r, o),
    ensures
        #[trigger] adds_up(r, o),
{
    reveal(leads);
    reveal(adds_up);
}

broadcast group group_leads {
    lemma_whose,
    lemma_quiet,
    lemma_stopped,
    lemma_with,
    lemma_knowing,
    lemma_done,
}

proof fn lemma_cut_short(r: Run, o: Run, status: SessionStatus)
    requires
        leads(r, o, status),
        r.flow != Flow::Done,
    ensures
        adds_up(r, o),
{
    reveal(leads);
    reveal(adds_up);
}

/// The outcome of a step that is part of a poll: the announcements add up, and lead to the
/// status that the session has.
pub open spec fn sound(x: Run, o: Run,) -> bool {
    &&& adds_up(x, o)
    &&& x.flow == Flow::Done ==> under_way(x, o)
}

proof fn lemma_settled(
    r: Run,
    o: Run,
    from: SessionStatus,
    stage: Stage,
    a: TransitionAnswers,
)
    requires
        r.flow == Flow::Done,
        leads(r, o, from),
    ensures
        sound(settled(r, from, stage, a), o),
{
    broadcast use group_leads;

    reveal(settled);
    let x = settled(r, from, stage, a);
    let to = r.session.status;
    if to != from {
        let e = EffectView::Save { session: r.session };
        let saving = r.then_do(e);
        assert(leads(saving, o, from));
        if !(a.saved matches Some(Ok(_))) {
            assert(leads(x, o, from));
            lemma_cut_short(x, o, from);
        } else {
            let told = saving.then_do(
                EffectView::Emit(EventView::StatusChanged { id: r.session.id.0@, from, to }),
            );
            assert(leads(told, o, to)) by {
                reveal(leads);
                assert(told.log.drop_last() =~= saving.log);
                assert(told.log[told.log.len() - 2] == e);
            }
            if let Some(parent) = told.session.spawned_by {
                let asked = told.then_do(EffectView::FindSession { prefix: parent.0@ });
                assert(leads(asked, o, to));
                assert(leads(notified(told, to, stage, a), o, to));
            }
            assert(leads(x, o, to));
        }
    }
}

proof fn lemma_settled_and_reacted(
    r: Run,
    o: Run,
    key: Seq<char>,
    from: SessionStatus,
    stage: Stage,
    a: TransitionAnswers,
)
    requires
        r.flow == Flow::Done,
        leads(r, o, from),
    ensures
        sound(settled_and_reacted(r, key, from, stage, a), o),
{
    broadcast use group_leads;

    reveal(settled_and_reacted);
    lemma_settled(r, o, from, stage, a);
    let done = settled(r, from, stage, a);
    if done.flow == Flow::Done {
        assert(leads(
            done.then_do(EffectView::Dispatch { session: r.session, key }),
            o,
            done.session.status,
        ));
    }
}

proof fn lemma_merged_and_settled(
    r: Run,
    o: Run,
    key: Seq<char>,
    configured: Option<ReactionConfig>,
    from: SessionStatus,
    stage: Stage,
    a: TransitionAnswers,
)
    requires
        r.flow == Flow::Done,
        leads(r, o, from),
    ensures
        sound(merged_and_settled(r, key, configured, from, stage, a), o),
{
    broadcast use group_leads;

    reveal(merged_and_settled);
    let asked = r.then_do(EffectView::Dispatch { session: r.session, key });
    let parked = asked.with(Session { status: SessionStatus::MergeFailed, ..r.session });
    assert(leads(asked, o, from));
    assert(leads(parked, o, from));
    lemma_settled(asked, o, from, stage, a);
    lemma_settled(parked, o, from, stage, a);
    let waiting = asked.stop(Flow::Waiting(Slot::Dispatched(stage)));
    assert(leads(waiting, o, from));
    lemma_cut_short(waiting, o, from);
}

proof fn lemma_reacted(
    r: Run,
    o: Run,
    from: SessionStatus,
    stage: Stage,
    a: TransitionAnswers,
)
    requires
        r.flow == Flow::Done,
        leads(r, o, from),
    ensures
        sound(reacted(r, from, stage, a), o),
{
    broadcast use group_leads;

    reveal(reacted);
    let to = r.session.status;
    let key = match r.manager.keys {
        Some(keys) => reaction_key(keys, to),
        None => None,
    };
    if key is None {
        lemma_settled(r, o, from, stage, a);
    } else {
        let key = key->0;
        let resolving = r.then_do(EffectView::ResolveReaction { session: r.session, key });
        assert(leads(resolving, o, from));
        lemma_settled_and_reacted(r, o, key, from, stage, a);
        lemma_settled_and_reacted(resolving, o, key, from, stage, a);
        if let Some(configured) = a.reaction {
            lemma_merged_and_settled(resolving, o, key, configured, from, stage, a);
        }
        let waiting = resolving.stop(Flow::Waiting(Slot::Reaction(stage)));
        assert(leads(waiting, o, from));
        lemma_cut_short(waiting, o, from);
    }
}

pub(crate) proof fn lemma_transitioned(
    r: Run,
    o: Run,
    to: SessionStatus,
    stage: Stage,
    a: TransitionAnswers,
)
    requires
        r.flow == Flow::Done,
        under_way(r, o),
    ensures
        sound(transitioned(r, to, stage, a), o),
{
    broadcast use group_leads;

    reveal(transitioned);
    let from = r.session.status;
    if from != to {
        let entered = r.with(Session { status: to, ..r.session });
        assert(leads(entered, o, from));
        let asked = entered.then_do(EffectView::EstimateCost { session: entered.session });
        assert(leads(asked, o, from));
        match a.cost {
            None => {
                let x = asked.stop(Flow::Waiting(Slot::Cost(stage)));
                assert(leads(x, o, from));
                lemma_cut_short(x, o, from);
            },
            Some(cost) => {
                if let Ok(Some(c)) = cost {
                    let noted = asked.then_do(
                        EffectView::RecordCost { session: asked.session, cost: c },
                    );
                    assert(leads(noted, o, from));
                }
                assert(leads(costed(asked, cost), o, from));
                lemma_reacted(costed(asked, cost), o, from, stage, a);
            },
        }
    }
}

proof fn lemma_transition_ends(r: Run, to: SessionStatus, stage: Stage, a: TransitionAnswers)
    requires
        r.flow == Flow::Done,
        to != SessionStatus::Mergeable,
    ensures
        transitioned(r, to, stage, a).flow == Flow::Done ==> transitioned(
            r,
            to,
            stage,
            a,
        ).session.status == to,
{
    reveal(transitioned);
    reveal(reacted);
    reveal(settled_and_reacted);
    reveal(settled);
}

proof fn lemma_terminated(
    r: Run,
    o: Run,
    reason: TerminationReason,
    stage: Stage,
    a: TransitionAnswers,
)
    requires
        r.flow == Flow::Done,
        under_way(r, o),
    ensures
        adds_up(terminated(r, reason, stage, a), o),
{
    broadcast use group_leads;

    reveal(terminated);
    let end = end_status(reason);
    lemma_transitioned(r, o, end, stage, a);
    lemma_transition_ends(r, end, stage, a);
    let x = transitioned(r, end, stage, a);
    if x.flow == Flow::Done {
        let cleared = if x.manager.keys is Some {
            x.then_do(EffectView::ClearAllTrackers { id: x.session.id.0@ })
        } else {
            x
        };
        assert(leads(cleared, o, end));
        let y = buried(x, reason);
        reveal(leads);
        reveal(adds_up);
        assert(y.log.drop_last() =~= cleared.log);
    }
}

proof fn lemma_stuck_decided(r: Run, o: Run, stage: Stage, a: StuckAnswers)
    requires
        r.flow == Flow::Done,
        under_way(r, o),
    ensures
        under_way(stuck_decided(r, stage, a).0, o),
{
    broadcast use group_leads;

    reveal(stuck_decided);
}

proof fn lemma_stuck_checked(r: Run, o: Run, a: StuckAnswers, t: TransitionAnswers)
    requires
        r.flow == Flow::Done,
        under_way(r, o),
    ensures
        sound(stuck_checked(r, a, t), o),
{
    broadcast use group_leads;

    reveal(stuck_checked);
    lemma_stuck_decided(r, o, Stage::Stuck, a);
    let (decided, stuck) = stuck_decided(r, Stage::Stuck, a);
    if decided.flow == Flow::Done && stuck {
        lemma_transitioned(decided, o, SessionStatus::Stuck, Stage::Stuck, t);
    }
}

proof fn lemma_conflicts_checked(r: Run, o: Run, observation: Option<ObservationView>, dispatched: Option<Result<Option<ReactionOutcome>, String>>, save: Option<Result<(), String>>)
    requires
        r.flow == Flow::Done,
        under_way(r, o),
    ensures
        under_way(conflicts_checked(r, observation, dispatched, save), o),
{
    broadcast use group_leads;

    reveal(conflicts_checked);
}

proof fn lemma_checks_passed_on(r: Run, o: Run, pr: PullRequest, a: ScmAnswers)
    requires
        r.flow == Flow::Done,
        under_way(r, o),
    ensures
        under_way(checks_passed_on(r, pr, a), o),
{
    broadcast use group_leads;

    reveal(checks_passed_on);
}

proof fn lemma_backlog_passed_on(r: Run, o: Run, pr: PullRequest, a: ScmAnswers)
    requires
        r.flow == Flow::Done,
        under_way(r, o),
    ensures
        under_way(backlog_passed_on(r, pr, a), o),
{
    broadcast use group_leads;

    reveal(backlog_passed_on);
}

proof fn lemma_backlog_due(r: Run, o: Run, pr: PullRequest, a: ScmAnswers)
    requires
        r.flow == Flow::Done,
        under_way(r, o),
    ensures
        under_way(backlog_due(r, pr, a), o),
{
    broadcast use group_leads;

    reveal(backlog_due);
    let timed = r.then_do(EffectView::ReadClock);
    assert(under_way(timed, o));
    if let Some(now) = a.comments_now {
        let m = r.manager;
        let noted = timed.knowing(
            ManagerView { commented: m.commented.insert(r.session.id.0@, now), ..m },
        );
        assert(under_way(noted, o));
        lemma_backlog_passed_on(noted, o, pr, a);
    }
}

proof fn lemma_bots_passed_on(r: Run, o: Run, pr: PullRequest, a: ScmAnswers)
    requires
        r.flow == Flow::Done,
        under_way(r, o),
    ensures
        under_way(bots_passed_on(r, pr, a), o),
{
    broadcast use group_leads;

    reveal(bots_passed_on);
}

proof fn lemma_passed_on(r: Run, o: Run, observation: Option<ObservationView>, pr: Option<PullRequest>, a: ScmAnswers)
    requires
        r.flow == Flow::Done,
        under_way(r, o),
    ensures
        under_way(passed_on(r, observation, pr, a), o),
{
    broadcast use group_leads;

    reveal(passed_on);
    lemma_conflicts_checked(
        r,
        o,
        observation,
        a.conflict_dispatched,
        a.conflict_saved,
    );
    let conflicts = conflicts_checked(r, observation, a.conflict_dispatched, a.conflict_saved);
    if let Some(pr) = pr {
        if conflicts.flow == Flow::Done {
            lemma_checks_passed_on(conflicts, o, pr, a);
            let checks = if conflicts.session.status == SessionStatus::CiFailed {
                checks_passed_on(conflicts, pr, a)
            } else {
                conflicts
            };
            if checks.flow == Flow::Done {
                lemma_backlog_due(checks, o, pr, a);
                let backlog = backlog_due(checks, pr, a);
                if backlog.flow == Flow::Done {
                    lemma_bots_passed_on(backlog, o, pr, a);
                }
            }
        }
    }
}

proof fn lemma_status_followed(r: Run, o: Run, observation: Option<ObservationView>, pr: Option<PullRequest>, a: ScmAnswers)
    requires
        r.flow == Flow::Done,
        under_way(r, o),
    ensures
        sound(status_followed(r, observation, pr, a), o),
{
    broadcast use group_leads;

    reveal(status_followed);
    let asked = r.then_do(
        EffectView::DeriveStatus { current: r.session.status, observation },
    );
    assert(under_way(asked, o));
    lemma_passed_on(asked, o, observation, pr, a);
    if let Some(Some(next)) = a.derived {
        lemma_stuck_decided(asked, o, Stage::Scm, a.stuck);
        let (decided, stuck) = if next == SessionStatus::PrOpen {
            stuck_decided(asked, Stage::Scm, a.stuck)
        } else {
            (asked, false)
        };
        let next = if stuck {
            SessionStatus::Stuck
        } else {
            next
        };
        if decided.flow == Flow::Done {
            lemma_transitioned(decided, o, next, Stage::Scm, a.transition);
            let moved = transitioned(decided, next, Stage::Scm, a.transition);
            if moved.flow == Flow::Done {
                lemma_passed_on(moved, o, observation, pr, a);
            }
        }
    }
}

proof fn lemma_probed(r: Run, o: Run, pr: PullRequest, a: ScmAnswers)
    requires
        r.flow == Flow::Done,
        under_way(r, o),
    ensures
        sound(probed(r, pr, a), o),
{
    broadcast use group_leads;

    reveal(probed);
    let m = r.manager;
    let asked = r.then_do(EffectView::ProbePr { pr });
    let timed = asked.then_do(EffectView::ReadClock);
    assert(under_way(asked, o));
    assert(under_way(timed, o));
    if a.probes is Some && a.probed_at is Some {
        let known = timed.knowing(
            ManagerView { probed: m.probed.insert(r.session.id.0@, a.probed_at->0), ..m },
        );
        assert(under_way(known, o));
        lemma_status_followed(known, o, Some(observed(a.probes->0)), Some(pr), a);
    }
    if !(a.probes is Some && a.probed_at is Some && all_probed(a.probes->0)) {
        assert(under_way(probed(r, pr, a), o));
    }
}

proof fn lemma_throttled(r: Run, o: Run, pr: PullRequest, a: ScmAnswers)
    requires
        r.flow == Flow::Done,
        under_way(r, o),
    ensures
        sound(throttled(r, pr, a), o),
{
    broadcast use group_leads;

    reveal(throttled);
    let timed = r.then_do(EffectView::ReadClock);
    assert(under_way(timed, o));
    assert(under_way(timed.stop(Flow::Waiting(Slot::ThrottleNow)), o));
    lemma_probed(timed, o, pr, a);
    lemma_probed(r, o, pr, a);
}

proof fn lemma_found(r: Run, o: Run, pr: Option<PullRequest>, a: ScmAnswers)
    requires
        r.flow == Flow::Done,
        under_way(r, o),
    ensures
        sound(found(r, pr, a), o),
{
    broadcast use group_leads;

    reveal(found);
    match pr {
        None => {
            lemma_status_followed(r, o, None, None, a);
        },
        Some(p) => {
            let s = claimed(r.session, p);
            let kept = r.with(s).then_do(EffectView::Save { session: s });
            let m = r.manager;
            let key = pr_key(p);
            let known = kept.knowing(ManagerView { enriched: m.enriched.remove(key), ..m });
            assert(under_way(kept, o));
            assert(under_way(known, o));
            lemma_status_followed(
                known,
                o,
                Some(m.enriched[key].observation),
                pr,
                a,
            );
            lemma_throttled(kept, o, p, a);
        },
    }
}

pub(crate) proof fn lemma_scm_polled(r: Run, o: Run, a: ScmAnswers)
    requires
        r.flow == Flow::Done,
        under_way(r, o),
    ensures
        sound(scm_polled(r, a), o),
{
    broadcast use group_leads;

    reveal(scm_polled);
    let who = r.session.id.0@;
    let m = r.manager;
    let asked = r.then_do(EffectView::DetectPr { session: r.session });
    assert(under_way(asked, o));
    if m.detected.dom().contains(who) {
        let known = r.knowing(ManagerView { detected: m.detected.remove(who), ..m });
        assert(under_way(known, o));
        lemma_found(known, o, m.detected[who], a);
    } else if let Some(Ok(pr)) = a.detected {
        lemma_found(asked, o, pr, a);
    } else {
        assert(under_way(scm_polled(r, a), o));
    }
}

proof fn lemma_finished(
    r: Run,
    o: Run,
    before: SessionStatus,
    a: PollAnswers,
)
    requires
        r.flow == Flow::Done,
        under_way(r, o),
    ensures
        adds_up(finished(r, before, a), o),
{
    broadcast use group_leads;

    reveal(finished);
    let down = if r.session.status == SessionStatus::Merged {
        taken_down(r)
    } else {
        r
    };
    assert(under_way(down, o));
    lemma_terminated(
        down,
        o,
        TerminationReason::PrMerged,
        Stage::Killed,
        a.to_killed,
    );
    lemma_stuck_checked(down, o, a.stuck, a.to_stuck);
}

proof fn lemma_moved(
    r: Run,
    o: Run,
    activity: ActivityState,
    a: PollAnswers,
)
    requires
        r.flow == Flow::Done,
        under_way(r, o),
    ensures
        adds_up(moved(r, activity, a), o),
{
    broadcast use group_leads;

    reveal(moved);
    let before = r.session.status;
    lemma_transitioned(r, o, SessionStatus::Working, Stage::Working, a.to_working);
    let awake = if wakes(before) && at_work(activity) {
        transitioned(r, SessionStatus::Working, Stage::Working, a.to_working)
    } else {
        r
    };
    if awake.flow == Flow::Done {
        lemma_scm_polled(awake, o, a.scm);
        let polled = if r.manager.scm {
            scm_polled(awake, a.scm)
        } else {
            awake
        };
        if polled.flow == Flow::Done {
            lemma_finished(polled, o, before, a);
        }
    }
}

proof fn lemma_watched(
    r: Run,
    o: Run,
    activity: ActivityState,
    a: PollAnswers,
)
    requires
        r.flow == Flow::Done,
        under_way(r, o),
    ensures
        adds_up(watched(r, activity, a), o),
{
    broadcast use group_leads;

    reveal(watched);
    lemma_transitioned(
        r,
        o,
        SessionStatus::NeedsInput,
        Stage::NeedsInput,
        a.to_needs_input,
    );
    let asked = if activity == ActivityState::WaitingInput && r.session.status
        != SessionStatus::NeedsInput {
        transitioned(r, SessionStatus::NeedsInput, Stage::NeedsInput, a.to_needs_input)
    } else {
        r
    };
    if asked.flow == Flow::Done {
        let kept = activity_kept(asked, activity, a.activity_saved);
        assert(under_way(kept, o));
        if kept.flow == Flow::Done {
            let timed = idle_updated(kept, activity, a.idle_now);
            assert(under_way(timed, o));
            if timed.flow == Flow::Done {
                lemma_moved(timed, o, activity, a);
            }
        }
    }
}

proof fn lemma_polled(r: Run, a: PollAnswers)
    requires
        r.flow == Flow::Done,
    ensures
        adds_up(polled(r, a), r),
{
    broadcast use group_leads;

    reveal(polled);
    reveal(live);
    let o = r;
    assert(under_way(r, o)) by {
        reveal(leads);
    }
    match r.session.runtime_handle {
        None => {
            lemma_terminated(
                r,
                o,
                TerminationReason::NoHandle,
                Stage::Killed,
                a.to_killed,
            );
        },
        Some(handle) => {
            let asked = r.then_do(EffectView::IsAlive { handle: handle@ });
            let detecting = asked.then_do(EffectView::DetectActivity { session: r.session });
            assert(under_way(asked, o));
            assert(under_way(detecting, o));
            lemma_terminated(
                asked,
                o,
                TerminationReason::RuntimeGone,
                Stage::Killed,
                a.to_killed,
            );
            if let Some(Ok(activity)) = a.activity {
                lemma_terminated(
                    detecting,
                    o,
                    TerminationReason::AgentExited,
                    Stage::Killed,
                    a.to_killed,
                );
                lemma_watched(detecting, o, activity, a);
            }
        },
    }
}

/// The announcements of one poll add up. They start from the status that the session had
/// before the poll; each change starts from the status that was announced before it, leads
/// to another one, and comes right after the session was written to disk with it. If the
/// poll was not cut short they lead to the status that the session has after it. That the
/// session has ended is announced last, and once it has a terminal status. Everything that
/// is announced is about the session that was polled.
pub proof fn law_announcements_add_up(r: Run, a: PollAnswers)
    requires
        r.flow == Flow::Done,
    ensures
        ({
            let x = polled(r, a);
            let t = trail(x.log, r.log.len(), r.session.id.0@, r.session.status);
            &&& t is Some
            &&& x.flow == Flow::Done ==> t->0.status == x.session.status
        }),
{
    lemma_polled(r, a);
    reveal(adds_up);
}

/// A poll of one session leaves alone what the lifecycle knows of the others, how it was set
/// up, and what the watchers were told of pull requests. Of the session itself it never
/// changes who it is, where it works and what it was asked to do.
pub proof fn law_poll_keeps_to_its_session(r: Run, a: PollAnswers)
    requires
        r.flow == Flow::Done,
    ensures
        same_origin(polled(r, a).session, r.session),
        frame(polled(r, a).manager, r.manager, r.session.id.0@),
{
    lemma_polled(r, a);
    reveal(adds_up);
}

} // verus!
