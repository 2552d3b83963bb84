//! A poll that is run again with more answers does what it did before, and goes on.

use vstd::prelude::*;

use crate::events::{EventView, TerminationReason};
use crate::lifecycle::effects::{
    EffectView, Flow, PollAnswers, ScmAnswers, Slot, Stage, StuckAnswers, TransitionAnswers,
};
use crate::lifecycle::fingerprint::{automated_rows, comment_rows, fingerprint};
use crate::lifecycle::messages::{automated_message, checks_message, comments_message};
use crate::lifecycle::scm_poll::{
    backlog_due, backlog_passed_on, bots_passed_on, bots_seen, checks_passed_on, claimed, erred,
    failures,
    found, observed, passed_on, pr_key, probed, scm_polled, status_followed, throttled,
};
use crate::lifecycle::stuck::{
    conflicts_checked, conflicts_forgotten, idle_updated, saved, stuck_checked, stuck_decided,
};
use crate::lifecycle::tick::{
    activity_kept, at_work, finished, live, moved, polled, taken_down, wakes, watched,
};
use crate::lifecycle::transition::{
    buried, costed, end_status, merged_and_settled, reacted, settled, settled_and_reacted, terminated,
    transitioned,
};
use crate::lifecycle::{reaction_key, ManagerView, Run};
use crate::reactions::ReactionConfig;
use crate::scm::{check_views, ObservationView, PullRequest};
use crate::text::joined;
use crate::types::{ActivityState, Session, SessionStatus};

verus! {

/// An answer that was given is still the same.
pub open spec fn fills<T>(a: Option<T>, b: Option<T>) -> bool {
    a is Some ==> b == a
}

/// `b` holds all answers of `a`.
pub open spec fn transition_fills(a: TransitionAnswers, b: TransitionAnswers) -> bool {
    &&& fills(a.cost, b.cost)
    &&& fills(a.dispatched, b.dispatched)
    &&& fills(a.reaction, b.reaction)
    &&& fills(a.saved, b.saved)
    &&& fills(a.parent, b.parent)
}

/// `b` holds all answers of `a`.
pub open spec fn stuck_fills(a: StuckAnswers, b: StuckAnswers) -> bool {
    fills(a.reaction, b.reaction) && fills(a.now, b.now)
}

/// `b` holds all answers of `a`.
pub open spec fn scm_fills(a: ScmAnswers, b: ScmAnswers) -> bool {
    &&& fills(a.detected, b.detected)
    &&& fills(a.throttle_now, b.throttle_now)
    &&& fills(a.probes, b.probes)
    &&& fills(a.probed_at, b.probed_at)
    &&& fills(a.derived, b.derived)
    &&& stuck_fills(a.stuck, b.stuck)
    &&& transition_fills(a.transition, b.transition)
    &&& fills(a.conflict_dispatched, b.conflict_dispatched)
    &&& fills(a.conflict_saved, b.conflict_saved)
    &&& fills(a.checks, b.checks)
    &&& fills(a.checks_dispatched, b.checks_dispatched)
    &&& fills(a.comments_now, b.comments_now)
    &&& fills(a.comments, b.comments)
    &&& fills(a.comments_dispatched, b.comments_dispatched)
    &&& fills(a.comments_saved, b.comments_saved)
    &&& fills(a.bot_comments, b.bot_comments)
    &&& fills(a.bot_dispatched, b.bot_dispatched)
    &&& fills(a.bot_saved, b.bot_saved)
}

/// `b` holds all answers of `a`.
pub open spec fn poll_fills(a: PollAnswers, b: PollAnswers) -> bool {
    &&& fills(a.alive, b.alive)
    &&& fills(a.activity, b.activity)
    &&& transition_fills(a.to_needs_input, b.to_needs_input)
    &&& fills(a.activity_saved, b.activity_saved)
    &&& fills(a.idle_now, b.idle_now)
    &&& transition_fills(a.to_working, b.to_working)
    &&& scm_fills(a.scm, b.scm)
    &&& transition_fills(a.to_killed, b.to_killed)
    &&& stuck_fills(a.stuck, b.stuck)
    &&& transition_fills(a.to_stuck, b.to_stuck)
}

/// The answer that goes to `slot` is missing.
pub open spec fn transition_lacks(a: TransitionAnswers, stage: Stage, slot: Slot) -> bool {
    ||| slot == Slot::Cost(stage) && a.cost is None
    ||| slot == Slot::Dispatched(stage) && a.dispatched is None
    ||| slot == Slot::Reaction(stage) && a.reaction is None
    ||| slot == Slot::Saved(stage) && a.saved is None
    ||| slot == Slot::Parent(stage) && a.parent is None
}

/// The answer that goes to `slot` is missing.
pub open spec fn stuck_lacks(a: StuckAnswers, stage: Stage, slot: Slot) -> bool {
    ||| slot == Slot::StuckReaction(stage) && a.reaction is None
    ||| slot == Slot::StuckNow(stage) && a.now is None
}

/// The answer that goes to `slot` is missing.
pub open spec fn scm_lacks(a: ScmAnswers, slot: Slot) -> bool {
    ||| slot == Slot::Detected && a.detected is None
    ||| slot == Slot::ThrottleNow && a.throttle_now is None
    ||| slot == Slot::Probes && a.probes is None
    ||| slot == Slot::ProbedAt && a.probed_at is None
    ||| slot == Slot::Derived && a.derived is None
    ||| stuck_lacks(a.stuck, Stage::Scm, slot)
    ||| transition_lacks(a.transition, Stage::Scm, slot)
    ||| slot == Slot::ConflictDispatched && a.conflict_dispatched is None
    ||| slot == Slot::ConflictSaved && a.conflict_saved is None
    ||| slot == Slot::Checks && a.checks is None
    ||| slot == Slot::ChecksDispatched && a.checks_dispatched is None
    ||| slot == Slot::CommentsNow && a.comments_now is None
    ||| slot == Slot::Comments && a.comments is None
    ||| slot == Slot::CommentsDispatched && a.comments_dispatched is None
    ||| slot == Slot::CommentsSaved && a.comments_saved is None
    ||| slot == Slot::BotComments && a.bot_comments is None
    ||| slot == Slot::BotDispatched && a.bot_dispatched is None
    ||| slot == Slot::BotSaved && a.bot_saved is None
}

/// The answer that goes to `slot` is missing.
pub open spec fn poll_lacks(a: PollAnswers, slot: Slot) -> bool {
    ||| slot == Slot::Alive && a.alive is None
    ||| slot == Slot::Activity && a.activity is None
    ||| transition_lacks(a.to_needs_input, Stage::NeedsInput, slot)
    ||| slot == Slot::ActivitySaved && a.activity_saved is None
    ||| slot == Slot::IdleNow && a.idle_now is None
    ||| transition_lacks(a.to_working, Stage::Working, slot)
    ||| scm_lacks(a.scm, slot)
    ||| transition_lacks(a.to_killed, Stage::Killed, slot)
    ||| stuck_lacks(a.stuck, Stage::Stuck, slot)
    ||| transition_lacks(a.to_stuck, Stage::Stuck, slot)
}

/// `b` begins with `a`.
#[verifier::opaque]
pub open spec fn begins_with(b: Seq<EffectView>, a: Seq<EffectView>) -> bool {
    a.is_prefix_of(b)
}

pub broadcast proof fn lemma_begins_itself(a: Seq<EffectView>)
    ensures
        #[trigger] begins_with(a, a),
{
    reveal(begins_with);
    assert(a =~= a.subrange(0, a.len() as int));
}

pub broadcast proof fn lemma_begins_pushed(a: Seq<EffectView>, b: Seq<EffectView>, e: EffectView)
    requires
        begins_with(b, a),
    ensures
        #[trigger] begins_with(b.push(e), a),
{
    reveal(begins_with);
    assert(a =~= b.push(e).subrange(0, a.len() as int)) by {
        assert forall|i: int| 0 <= i < a.len() implies a[i] == b.push(e)[i] by {
            assert(a[i] == b.subrange(0, a.len() as int)[i]);
        }
    }
}

pub broadcast proof fn lemma_begins_chained(
    a: Seq<EffectView>,
    b: Seq<EffectView>,
    c: Seq<EffectView>,
)
    requires
        #[trigger] begins_with(b, a),
        #[trigger] begins_with(c, b),
    ensures
        begins_with(c, a),
{
    reveal(begins_with);
    assert(a =~= c.subrange(0, a.len() as int)) by {
        assert forall|i: int| 0 <= i < a.len() implies a[i] == c.subrange(0, a.len() as int)[i] by {
            assert(a[i] == b.subrange(0, a.len() as int)[i]);
            assert(b[i] == c.subrange(0, b.len() as int)[i]);
        }
    }
}

pub broadcast group group_begins {
    lemma_begins_itself,
    lemma_begins_pushed,
    lemma_begins_chained,
}

/// `x` comes after `r`, and `y` does what `x` did and goes on where `x` waits.
pub open spec fn goes_on(r: Run, x: Run, y: Run) -> bool {
    &&& begins_with(x.log, r.log)
    &&& begins_with(y.log, x.log)
    &&& x.flow is Waiting || y == x
}

pub(crate) proof fn lemma_settled(
    r: Run,
    from: SessionStatus,
    stage: Stage,
    a: TransitionAnswers,
    b: TransitionAnswers,
)
    requires
        r.flow == Flow::Done,
        transition_fills(a, b),
    ensures
        goes_on(r, settled(r, from, stage, a), settled(r, from, stage, b)),
        settled(r, from, stage, a).flow matches Flow::Waiting(s) ==> transition_lacks(a, stage, s),
{
    broadcast use group_begins;

    reveal(settled);
}

pub(crate) proof fn lemma_settled_and_reacted(
    r: Run,
    key: Seq<char>,
    from: SessionStatus,
    stage: Stage,
    a: TransitionAnswers,
    b: TransitionAnswers,
)
    requires
        r.flow == Flow::Done,
        transition_fills(a, b),
    ensures
        goes_on(
            r,
            settled_and_reacted(r, key, from, stage, a),
            settled_and_reacted(r, key, from, stage, b),
        ),
        settled_and_reacted(r, key, from, stage, a).flow matches Flow::Waiting(s)
            ==> transition_lacks(a, stage, s),
{
    broadcast use group_begins;

    reveal(settled_and_reacted);
    lemma_settled(r, from, stage, a, b);
    let x = settled(r, from, stage, a);
    let y = settled(r, from, stage, b);
    assert(begins_with(
        x.then_do(EffectView::Dispatch { session: r.session, key }).log,
        x.log,
    ));
    assert(begins_with(
        y.then_do(EffectView::Dispatch { session: r.session, key }).log,
        y.log,
    ));
}

pub(crate) proof fn lemma_merged_and_settled(
    r: Run,
    key: Seq<char>,
    configured: Option<ReactionConfig>,
    from: SessionStatus,
    stage: Stage,
    a: TransitionAnswers,
    b: TransitionAnswers,
)
    requires
        r.flow == Flow::Done,
        transition_fills(a, b),
    ensures
        goes_on(
            r,
            merged_and_settled(r, key, configured, from, stage, a),
            merged_and_settled(r, key, configured, from, stage, b),
        ),
        merged_and_settled(r, key, configured, from, stage, a).flow matches Flow::Waiting(s)
            ==> transition_lacks(a, stage, s),
{
    broadcast use group_begins;

    reveal(merged_and_settled);
    let asked = r.then_do(EffectView::Dispatch { session: r.session, key });
    let parked = asked.with(Session { status: SessionStatus::MergeFailed, ..r.session });
    assert(begins_with(asked.log, r.log));
    lemma_settled(asked, from, stage, a, b);
    lemma_settled(parked, from, stage, a, b);
    assert(begins_with(settled(parked, from, stage, a).log, asked.log));
}

pub(crate) proof fn lemma_reacted(
    r: Run,
    from: SessionStatus,
    stage: Stage,
    a: TransitionAnswers,
    b: TransitionAnswers,
)
    requires
        r.flow == Flow::Done,
        transition_fills(a, b),
    ensures
        goes_on(r, reacted(r, from, stage, a), reacted(r, from, stage, b)),
        reacted(r, from, stage, a).flow matches Flow::Waiting(s) ==> transition_lacks(a, stage, s),
{
    broadcast use group_begins;

    reveal(reacted);
    let to = r.session.status;
    let key = match r.manager.keys {
        Some(keys) => reaction_key(keys, to),
        None => None,
    };
    if key is None {
        lemma_settled(r, from, stage, a, b);
    } else {
        let key = key->0;
        let resolving = r.then_do(EffectView::ResolveReaction { session: r.session, key });
        assert(begins_with(resolving.log, r.log));
        lemma_settled_and_reacted(r, key, from, stage, a, b);
        lemma_settled_and_reacted(resolving, key, from, stage, a, b);
        if let Some(configured) = b.reaction {
            lemma_merged_and_settled(resolving, key, configured, from, stage, a, b);
        }
    }
}

pub(crate) proof fn lemma_transitioned(
    r: Run,
    to: SessionStatus,
    stage: Stage,
    a: TransitionAnswers,
    b: TransitionAnswers,
)
    requires
        r.flow == Flow::Done,
        transition_fills(a, b),
    ensures
        goes_on(r, transitioned(r, to, stage, a), transitioned(r, to, stage, b)),
        transitioned(r, to, stage, a).flow matches Flow::Waiting(s) ==> transition_lacks(
            a,
            stage,
            s,
        ),
{
    broadcast use group_begins;

    reveal(transitioned);
    let from = r.session.status;
    if from != to {
        let entered = r.with(Session { status: to, ..r.session });
        let asked = entered.then_do(EffectView::EstimateCost { session: entered.session });
        assert(begins_with(asked.log, r.log));
        if b.cost is Some {
            let paid = costed(asked, b.cost->0);
            assert(begins_with(paid.log, asked.log));
            lemma_reacted(paid, from, stage, a, b);
        }
    }
}

pub(crate) proof fn lemma_terminated(
    r: Run,
    reason: TerminationReason,
    stage: Stage,
    a: TransitionAnswers,
    b: TransitionAnswers,
)
    requires
        r.flow == Flow::Done,
        transition_fills(a, b),
    ensures
        goes_on(r, terminated(r, reason, stage, a), terminated(r, reason, stage, b)),
        terminated(r, reason, stage, a).flow matches Flow::Waiting(s) ==> transition_lacks(
            a,
            stage,
            s,
        ),
{
    broadcast use group_begins;

    reveal(terminated);
    lemma_transitioned(r, end_status(reason), stage, a, b);
    let x = transitioned(r, end_status(reason), stage, a);
    let y = transitioned(r, end_status(reason), stage, b);
    let id = x.session.id.0@;
    assert(begins_with(x.log.push(EffectView::ClearAllTrackers { id }), x.log));
    assert(begins_with(y.log.push(EffectView::ClearAllTrackers { id: y.session.id.0@ }), y.log));
    assert(begins_with(buried(x, reason).log, x.log));
    assert(begins_with(buried(y, reason).log, y.log));
}

pub(crate) proof fn lemma_stuck_decided(r: Run, stage: Stage, a: StuckAnswers, b: StuckAnswers)
    requires
        r.flow == Flow::Done,
        stuck_fills(a, b),
    ensures
        goes_on(r, stuck_decided(r, stage, a).0, stuck_decided(r, stage, b).0),
        stuck_decided(r, stage, a).0.flow is Waiting || stuck_decided(r, stage, a)
            == stuck_decided(r, stage, b),
        stuck_decided(r, stage, a).0.flow matches Flow::Waiting(s) ==> stuck_lacks(a, stage, s),
{
    broadcast use group_begins;

    reveal(stuck_decided);
    let asked = r.then_do(
        EffectView::ResolveReaction { session: r.session, key: "agent-stuck"@ },
    );
    assert(begins_with(asked.log, r.log));
    assert(begins_with(asked.log.push(EffectView::ReadClock), asked.log));
}

pub(crate) proof fn lemma_stuck_checked(
    r: Run,
    a: StuckAnswers,
    b: StuckAnswers,
    t: TransitionAnswers,
    u: TransitionAnswers,
)
    requires
        r.flow == Flow::Done,
        stuck_fills(a, b),
        transition_fills(t, u),
    ensures
        goes_on(r, stuck_checked(r, a, t), stuck_checked(r, b, u)),
        stuck_checked(r, a, t).flow matches Flow::Waiting(s) ==> stuck_lacks(a, Stage::Stuck, s)
            || transition_lacks(t, Stage::Stuck, s),
{
    broadcast use group_begins;

    reveal(stuck_checked);
    lemma_stuck_decided(r, Stage::Stuck, a, b);
    let y = stuck_decided(r, Stage::Stuck, b).0;
    if y.flow == Flow::Done {
        lemma_transitioned(y, SessionStatus::Stuck, Stage::Stuck, t, u);
    }
}

pub(crate) proof fn lemma_idle_updated(r: Run, activity: ActivityState, a: Option<u64>, b: Option<u64>)
    requires
        r.flow == Flow::Done,
        fills(a, b),
    ensures
        goes_on(r, idle_updated(r, activity, a), idle_updated(r, activity, b)),
        idle_updated(r, activity, a).flow matches Flow::Waiting(s) ==> s == Slot::IdleNow && a is None,
{
    broadcast use group_begins;

    assert(begins_with(r.log.push(EffectView::ReadClock), r.log));
}

pub(crate) proof fn lemma_saved(r: Run, slot: Slot, a: Option<Result<(), String>>, b: Option<Result<(), String>>)
    requires
        r.flow == Flow::Done,
        fills(a, b),
    ensures
        goes_on(r, saved(r, slot, a), saved(r, slot, b)),
        saved(r, slot, a).flow matches Flow::Waiting(s) ==> s == slot && a is None,
{
    broadcast use group_begins;

    assert(begins_with(r.log.push(EffectView::Save { session: r.session }), r.log));
}

pub(crate) proof fn lemma_conflicts(r: Run, observation: Option<ObservationView>, a: ScmAnswers, b: ScmAnswers)
    requires
        r.flow == Flow::Done,
        scm_fills(a, b),
    ensures
        goes_on(
            r,
            conflicts_checked(r, observation, a.conflict_dispatched, a.conflict_saved),
            conflicts_checked(r, observation, b.conflict_dispatched, b.conflict_saved),
        ),
        conflicts_checked(r, observation, a.conflict_dispatched, a.conflict_saved).flow matches Flow::Waiting(
            s,
        ) ==> scm_lacks(a, s),
{
    broadcast use group_begins;

    reveal(conflicts_checked);
    let s = r.session;
    let cleared = conflicts_forgotten(r);
    let reset = cleared.with(Session { last_merge_conflict_dispatched: None, ..s });
    let asked = r.then_do(EffectView::Dispatch { session: s, key: "merge-conflicts"@ });
    let set = asked.with(Session { last_merge_conflict_dispatched: Some(true), ..s });
    assert(begins_with(cleared.log, r.log));
    assert(begins_with(asked.log, r.log));
    lemma_saved(reset, Slot::ConflictSaved, a.conflict_saved, b.conflict_saved);
    lemma_saved(set, Slot::ConflictSaved, a.conflict_saved, b.conflict_saved);
}

pub(crate) proof fn lemma_checks(r: Run, pr: PullRequest, a: ScmAnswers, b: ScmAnswers)
    requires
        r.flow == Flow::Done,
        scm_fills(a, b),
    ensures
        goes_on(r, checks_passed_on(r, pr, a), checks_passed_on(r, pr, b)),
        checks_passed_on(r, pr, a).flow matches Flow::Waiting(s) ==> scm_lacks(a, s),
{
    broadcast use group_begins;

    reveal(checks_passed_on);
    let asked = r.then_do(EffectView::ListChecks { pr });
    assert(begins_with(asked.log, r.log));
    assert(begins_with(
        asked.log.push(EffectView::Dispatch { session: r.session, key: "ci-failed"@ }),
        asked.log,
    ));
    if let Some(Ok(checks)) = b.checks {
        let sent = asked.then_do(
            EffectView::DispatchWithMessage {
                session: r.session,
                key: "ci-failed"@,
                message: checks_message(check_views(checks@)),
            },
        );
        assert(begins_with(sent.log, asked.log));
    }
}

pub(crate) proof fn lemma_backlog(r: Run, pr: PullRequest, a: ScmAnswers, b: ScmAnswers)
    requires
        r.flow == Flow::Done,
        scm_fills(a, b),
    ensures
        goes_on(r, backlog_passed_on(r, pr, a), backlog_passed_on(r, pr, b)),
        backlog_passed_on(r, pr, a).flow matches Flow::Waiting(s) ==> scm_lacks(a, s),
{
    broadcast use group_begins;

    reveal(backlog_passed_on);
    let s = r.session;
    let asked = r.then_do(EffectView::ListComments { pr });
    assert(begins_with(asked.log, r.log));
    if let Some(Ok(comments)) = b.comments {
        let print = fingerprint(comment_rows(comments@));
        let marked = Session { last_review_backlog_fingerprint: Some(print), ..s };
        let sent = asked.then_do(
            EffectView::DispatchWithMessage {
                session: s,
                key: "changes-requested"@,
                message: comments_message(comments@),
            },
        );
        assert(begins_with(sent.log, asked.log));
        lemma_saved(asked.with(marked), Slot::CommentsSaved, a.comments_saved, b.comments_saved);
        lemma_saved(sent.with(marked), Slot::CommentsSaved, a.comments_saved, b.comments_saved);
    }
}

pub(crate) proof fn lemma_backlog_due(r: Run, pr: PullRequest, a: ScmAnswers, b: ScmAnswers)
    requires
        r.flow == Flow::Done,
        scm_fills(a, b),
    ensures
        goes_on(r, backlog_due(r, pr, a), backlog_due(r, pr, b)),
        backlog_due(r, pr, a).flow matches Flow::Waiting(s) ==> scm_lacks(a, s),
{
    broadcast use group_begins;

    reveal(backlog_due);
    let timed = r.then_do(EffectView::ReadClock);
    assert(begins_with(timed.log, r.log));
    if let Some(now) = b.comments_now {
        let m = r.manager;
        let noted = timed.knowing(
            ManagerView { commented: m.commented.insert(r.session.id.0@, now), ..m },
        );
        lemma_backlog(noted, pr, a, b);
    }
}

pub(crate) proof fn lemma_bots(r: Run, pr: PullRequest, a: ScmAnswers, b: ScmAnswers)
    requires
        r.flow == Flow::Done,
        scm_fills(a, b),
    ensures
        goes_on(r, bots_passed_on(r, pr, a), bots_passed_on(r, pr, b)),
        bots_passed_on(r, pr, a).flow matches Flow::Waiting(s) ==> scm_lacks(a, s),
{
    broadcast use group_begins;

    reveal(bots_passed_on);
    let asked = r.then_do(EffectView::ListAutomatedComments { pr });
    assert(begins_with(asked.log, r.log));
    if let Some(Ok(comments)) = b.bot_comments {
        let print = fingerprint(automated_rows(comments@));
        let seen = bots_seen(asked, print);
        let s = seen.session;
        assert(begins_with(seen.log, asked.log));
        let sent = seen.then_do(
            EffectView::DispatchWithMessage {
                session: s,
                key: "bugbot-comments"@,
                message: automated_message(comments@),
            },
        );
        assert(begins_with(sent.log, seen.log));
        lemma_saved(
            seen.with(Session { last_automated_review_dispatch_hash: None, ..s }),
            Slot::BotSaved,
            a.bot_saved,
            b.bot_saved,
        );
        lemma_saved(
            sent.with(Session { last_automated_review_dispatch_hash: Some(print), ..s }),
            Slot::BotSaved,
            a.bot_saved,
            b.bot_saved,
        );
    }
}

pub(crate) proof fn lemma_passed_on(
    r: Run,
    observation: Option<ObservationView>,
    pr: Option<PullRequest>,
    a: ScmAnswers,
    b: ScmAnswers,
)
    requires
        r.flow == Flow::Done,
        scm_fills(a, b),
    ensures
        goes_on(r, passed_on(r, observation, pr, a), passed_on(r, observation, pr, b)),
        passed_on(r, observation, pr, a).flow matches Flow::Waiting(s) ==> scm_lacks(a, s),
{
    broadcast use group_begins;

    reveal(passed_on);
    lemma_conflicts(r, observation, a, b);
    let conflicts = conflicts_checked(r, observation, b.conflict_dispatched, b.conflict_saved);
    if conflicts.flow == Flow::Done && pr is Some {
        let p = pr->0;
        lemma_checks(conflicts, p, a, b);
        let checks = if conflicts.session.status == SessionStatus::CiFailed {
            checks_passed_on(conflicts, p, b)
        } else {
            conflicts
        };
        if checks.flow == Flow::Done {
            lemma_backlog_due(checks, p, a, b);
            let backlog = backlog_due(checks, p, b);
            if backlog.flow == Flow::Done {
                lemma_bots(backlog, p, a, b);
            }
        }
    }
}

pub(crate) proof fn lemma_status_followed(
    r: Run,
    observation: Option<ObservationView>,
    pr: Option<PullRequest>,
    a: ScmAnswers,
    b: ScmAnswers,
)
    requires
        r.flow == Flow::Done,
        scm_fills(a, b),
    ensures
        goes_on(r, status_followed(r, observation, pr, a), status_followed(r, observation, pr, b)),
        status_followed(r, observation, pr, a).flow matches Flow::Waiting(s) ==> scm_lacks(a, s),
{
    broadcast use group_begins;

    reveal(status_followed);
    let asked = r.then_do(
        EffectView::DeriveStatus { current: r.session.status, observation },
    );
    assert(begins_with(asked.log, r.log));
    lemma_passed_on(asked, observation, pr, a, b);
    if let Some(Some(next)) = b.derived {
        lemma_stuck_decided(asked, Stage::Scm, a.stuck, b.stuck);
        let (decided, stuck) = if next == SessionStatus::PrOpen {
            stuck_decided(asked, Stage::Scm, b.stuck)
        } else {
            (asked, false)
        };
        let next = if stuck {
            SessionStatus::Stuck
        } else {
            next
        };
        if decided.flow == Flow::Done {
            lemma_transitioned(decided, next, Stage::Scm, a.transition, b.transition);
            let moved = transitioned(decided, next, Stage::Scm, b.transition);
            if moved.flow == Flow::Done {
                lemma_passed_on(moved, observation, pr, a, b);
            }
        }
    }
}

pub(crate) proof fn lemma_throttled(r: Run, pr: PullRequest, a: ScmAnswers, b: ScmAnswers)
    requires
        r.flow == Flow::Done,
        scm_fills(a, b),
    ensures
        goes_on(r, throttled(r, pr, a), throttled(r, pr, b)),
        throttled(r, pr, a).flow matches Flow::Waiting(s) ==> scm_lacks(a, s),
{
    broadcast use group_begins;

    reveal(throttled);
    let timed = r.then_do(EffectView::ReadClock);
    assert(begins_with(timed.log, r.log));
    lemma_probed(timed, pr, a, b);
    lemma_probed(r, pr, a, b);
}

pub(crate) proof fn lemma_probed(r: Run, pr: PullRequest, a: ScmAnswers, b: ScmAnswers)
    requires
        r.flow == Flow::Done,
        scm_fills(a, b),
    ensures
        goes_on(r, probed(r, pr, a), probed(r, pr, b)),
        probed(r, pr, a).flow matches Flow::Waiting(s) ==> scm_lacks(a, s),
{
    broadcast use group_begins;

    reveal(probed);
    let m = r.manager;
    let asked = r.then_do(EffectView::ProbePr { pr });
    let timed = asked.then_do(EffectView::ReadClock);
    assert(begins_with(asked.log, r.log));
    assert(begins_with(timed.log, asked.log));
    if b.probes is Some && b.probed_at is Some {
        let probes = b.probes->0;
        let known = timed.knowing(
            ManagerView { probed: m.probed.insert(r.session.id.0@, b.probed_at->0), ..m },
        );
        assert(begins_with(
            erred(known, "scm probes: "@ + joined(failures(probes), "; "@)).log,
            known.log,
        ));
        lemma_status_followed(known, Some(observed(probes)), Some(pr), a, b);
    }
}

pub(crate) proof fn lemma_found(r: Run, pr: Option<PullRequest>, a: ScmAnswers, b: ScmAnswers)
    requires
        r.flow == Flow::Done,
        scm_fills(a, b),
    ensures
        goes_on(r, found(r, pr, a), found(r, pr, b)),
        found(r, pr, a).flow matches Flow::Waiting(s) ==> scm_lacks(a, s),
{
    broadcast use group_begins;

    reveal(found);
    match pr {
        None => {
            lemma_status_followed(r, None, None, a, b);
        },
        Some(p) => {
            let s = claimed(r.session, p);
            let kept = r.with(s).then_do(EffectView::Save { session: s });
            let m = r.manager;
            let key = pr_key(p);
            assert(begins_with(kept.log, r.log));
            lemma_status_followed(
                kept.knowing(ManagerView { enriched: m.enriched.remove(key), ..m }),
                Some(m.enriched[key].observation),
                pr,
                a,
                b,
            );
            lemma_throttled(kept, p, a, b);
        },
    }
}

pub(crate) proof fn lemma_scm_polled(r: Run, a: ScmAnswers, b: ScmAnswers)
    requires
        r.flow == Flow::Done,
        scm_fills(a, b),
    ensures
        goes_on(r, scm_polled(r, a), scm_polled(r, b)),
        scm_polled(r, a).flow matches Flow::Waiting(s) ==> scm_lacks(a, s),
{
    broadcast use group_begins;

    reveal(scm_polled);
    let id = r.session.id.0@;
    let m = r.manager;
    let asked = r.then_do(EffectView::DetectPr { session: r.session });
    assert(begins_with(asked.log, r.log));
    if m.detected.dom().contains(id) {
        lemma_found(
            r.knowing(ManagerView { detected: m.detected.remove(id), ..m }),
            m.detected[id],
            a,
            b,
        );
    } else if let Some(Ok(pr)) = b.detected {
        lemma_found(asked, pr, a, b);
    } else if let Some(Err(e)) = b.detected {
        assert(begins_with(erred(asked, "scm.detect_pr: "@ + e@).log, asked.log));
    }
}

pub(crate) proof fn lemma_finished(r: Run, before: SessionStatus, a: PollAnswers, b: PollAnswers)
    requires
        r.flow == Flow::Done,
        poll_fills(a, b),
    ensures
        goes_on(r, finished(r, before, a), finished(r, before, b)),
        finished(r, before, a).flow matches Flow::Waiting(s) ==> poll_lacks(a, s),
{
    broadcast use group_begins;

    reveal(finished);
    let down = if r.session.status == SessionStatus::Merged {
        taken_down(r)
    } else {
        r
    };
    assert(begins_with(down.log, r.log)) by {
        if let Some(handle) = r.session.runtime_handle {
            assert(begins_with(
                r.log.push(EffectView::DestroyRuntime { handle: handle@ }),
                r.log,
            ));
        }
    }
    lemma_terminated(
        down,
        TerminationReason::PrMerged,
        Stage::Killed,
        a.to_killed,
        b.to_killed,
    );
    lemma_stuck_checked(down, a.stuck, b.stuck, a.to_stuck, b.to_stuck);
}

pub(crate) proof fn lemma_moved(r: Run, activity: ActivityState, a: PollAnswers, b: PollAnswers)
    requires
        r.flow == Flow::Done,
        poll_fills(a, b),
    ensures
        goes_on(r, moved(r, activity, a), moved(r, activity, b)),
        moved(r, activity, a).flow matches Flow::Waiting(s) ==> poll_lacks(a, s),
{
    broadcast use group_begins;

    reveal(moved);
    let before = r.session.status;
    lemma_transitioned(r, SessionStatus::Working, Stage::Working, a.to_working, b.to_working);
    let awake = if wakes(before) && at_work(activity) {
        transitioned(r, SessionStatus::Working, Stage::Working, b.to_working)
    } else {
        r
    };
    if awake.flow == Flow::Done {
        lemma_scm_polled(awake, a.scm, b.scm);
        let polled = if r.manager.scm {
            scm_polled(awake, b.scm)
        } else {
            awake
        };
        if polled.flow == Flow::Done {
            lemma_finished(polled, before, a, b);
        }
    }
}

pub(crate) proof fn lemma_activity_kept(
    r: Run,
    activity: ActivityState,
    a: Option<Result<(), String>>,
    b: Option<Result<(), String>>,
)
    requires
        r.flow == Flow::Done,
        fills(a, b),
    ensures
        goes_on(r, activity_kept(r, activity, a), activity_kept(r, activity, b)),
        activity_kept(r, activity, a).flow matches Flow::Waiting(s) ==> s == Slot::ActivitySaved
            && a is None,
{
    broadcast use group_begins;

    let s = r.session;
    let next = r.with(Session { activity: Some(activity), ..s });
    lemma_saved(next, Slot::ActivitySaved, a, b);
    let kept = saved(next, Slot::ActivitySaved, b);
    assert(begins_with(
        kept.log.push(
            EffectView::Emit(
                EventView::ActivityChanged { id: s.id.0@, prev: s.activity, next: activity },
            ),
        ),
        kept.log,
    ));
}

pub(crate) proof fn lemma_watched(r: Run, activity: ActivityState, a: PollAnswers, b: PollAnswers)
    requires
        r.flow == Flow::Done,
        poll_fills(a, b),
    ensures
        goes_on(r, watched(r, activity, a), watched(r, activity, b)),
        watched(r, activity, a).flow matches Flow::Waiting(s) ==> poll_lacks(a, s),
{
    broadcast use group_begins;

    reveal(watched);
    lemma_transitioned(
        r,
        SessionStatus::NeedsInput,
        Stage::NeedsInput,
        a.to_needs_input,
        b.to_needs_input,
    );
    let asked = if activity == ActivityState::WaitingInput && r.session.status
        != SessionStatus::NeedsInput {
        transitioned(r, SessionStatus::NeedsInput, Stage::NeedsInput, b.to_needs_input)
    } else {
        r
    };
    if asked.flow == Flow::Done {
        lemma_activity_kept(asked, activity, a.activity_saved, b.activity_saved);
        let kept = activity_kept(asked, activity, b.activity_saved);
        if kept.flow == Flow::Done {
            lemma_idle_updated(kept, activity, a.idle_now, b.idle_now);
            let timed = idle_updated(kept, activity, b.idle_now);
            if timed.flow == Flow::Done {
                lemma_moved(timed, activity, a, b);
            }
        }
    }
}

/// A poll that is run again with more answers does what it did before, effect for effect,
/// and goes on where it had to wait. One that did not have to wait does exactly the same.
pub proof fn law_poll_goes_on(r: Run, a: PollAnswers, b: PollAnswers)
    requires
        r.flow == Flow::Done,
        poll_fills(a, b),
    ensures
        r.log.is_prefix_of(polled(r, a).log),
        polled(r, a).log.is_prefix_of(polled(r, b).log),
        !(polled(r, a).flow is Waiting) ==> polled(r, b) == polled(r, a),
{
    lemma_polled(r, a, b);
    reveal(begins_with);
}

/// A poll only waits for an answer that is missing, so that it comes to an end once every
/// question has been answered.
pub proof fn law_poll_waits_for_what_is_missing(r: Run, a: PollAnswers)
    requires
        r.flow == Flow::Done,
    ensures
        polled(r, a).flow matches Flow::Waiting(s) ==> poll_lacks(a, s),
{
    lemma_polled(r, a, a);
}

pub(crate) proof fn lemma_polled(r: Run, a: PollAnswers, b: PollAnswers)
    requires
        r.flow == Flow::Done,
        poll_fills(a, b),
    ensures
        goes_on(r, polled(r, a), polled(r, b)),
        polled(r, a).flow matches Flow::Waiting(s) ==> poll_lacks(a, s),
{
    broadcast use group_begins;

    reveal(polled);
    reveal(live);
    match r.session.runtime_handle {
        None => {
            lemma_terminated(
                r,
                TerminationReason::NoHandle,
                Stage::Killed,
                a.to_killed,
                b.to_killed,
            );
        },
        Some(handle) => {
            let asked = r.then_do(EffectView::IsAlive { handle: handle@ });
            let detecting = asked.then_do(EffectView::DetectActivity { session: r.session });
            assert(begins_with(asked.log, r.log));
            assert(begins_with(detecting.log, asked.log));
            lemma_terminated(
                asked,
                TerminationReason::RuntimeGone,
                Stage::Killed,
                a.to_killed,
                b.to_killed,
            );
            if let Some(Err(e)) = b.alive {
                assert(begins_with(erred(asked, "is_alive: "@ + e@).log, asked.log));
            }
            if let Some(Err(e)) = b.activity {
                assert(begins_with(erred(detecting, "detect_activity: "@ + e@).log, detecting.log));
            }
            if let Some(Ok(activity)) = b.activity {
                lemma_terminated(
                    detecting,
                    TerminationReason::AgentExited,
                    Stage::Killed,
                    a.to_killed,
                    b.to_killed,
                );
                lemma_watched(detecting, activity, a, b);
            }
        },
    }
}

} // verus!
