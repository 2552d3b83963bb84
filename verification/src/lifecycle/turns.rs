//! What a change of status entails.

use vstd::prelude::*;

use crate::events::{EventView, TerminationReason};
use crate::lifecycle::duties::{happens, lemma_happens_still, lemma_transition_leads};
use crate::lifecycle::effects::{EffectView, Flow, Stage, TransitionAnswers};
use crate::lifecycle::replay::{begins_with, group_begins, lemma_settled};
use crate::lifecycle::transition::{
    costed, merged_and_settled, reacted, settled, settled_and_reacted, terminated, transitioned,
};
use crate::lifecycle::{reaction_key, Run};
use crate::reactions::{ReactionAction, ReactionConfig};
use crate::text::head;
use crate::types::{Session, SessionId, SessionStatus};

verus! {

/// No message is sent among the effects from number `n` on.
#[verifier::opaque]
pub open spec fn sends_nothing(log: Seq<EffectView>, n: nat) -> bool {
    forall|i: int| n <= i < log.len() ==> !(#[trigger] log[i] is SendMessage)
}

broadcast proof fn lemma_sends_nothing_push(log: Seq<EffectView>, n: nat, e: EffectView)
    requires
        sends_nothing(log, n),
        !(e is SendMessage),
    ensures
        #[trigger] sends_nothing(log.push(e), n),
{
    reveal(sends_nothing);
}

/// The run as it comes to be settled, for a change of status that gets through.
spec fn unsettled(r: Run, to: SessionStatus, stage: Stage, a: TransitionAnswers) -> Run {
    let entered = r.with(Session { status: to, ..r.session });
    let paid = costed(
        entered.then_do(EffectView::EstimateCost { session: entered.session }),
        a.cost->0,
    );
    let key = match r.manager.keys {
        Some(keys) => reaction_key(keys, to),
        None => None,
    };
    match key {
        Some(key) => if to == SessionStatus::Mergeable && key == "approved-and-green"@ {
            let resolving = paid.then_do(
                EffectView::ResolveReaction { session: paid.session, key },
            );
            if a.reaction->0 matches Some(c) && c.action == ReactionAction::AutoMerge {
                let tried = resolving.then_do(EffectView::Dispatch { session: paid.session, key });
                match a.dispatched->0 {
                    Ok(Some(o)) => if !o.success && !o.escalated {
                        tried.with(Session { status: SessionStatus::MergeFailed, ..paid.session })
                    } else {
                        tried
                    },
                    _ => tried,
                }
            } else {
                resolving
            }
        } else {
            paid
        },
        None => paid,
    }
}

/// How a change of status that gets through comes about.
proof fn lemma_unsettled(r: Run, to: SessionStatus, stage: Stage, a: TransitionAnswers)
    requires
        r.flow == Flow::Done,
        r.session.status != to,
        transitioned(r, to, stage, a).flow == Flow::Done,
    ensures
        ({
            let u = unsettled(r, to, stage, a);
            let d = settled(u, r.session.status, stage, a);
            let x = transitioned(r, to, stage, a);
            &&& u.flow == Flow::Done
            &&& d.flow == Flow::Done
            &&& begins_with(x.log, d.log)
            &&& begins_with(d.log, u.log)
            &&& r.log.len() < u.log.len()
            &&& x.session == u.session
            &&& x.manager == r.manager
            &&& u.manager == r.manager
            &&& a.cost is Some
            &&& x == d || x.log == d.log.push(x.log.last()) && x.log.last() is Dispatch
        }),
{
    broadcast use group_begins;

    reveal(transitioned);
    reveal(reacted);
    reveal(settled_and_reacted);
    reveal(merged_and_settled);
    let u = unsettled(r, to, stage, a);
    lemma_settled(u, r.session.status, stage, a, a);
    let d = settled(u, r.session.status, stage, a);
    assert(d.session == u.session && d.manager == u.manager) by {
        reveal(settled);
    }
    let x = transitioned(r, to, stage, a);
    if x != d {
        assert(x.log =~= d.log.push(x.log.last()));
    }
}

/// Where to look at the session's work.
spec fn address(s: Session) -> Seq<char> {
    if s.claimed_pr_url is Some {
        s.claimed_pr_url->0@
    } else if s.issue_url is Some {
        s.issue_url->0@
    } else {
        "none"@
    }
}

/// A session that an orchestrator has spawned, and that changes its status, has the orchestrator
/// told so, if it can be reached and the new status is one that may ask something of it: every
/// turn of a pull request but that it can be merged, every bad end, and an agent that waits or is
/// stuck. Of the other statuses it is not told.
pub proof fn law_parent_hears_of_a_change(
    r: Run,
    to: SessionStatus,
    stage: Stage,
    a: TransitionAnswers,
    parent: SessionId,
    handle: String,
)
    requires
        r.flow == Flow::Done,
        transitioned(r, to, stage, a).flow == Flow::Done,
        transitioned(r, to, stage, a).session.status != r.session.status,
        r.session.spawned_by == Some(parent),
        a.parent == Some(Some(Some(handle))),
    ensures
        ({
            let x = transitioned(r, to, stage, a);
            let n = r.log.len();
            let told = happens(x.log, n, EffectView::FindSession { prefix: parent.0@ }) && happens(
                x.log,
                n,
                EffectView::SendMessage {
                    handle: handle@,
                    message: "[ao-rs] worker "@ + head(r.session.id.0@, 8) + " is now "@
                        + x.session.status.name() + " — branch: "@ + r.session.branch@ + ", url: "@
                        + if r.session.claimed_pr_url is Some {
                        r.session.claimed_pr_url->0@
                    } else if r.session.issue_url is Some {
                        r.session.issue_url->0@
                    } else {
                        "none"@
                    },
                },
            );
            match x.session.status {
                SessionStatus::PrOpen => told,
                SessionStatus::ReviewPending => told,
                SessionStatus::CiFailed => told,
                SessionStatus::ChangesRequested => told,
                SessionStatus::Approved => told,
                SessionStatus::Merged => told,
                SessionStatus::MergeFailed => told,
                SessionStatus::Killed => told,
                SessionStatus::Terminated => told,
                SessionStatus::Errored => told,
                SessionStatus::NeedsInput => told,
                SessionStatus::Stuck => told,
                SessionStatus::Spawning => sends_nothing(x.log, n),
                SessionStatus::Working => sends_nothing(x.log, n),
                SessionStatus::Idle => sends_nothing(x.log, n),
                SessionStatus::Mergeable => sends_nothing(x.log, n),
                SessionStatus::Cleanup => sends_nothing(x.log, n),
                SessionStatus::Done => sends_nothing(x.log, n),
            }
        }),
{
    broadcast use lemma_sends_nothing_push;

    assert(r.session.status != to) by {
        reveal(transitioned);
    }
    lemma_unsettled(r, to, stage, a);
    let n = r.log.len();
    let u = unsettled(r, to, stage, a);
    let d = settled(u, r.session.status, stage, a);
    let x = transitioned(r, to, stage, a);
    assert(sends_nothing(r.log, n)) by {
        reveal(sends_nothing);
    }
    assert(sends_nothing(u.log, n));
    reveal(settled);
    let s = x.session;
    let message = "[ao-rs] worker "@ + head(r.session.id.0@, 8) + " is now "@ + s.status.name()
        + " — branch: "@ + r.session.branch@ + ", url: "@ + address(r.session);
    match s.status {
        SessionStatus::Spawning
        | SessionStatus::Working
        | SessionStatus::Idle
        | SessionStatus::Mergeable
        | SessionStatus::Cleanup
        | SessionStatus::Done => {
            assert(sends_nothing(d.log, n));
            if x != d {
                assert(sends_nothing(d.log.push(x.log.last()), n));
            }
        },
        _ => {
            let at = u.log.len();
            let asked = EffectView::FindSession { prefix: parent.0@ };
            let sent = EffectView::SendMessage { handle: handle@, message };
            assert(d.log[(at + 2) as int] == asked);
            assert(d.log[(at + 3) as int] == sent);
            lemma_happens_still(d.log, x.log, n, n, asked);
            lemma_happens_still(d.log, x.log, n, n, sent);
        },
    }
}

/// Where the orchestrator is gone or has no runtime, or where there is none, nothing is sent.
pub proof fn law_nobody_is_told_where_nobody_is(
    r: Run,
    to: SessionStatus,
    stage: Stage,
    a: TransitionAnswers,
)
    requires
        r.flow == Flow::Done,
        r.session.spawned_by is None || !(a.parent matches Some(Some(Some(_)))),
    ensures
        sends_nothing(transitioned(r, to, stage, a).log, r.log.len()),
{
    broadcast use lemma_sends_nothing_push;

    let n = r.log.len();
    assert(sends_nothing(r.log, n)) by {
        reveal(sends_nothing);
    }
    reveal(transitioned);
    reveal(reacted);
    reveal(settled_and_reacted);
    reveal(merged_and_settled);
    reveal(settled);
}

/// What the agent says that the session has cost by now is written to the ledger and kept in the
/// session. Where it says nothing, or fails to, the session keeps the cost that it had.
pub proof fn law_cost_is_kept(r: Run, to: SessionStatus, stage: Stage, a: TransitionAnswers)
    requires
        r.flow == Flow::Done,
        r.session.status != to,
        transitioned(r, to, stage, a).flow == Flow::Done,
    ensures
        ({
            let x = transitioned(r, to, stage, a);
            &&& match a.cost {
                Some(Ok(Some(c))) => {
                    &&& x.session.cost == Some(c)
                    &&& happens(
                        x.log,
                        r.log.len(),
                        EffectView::RecordCost {
                            session: Session { status: to, ..r.session },
                            cost: c,
                        },
                    )
                },
                _ => x.session.cost == r.session.cost,
            }
            &&& x.session == (Session {
                status: x.session.status,
                cost: x.session.cost,
                ..r.session
            })
        }),
{
    broadcast use group_begins;

    lemma_unsettled(r, to, stage, a);
    if let Some(Ok(Some(c))) = a.cost {
        let e = EffectView::RecordCost { session: Session { status: to, ..r.session }, cost: c };
        let u = unsettled(r, to, stage, a);
        assert(u.log[(r.log.len() + 1) as int] == e);
        lemma_happens_still(
            u.log,
            transitioned(r, to, stage, a).log,
            r.log.len(),
            r.log.len(),
            e,
        );
    }
}

/// A session that becomes mergeable, and whose reaction is to merge, is merged at once. Where
/// that fails, and nobody has been called in, it ends as `MergeFailed`, so that it is tried again;
/// otherwise it ends as `Mergeable`. Only one change is announced, and none at all where it was
/// `MergeFailed` before.
pub proof fn law_failed_merge_is_parked(
    r: Run,
    stage: Stage,
    a: TransitionAnswers,
    c: ReactionConfig,
)
    requires
        r.flow == Flow::Done,
        r.session.status != SessionStatus::Mergeable,
        r.manager.keys is Some,
        reaction_key(r.manager.keys->0, SessionStatus::Mergeable) == Some("approved-and-green"@),
        a.reaction == Some(Some(c)),
        transitioned(r, SessionStatus::Mergeable, stage, a).flow == Flow::Done,
    ensures
        ({
            let x = transitioned(r, SessionStatus::Mergeable, stage, a);
            let failed = a.dispatched matches Some(Ok(Some(o))) && !o.success && !o.escalated;
            &&& x.session.status == if c.action == ReactionAction::AutoMerge && failed {
                SessionStatus::MergeFailed
            } else {
                SessionStatus::Mergeable
            }
            &&& happens(
                x.log,
                r.log.len(),
                EffectView::Dispatch {
                    session: Session { status: SessionStatus::Mergeable, ..x.session },
                    key: "approved-and-green"@,
                },
            )
            &&& x.session.status != r.session.status ==> happens(
                x.log,
                r.log.len(),
                EffectView::Emit(
                    EventView::StatusChanged {
                        id: r.session.id.0@,
                        from: r.session.status,
                        to: x.session.status,
                    },
                ),
            ) && happens(x.log, r.log.len(), EffectView::Save { session: x.session })
            &&& x.session.status == r.session.status ==> forall|s: Session|
                !happens(x.log, r.log.len(), EffectView::Save { session: s })
        }),
{
    broadcast use group_begins;

    let to = SessionStatus::Mergeable;
    lemma_unsettled(r, to, stage, a);
    let n = r.log.len();
    let u = unsettled(r, to, stage, a);
    let d = settled(u, r.session.status, stage, a);
    let x = transitioned(r, to, stage, a);
    let e = EffectView::Dispatch {
        session: Session { status: to, ..x.session },
        key: "approved-and-green"@,
    };
    let paid = costed(
        r.with(Session { status: to, ..r.session }).then_do(
            EffectView::EstimateCost { session: Session { status: to, ..r.session } },
        ),
        a.cost->0,
    );
    reveal(settled);
    if c.action == ReactionAction::AutoMerge {
        assert(a.dispatched is Some) by {
            reveal(transitioned);
            reveal(reacted);
            reveal(merged_and_settled);
        }
        assert(u.log[(paid.log.len() + 1) as int] == e);
        lemma_happens_still(u.log, x.log, n, n, e);
    } else {
        reveal(transitioned);
        reveal(reacted);
        reveal(settled_and_reacted);
        assert(x.log[x.log.len() - 1] == e);
    }
    if x.session.status != r.session.status {
        let told = EffectView::Emit(
            EventView::StatusChanged {
                id: r.session.id.0@,
                from: r.session.status,
                to: x.session.status,
            },
        );
        assert(d.log[u.log.len() as int] == (EffectView::Save { session: x.session }));
        assert(d.log[(u.log.len() + 1) as int] == told);
        lemma_happens_still(d.log, x.log, n, n, told);
        lemma_happens_still(d.log, x.log, n, n, EffectView::Save { session: x.session });
    } else {
        assert(d == u);
        assert(x == u) by {
            reveal(transitioned);
            reveal(reacted);
            reveal(settled_and_reacted);
            reveal(merged_and_settled);
        }
        assert forall|s: Session| !happens(x.log, n, EffectView::Save { session: s }) by {
            assert forall|i: int| n <= i < x.log.len() implies !(#[trigger] x.log[i] is Save) by {}
        }
    }
}

/// A session that leaves a status has the attempts at the reaction of that status forgotten: those
/// at `ci-failed` when it leaves `CiFailed`, those at `approved-and-green` when it leaves
/// `MergeFailed`, and otherwise those at what the status sets off.
pub proof fn law_left_status_is_forgotten(
    r: Run,
    to: SessionStatus,
    stage: Stage,
    a: TransitionAnswers,
    key: Seq<char>,
)
    requires
        r.flow == Flow::Done,
        r.session.status != to,
        to != SessionStatus::Mergeable,
        to != SessionStatus::MergeFailed,
        r.manager.keys is Some,
        transitioned(r, to, stage, a).flow == Flow::Done,
        match r.session.status {
            SessionStatus::CiFailed => key == "ci-failed"@,
            SessionStatus::MergeFailed => key == "approved-and-green"@,
            from => reaction_key(r.manager.keys->0, from) == Some(key),
        },
    ensures
        happens(
            transitioned(r, to, stage, a).log,
            r.log.len(),
            EffectView::ClearTracker { id: r.session.id.0@, key },
        ),
{
    lemma_unsettled(r, to, stage, a);
    let n = r.log.len();
    let u = unsettled(r, to, stage, a);
    let d = settled(u, r.session.status, stage, a);
    let e = EffectView::ClearTracker { id: r.session.id.0@, key };
    reveal(settled);
    assert(d.log[d.log.len() - 1] == e);
    lemma_happens_still(d.log, transitioned(r, to, stage, a).log, n, n, e);
}

/// A session that ends is killed, whatever for; everything that was remembered of it is forgotten,
/// and that it has ended is the last thing said.
pub proof fn law_ended_session_is_forgotten(
    r: Run,
    reason: TerminationReason,
    stage: Stage,
    a: TransitionAnswers,
)
    requires
        r.flow == Flow::Done,
        terminated(r, reason, stage, a).flow == Flow::Done,
    ensures
        ({
            let x = terminated(r, reason, stage, a);
            let id = r.session.id.0@;
            &&& x.session.status == SessionStatus::Killed
            &&& x.log.last() == EffectView::Emit(EventView::Terminated { id, reason })
            &&& r.manager.keys is Some ==> happens(
                x.log,
                r.log.len(),
                EffectView::ClearAllTrackers { id },
            )
            &&& !x.manager.idle_since.dom().contains(id)
            &&& !x.manager.probed.dom().contains(id)
            &&& !x.manager.commented.dom().contains(id)
            &&& r.session.status != SessionStatus::Killed ==> happens(
                x.log,
                r.log.len(),
                EffectView::Emit(
                    EventView::StatusChanged {
                        id,
                        from: r.session.status,
                        to: SessionStatus::Killed,
                    },
                ),
            )
        }),
{
    broadcast use group_begins;

    reveal(terminated);
    let to = SessionStatus::Killed;
    let d = transitioned(r, to, stage, a);
    lemma_transition_leads(r, to, stage, a);
    crate::lifecycle::duties::lemma_transition_knows(r, to, stage, a);
    crate::lifecycle::replay::lemma_transitioned(r, to, stage, a, a);
    let x = terminated(r, reason, stage, a);
    let id = r.session.id.0@;
    assert(d.log.len() >= r.log.len()) by {
        reveal(begins_with);
    }
    let cleared = if r.manager.keys is Some {
        d.log.push(EffectView::ClearAllTrackers { id })
    } else {
        d.log
    };
    assert(x.log == cleared.push(EffectView::Emit(EventView::Terminated { id, reason })));
    if r.manager.keys is Some {
        assert(x.log[d.log.len() as int] == (EffectView::ClearAllTrackers { id }));
    }
    assert(begins_with(cleared, d.log));
    assert(begins_with(x.log, d.log));
    if r.session.status != to {
        lemma_happens_still(
            d.log,
            x.log,
            r.log.len(),
            r.log.len(),
            EffectView::Emit(EventView::StatusChanged { id, from: r.session.status, to }),
        );
    }
}

} // verus!
