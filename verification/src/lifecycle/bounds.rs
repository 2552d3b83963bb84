//! What a poll does not do.

use vstd::prelude::*;

use crate::events::TerminationReason;
use crate::lifecycle::duties::{arrived, hosted, lemma_stations, sees, timed};
use crate::lifecycle::effects::{EffectView, Flow, PollAnswers, ScmAnswers, Stage, StuckAnswers, TransitionAnswers};
use crate::lifecycle::host_duties::{
    after_checks, after_conflicts, lemma_ends_as_hosted, lemma_passing_stations, lemma_placed,
    placed,
};
use crate::lifecycle::scm_poll::{
    backlog_due, backlog_passed_on, bots_passed_on, checks_passed_on, found, observed, passed_on,
    pr_key, probed, scm_polled, status_followed, throttled,
};
use crate::lifecycle::stuck::{conflicts_checked, stuck_checked, stuck_decided};
use crate::lifecycle::tick::{finished, polled, taken_down};
use crate::lifecycle::transition::{
    buried, merged_and_settled, reacted, settled, settled_and_reacted, terminated, transitioned,
};
use crate::lifecycle::{ManagerView, Run};
use crate::scm::{ObservationView, PullRequest};
use crate::types::{ActivityState, SessionStatus};

verus! {

/// What an effect is about.
pub enum Kind {
    /// Review comments are asked for.
    Comments,
    /// The checks of a pull request are asked for.
    Checks,
    /// The runtime is ended or the worktree removed.
    TakeDown,
    /// Anything else.
    Rest,
}

/// What an effect is about.
pub open spec fn kind(e: EffectView) -> Kind {
    match e {
        EffectView::ListComments { .. } => Kind::Comments,
        EffectView::ListChecks { .. } => Kind::Checks,
        EffectView::DestroyRuntime { .. } => Kind::TakeDown,
        EffectView::DestroyWorkspace { .. } => Kind::TakeDown,
        _ => Kind::Rest,
    }
}

/// None of the effects from number `n` on is about `k`.
#[verifier::opaque]
pub open spec fn lacks(log: Seq<EffectView>, n: nat, k: Kind) -> bool {
    forall|i: int| n <= i < log.len() ==> kind(#[trigger] log[i]) != k
}

/// What the status of a session calls for.
spec fn called_for(k: Kind, status: SessionStatus) -> bool {
    match k {
        Kind::Comments => status == SessionStatus::ChangesRequested || status
            == SessionStatus::ReviewPending || status == SessionStatus::Approved,
        Kind::Checks => status == SessionStatus::CiFailed,
        Kind::TakeDown => false,
        Kind::Rest => true,
    }
}

broadcast proof fn lemma_lacks_push(log: Seq<EffectView>, n: nat, k: Kind, e: EffectView)
    requires
        lacks(log, n, k),
        kind(e) != k,
    ensures
        #[trigger] lacks(log.push(e), n, k),
{
    reveal(lacks);
}

proof fn lemma_transition_lacks(
    r: Run,
    to: SessionStatus,
    stage: Stage,
    a: TransitionAnswers,
    n: nat,
    k: Kind,
)
    requires
        lacks(r.log, n, k),
        !(k is Rest),
    ensures
        lacks(transitioned(r, to, stage, a).log, n, k),
{
    broadcast use lemma_lacks_push;

    reveal(transitioned);
    reveal(reacted);
    reveal(settled_and_reacted);
    reveal(merged_and_settled);
    reveal(settled);
}

proof fn lemma_stuck_lacks(r: Run, stage: Stage, a: StuckAnswers, n: nat, k: Kind)
    requires
        lacks(r.log, n, k),
        !(k is Rest),
    ensures
        lacks(stuck_decided(r, stage, a).0.log, n, k),
{
    broadcast use lemma_lacks_push;

    reveal(stuck_decided);
}

proof fn lemma_conflicts_lack(r: Run, observation: Option<ObservationView>, a: ScmAnswers, n: nat, k: Kind)
    requires
        lacks(r.log, n, k),
        !(k is Rest),
    ensures
        lacks(after_conflicts(r, observation, a).log, n, k),
{
    broadcast use lemma_lacks_push;

    reveal(conflicts_checked);
}

proof fn lemma_checks_lack(r: Run, pr: PullRequest, a: ScmAnswers, n: nat, k: Kind)
    requires
        lacks(r.log, n, k),
        !(k is Rest),
        !(k is Checks),
    ensures
        lacks(checks_passed_on(r, pr, a).log, n, k),
{
    broadcast use lemma_lacks_push;

    reveal(checks_passed_on);
}

proof fn lemma_backlog_lacks(r: Run, pr: PullRequest, a: ScmAnswers, n: nat, k: Kind)
    requires
        lacks(r.log, n, k),
        !(k is Rest),
        !(k is Comments) || !called_for(k, r.session.status),
    ensures
        lacks(backlog_due(r, pr, a).log, n, k),
{
    broadcast use lemma_lacks_push;

    reveal(backlog_due);
    reveal(backlog_passed_on);
}

proof fn lemma_bots_lack(r: Run, pr: PullRequest, a: ScmAnswers, n: nat, k: Kind)
    requires
        lacks(r.log, n, k),
        !(k is Rest),
    ensures
        lacks(bots_passed_on(r, pr, a).log, n, k),
{
    broadcast use lemma_lacks_push;

    reveal(bots_passed_on);
}

proof fn lemma_following_lacks(
    r: Run,
    observation: Option<ObservationView>,
    pr: Option<PullRequest>,
    a: ScmAnswers,
    n: nat,
    k: Kind,
)
    requires
        r.flow == Flow::Done,
        lacks(r.log, n, k),
        !(k is Rest),
        status_followed(r, observation, pr, a).flow == Flow::Done,
        !called_for(k, status_followed(r, observation, pr, a).session.status),
    ensures
        lacks(status_followed(r, observation, pr, a).log, n, k),
{
    broadcast use lemma_lacks_push;

    lemma_placed(r, observation, pr, a);
    let x = status_followed(r, observation, pr, a);
    let p = placed(r, observation, a);
    let asked = r.then_do(EffectView::DeriveStatus { current: r.session.status, observation });
    assert(lacks(asked.log, n, k));
    lemma_stuck_lacks(asked, Stage::Scm, a.stuck, n, k);
    if let Some(Some(next)) = a.derived {
        let (decided, stuck) = if next == SessionStatus::PrOpen {
            stuck_decided(asked, Stage::Scm, a.stuck)
        } else {
            (asked, false)
        };
        let to = if stuck {
            SessionStatus::Stuck
        } else {
            next
        };
        lemma_transition_lacks(decided, to, Stage::Scm, a.transition, n, k);
    }
    assert(lacks(p.log, n, k));
    lemma_conflicts_lack(p, observation, a, n, k);
    if p.manager.keys is Some {
        match pr {
            Some(pr) => {
                lemma_passing_stations(p, observation, pr, a);
                let c = after_conflicts(p, observation, a);
                let d = after_checks(p, observation, pr, a);
                if c.session.status == SessionStatus::CiFailed {
                    lemma_checks_lack(c, pr, a, n, k);
                }
                lemma_backlog_lacks(d, pr, a, n, k);
                lemma_bots_lack(backlog_due(d, pr, a), pr, a, n, k);
            },
            None => {
                reveal(passed_on);
            },
        }
    } else {
        reveal(passed_on);
    }
}

proof fn lemma_probing_lacks(r: Run, pr: PullRequest, a: ScmAnswers, n: nat, k: Kind)
    requires
        r.flow == Flow::Done,
        lacks(r.log, n, k),
        !(k is Rest),
        throttled(r, pr, a).flow == Flow::Done,
        !called_for(k, throttled(r, pr, a).session.status),
    ensures
        lacks(throttled(r, pr, a).log, n, k),
{
    broadcast use lemma_lacks_push;

    reveal(throttled);
    reveal(probed);
    let timed = r.then_do(EffectView::ReadClock);
    assert(lacks(timed.log, n, k));
    if a.probes is Some && a.probed_at is Some {
        let o = Some(observed(a.probes->0));
        let one = crate::lifecycle::duties::looked_at(r, pr, a);
        let two = crate::lifecycle::duties::looked_at(timed, pr, a);
        assert(lacks(one.log, n, k));
        assert(lacks(two.log, n, k));
        if throttled(r, pr, a) == status_followed(one, o, Some(pr), a) {
            lemma_following_lacks(one, o, Some(pr), a, n, k);
        }
        if throttled(r, pr, a) == status_followed(two, o, Some(pr), a) {
            lemma_following_lacks(two, o, Some(pr), a, n, k);
        }
    }
}

proof fn lemma_host_lacks(r: Run, a: ScmAnswers, n: nat, k: Kind)
    requires
        r.flow == Flow::Done,
        lacks(r.log, n, k),
        !(k is Rest),
        scm_polled(r, a).flow == Flow::Done,
        !called_for(k, scm_polled(r, a).session.status),
    ensures
        lacks(scm_polled(r, a).log, n, k),
{
    broadcast use lemma_lacks_push;

    reveal(scm_polled);
    reveal(found);
    let s = crate::lifecycle::duties::searched(r, a);
    assert(lacks(s.log, n, k));
    if !r.session.status.terminal() && crate::lifecycle::duties::pr_known(r, a) {
        match crate::lifecycle::duties::pr_of(r, a) {
            None => {
                lemma_following_lacks(s, None, None, a, n, k);
            },
            Some(pr) => {
                let p = crate::lifecycle::duties::provided(s, pr);
                let m = r.manager;
                let key = pr_key(pr);
                assert(lacks(p.log, n, k));
                if m.enriched.dom().contains(key) {
                    lemma_following_lacks(
                        p.knowing(ManagerView { enriched: m.enriched.remove(key), ..p.manager }),
                        Some(m.enriched[key].observation),
                        Some(pr),
                        a,
                        n,
                        k,
                    );
                } else {
                    lemma_probing_lacks(p, pr, a, n, k);
                }
            },
        }
    }
}

proof fn lemma_arriving_lacks(r: Run, a: PollAnswers, activity: ActivityState, k: Kind)
    requires
        sees(r, a, activity),
        !(k is Rest),
    ensures
        lacks(arrived(r, a, activity).log, r.log.len(), k),
{
    broadcast use lemma_lacks_push;

    let n = r.log.len();
    assert(lacks(r.log, n, k)) by {
        reveal(lacks);
    }
    let first = r.then_do(EffectView::IsAlive { handle: r.session.runtime_handle->0@ });
    assert(lacks(first.log, n, k));
    let seen = first.then_do(EffectView::DetectActivity { session: r.session });
    assert(lacks(seen.log, n, k));
    lemma_transition_lacks(
        seen,
        SessionStatus::NeedsInput,
        Stage::NeedsInput,
        a.to_needs_input,
        n,
        k,
    );
    let t = timed(r, a, activity);
    assert(lacks(t.log, n, k));
    lemma_transition_lacks(t, SessionStatus::Working, Stage::Working, a.to_working, n, k);
}

proof fn lemma_finish_lacks(r: Run, before: SessionStatus, a: PollAnswers, n: nat, k: Kind)
    requires
        lacks(r.log, n, k),
        !(k is Rest),
        !(k is TakeDown) || r.session.status != SessionStatus::Merged,
    ensures
        lacks(finished(r, before, a).log, n, k),
{
    broadcast use lemma_lacks_push;

    reveal(finished);
    reveal(terminated);
    reveal(stuck_checked);
    let down = if r.session.status == SessionStatus::Merged {
        taken_down(r)
    } else {
        r
    };
    assert(lacks(down.log, n, k));
    lemma_transition_lacks(down, SessionStatus::Killed, Stage::Killed, a.to_killed, n, k);
    let ended = transitioned(down, SessionStatus::Killed, Stage::Killed, a.to_killed);
    assert(lacks(buried(ended, TerminationReason::PrMerged).log, n, k)) by {
        let id = ended.session.id.0@;
        assert(lacks(ended.log.push(EffectView::ClearAllTrackers { id }), n, k));
    }
    lemma_stuck_lacks(down, Stage::Stuck, a.stuck, n, k);
    let decided = stuck_decided(down, Stage::Stuck, a.stuck).0;
    lemma_transition_lacks(decided, SessionStatus::Stuck, Stage::Stuck, a.to_stuck, n, k);
}

/// Review comments are asked for in no other status than `ChangesRequested`, `ReviewPending` and
/// `Approved`, and checks in no other than `CiFailed`; an agent that is stuck at the end of the
/// poll may have been in one of them before. Nothing is taken down but what belongs to a merged
/// session.
pub proof fn law_polls_do_no_more_than_called_for(r: Run, a: PollAnswers, activity: ActivityState)
    requires
        sees(r, a, activity),
    ensures
        match polled(r, a).session.status {
            SessionStatus::ChangesRequested => true,
            SessionStatus::ReviewPending => true,
            SessionStatus::Approved => true,
            SessionStatus::Stuck => true,
            _ => lacks(polled(r, a).log, r.log.len(), Kind::Comments),
        },
        match polled(r, a).session.status {
            SessionStatus::CiFailed => true,
            SessionStatus::Stuck => true,
            _ => lacks(polled(r, a).log, r.log.len(), Kind::Checks),
        },
        match polled(r, a).session.status {
            SessionStatus::Merged => true,
            SessionStatus::Killed => true,
            _ => lacks(polled(r, a).log, r.log.len(), Kind::TakeDown),
        },
{
    lemma_stations(r, a, activity);
    lemma_ends_as_hosted(r, a, activity);
    let n = r.log.len();
    let v = arrived(r, a, activity);
    let w = hosted(r, a, activity);
    let before = timed(r, a, activity).session.status;
    let s = w.session.status;
    let x = polled(r, a).session.status;
    lemma_arriving_lacks(r, a, activity, Kind::Comments);
    lemma_arriving_lacks(r, a, activity, Kind::Checks);
    lemma_arriving_lacks(r, a, activity, Kind::TakeDown);
    if r.manager.scm {
        if !called_for(Kind::Comments, s) {
            lemma_host_lacks(v, a.scm, n, Kind::Comments);
        }
        if !called_for(Kind::Checks, s) {
            lemma_host_lacks(v, a.scm, n, Kind::Checks);
        }
        lemma_host_lacks(v, a.scm, n, Kind::TakeDown);
    }
    if lacks(w.log, n, Kind::Comments) {
        lemma_finish_lacks(w, before, a, n, Kind::Comments);
    }
    if lacks(w.log, n, Kind::Checks) {
        lemma_finish_lacks(w, before, a, n, Kind::Checks);
    }
    if s != SessionStatus::Merged {
        lemma_finish_lacks(w, before, a, n, Kind::TakeDown);
    }
}

} // verus!
