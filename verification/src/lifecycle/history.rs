//! What holds over many ticks.

use vstd::prelude::*;

use crate::lifecycle::branches::{lemma_only_claims, refreshed, refreshed_first};
use crate::lifecycle::cycle::{
    no_visits, ticked, visited_all, Tick, TickAnswers, TickFlow, Visits,
};
use crate::lifecycle::effects::{EffectView, Flow, PollAnswers};
use crate::lifecycle::fleet::{announcement, begun, visited, Telling};
use crate::lifecycle::laws::law_active_session_rearms_all_complete;
use crate::lifecycle::trail::law_poll_keeps_to_its_session;
use crate::lifecycle::{ManagerView, Run};
use crate::types::Session;

verus! {

/// One tick: where it began, which sessions there were, and how its questions were answered.
pub struct Moment {
    pub manager: ManagerView,
    pub telling: Telling,
    pub seen: Map<Seq<char>, ()>,
    pub sessions: Seq<Session>,
    pub answers: TickAnswers,
}

/// What came of a tick.
pub open spec fn outcome(x: Moment) -> Tick {
    ticked(x.manager, x.telling, x.seen, x.sessions, x.answers)
}

/// One of the sessions has not ended.
pub open spec fn some_active(sessions: Seq<Session>) -> bool {
    exists|i: int| 0 <= i < sessions.len() && !(#[trigger] sessions[i]).status.terminal()
}

/// In this tick the reaction to the end of all sessions was let run, and ran.
pub open spec fn completed(x: Moment) -> bool {
    outcome(x).completed is Some && x.answers.all_complete == Some(true)
}

/// The reaction to the end of all sessions ran after the last tick in which one of them had not
/// ended.
pub open spec fn completed_since(history: Seq<Moment>) -> bool
    decreases history.len(),
{
    if history.len() == 0 || some_active(history.last().sessions) {
        false
    } else {
        completed(history.last()) || completed_since(history.drop_last())
    }
}

/// Ticks that follow each other: none was cut short, reactions are carried out, and each
/// remembers of the end of all sessions what the one before has left. The first remembers
/// nothing.
pub open spec fn follow_each_other(history: Seq<Moment>) -> bool
    decreases history.len(),
{
    history.len() == 0 || {
        let before = history.drop_last();
        let x = history.last();
        &&& follow_each_other(before)
        &&& outcome(x).flow == TickFlow::Done
        &&& x.manager.keys is Some
        &&& x.manager.all_complete_fired == (before.len() > 0 && outcome(
            before.last(),
        ).manager.all_complete_fired)
    }
}

proof fn lemma_same_statuses(
    m: ManagerView,
    log: Seq<EffectView>,
    sessions: Seq<Session>,
    n: nat,
    answers: Seq<Option<String>>,
)
    requires
        n <= sessions.len(),
    ensures
        ({
            let x = refreshed_first(m, log, sessions, n, answers).sessions;
            &&& x.len() == sessions.len()
            &&& forall|i: int|
                0 <= i < sessions.len() ==> (#[trigger] x[i]).status == sessions[i].status
        }),
    decreases n,
{
    if n > 0 {
        lemma_same_statuses(m, log, sessions, (n - 1) as nat, answers);
    }
}

proof fn lemma_visits_all(v: Visits, sessions: Seq<Session>, polls: Seq<PollAnswers>)
    requires
        visited_all(v, sessions, polls).flow == TickFlow::Done,
    ensures
        ({
            let x = visited_all(v, sessions, polls);
            &&& x.any_active == (v.any_active || some_active(sessions))
            &&& x.manager.keys == v.manager.keys
        }),
    decreases sessions.len(),
{
    if sessions.len() > 0 {
        let rest = sessions.drop_last();
        let s = sessions.last();
        let b = visited_all(v, rest, polls);
        assert(b.flow == TickFlow::Done);
        lemma_visits_all(v, rest, polls);
        reveal(visited);
        let r = Run { manager: b.manager, session: s, log: b.log, flow: Flow::Done };
        let announced = if b.seen.dom().contains(s.id.0@) {
            r
        } else {
            r.then_do(EffectView::Emit(announcement(r.manager, r.session)))
        };
        law_poll_keeps_to_its_session(
            announced.knowing(ManagerView { all_complete_fired: false, ..r.manager }),
            polls[b.visited as int],
        );
        if some_active(rest) {
            let i = choose|i: int| 0 <= i < rest.len() && !(#[trigger] rest[i]).status.terminal();
            assert(!sessions[i].status.terminal());
        }
        if some_active(sessions) {
            let i = choose|i: int|
                0 <= i < sessions.len() && !(#[trigger] sessions[i]).status.terminal();
            if i < rest.len() {
                assert(!rest[i].status.terminal());
            }
        }
        if !s.status.terminal() {
            assert(!sessions[sessions.len() - 1].status.terminal());
        }
    }
}

/// What one tick makes of the end of all sessions.
proof fn lemma_one_tick(x: Moment)
    requires
        outcome(x).flow == TickFlow::Done,
        x.manager.keys is Some,
    ensures
        outcome(x).completed is Some <==> !some_active(x.sessions) && outcome(x).seen
            != Map::<Seq<char>, ()>::empty() && !x.manager.all_complete_fired,
        outcome(x).manager.all_complete_fired == (!some_active(x.sessions) && (completed(x)
            || x.manager.all_complete_fired)),
{
    reveal(ticked);
    reveal(refreshed);
    reveal(begun);
    let y = refreshed(x.manager, x.telling.log, x.sessions, x.answers.branches@);
    lemma_only_claims(x.manager, x.telling.log, x.sessions, x.answers.branches@);
    lemma_same_statuses(
        x.manager,
        x.telling.log,
        x.sessions,
        if x.manager.scm {
            x.sessions.len()
        } else {
            0
        },
        x.answers.branches@,
    );
    assert(some_active(y.sessions) == some_active(x.sessions)) by {
        if some_active(x.sessions) {
            let i = choose|i: int|
                0 <= i < x.sessions.len() && !(#[trigger] x.sessions[i]).status.terminal();
            assert(!y.sessions[i].status.terminal());
        }
        if some_active(y.sessions) {
            let i = choose|i: int|
                0 <= i < y.sessions.len() && !(#[trigger] y.sessions[i]).status.terminal();
            assert(!x.sessions[i].status.terminal());
        }
    }
    let told = Telling { log: y.log, ..x.telling };
    let b = begun(y.manager, told, y.sessions, y.skipped, x.answers.begin);
    assert(b.manager.all_complete_fired == x.manager.all_complete_fired);
    assert(b.manager.keys == x.manager.keys);
    let v = no_visits(b.manager, x.seen, b.log);
    let w = visited_all(v, y.sessions, x.answers.polls@);
    assert(w.flow == TickFlow::Done);
    lemma_visits_all(v, y.sessions, x.answers.polls@);
    law_active_session_rearms_all_complete(v, y.sessions, x.answers.polls@);
}

proof fn lemma_remembered(history: Seq<Moment>)
    requires
        follow_each_other(history),
        history.len() > 0,
    ensures
        history.last().manager.all_complete_fired == completed_since(history.drop_last()),
        outcome(history.last()).manager.all_complete_fired == completed_since(history),
    decreases history.len(),
{
    let before = history.drop_last();
    lemma_one_tick(history.last());
    if before.len() > 0 {
        lemma_remembered(before);
    }
}

/// Over any number of ticks, the reaction to the end of all sessions is let run in a tick if and
/// only if all sessions had ended when it began, some session was ever seen, and the reaction
/// has not run since the last tick in which one of them had not ended.
pub proof fn law_all_complete_over_time(history: Seq<Moment>)
    requires
        follow_each_other(history),
        history.len() > 0,
    ensures
        outcome(history.last()).completed is Some <==> !some_active(history.last().sessions)
            && outcome(history.last()).seen != Map::<Seq<char>, ()>::empty() && !completed_since(
            history.drop_last(),
        ),
{
    lemma_remembered(history);
    lemma_one_tick(history.last());
}

} // verus!
