//! One tick: its beginning, the visits to all sessions, and its end.

use vstd::prelude::*;

use crate::keyed::KeyedMap;
use crate::lifecycle::branches::{lemma_only_claims, refreshed};
use crate::lifecycle::effects::{
    views, Effect, EffectView, Flow, PollAnswers, ScmAnswers, Slot, StuckAnswers,
    TransitionAnswers,
};
use crate::lifecycle::fleet::{
    all_complete, begun, is_sentinel, telling, visited, BeginFlow, DetectAnswers, Telling,
};
use crate::lifecycle::{LifecycleManager, ManagerView, Run};
use crate::types::Session;

verus! {

/// Where the answer that a tick waits for belongs.
#[derive(Clone, Copy, Debug, PartialEq, Eq, Structural)]
pub enum TickSlot {
    /// The branch that one more worktree is on.
    Branch,
    /// The pull request of one more session.
    Pr,
    /// What is known of all pull requests that were found.
    Batch,
    /// One more session is visited, to which no answers belong yet.
    Session,
    /// An answer to the visit that was begun last.
    Poll(Slot),
    /// The time, in milliseconds since the epoch.
    Now,
    /// Whether the reaction to the end of all sessions ran.
    AllComplete,
}

/// How far a tick has come.
#[derive(Clone, Copy, Debug, PartialEq, Eq, Structural)]
pub enum TickFlow {
    Done,
    Waiting(TickSlot),
}

/// The answers to the questions of one tick.
pub struct TickAnswers {
    /// The branches of the worktrees that were looked at, in the order of the sessions: an
    /// empty text for none, and nothing where it cannot be told.
    pub branches: Vec<Option<String>>,
    pub begin: DetectAnswers,
    /// For each session that was visited, in order.
    pub polls: Vec<PollAnswers>,
    pub now_ms: Option<u64>,
    pub all_complete: Option<bool>,
}

/// The visits of a tick, as far as they have come.
pub struct Visits {
    pub manager: ManagerView,
    pub seen: Map<Seq<char>, ()>,
    pub log: Seq<EffectView>,
    /// How many sessions have been visited.
    pub visited: nat,
    /// A session was visited that had not ended.
    pub any_active: bool,
    pub flow: TickFlow,
}

/// One more visit. A poll that fails does not keep the other sessions from being visited.
pub open spec fn visited_one(v: Visits, s: Session, polls: Seq<PollAnswers>) -> Visits {
    if v.flow != TickFlow::Done {
        v
    } else if v.visited >= polls.len() {
        Visits { flow: TickFlow::Waiting(TickSlot::Session), ..v }
    } else {
        let r = visited(
            Run { manager: v.manager, session: s, log: v.log, flow: Flow::Done },
            v.seen,
            polls[v.visited as int],
        );
        Visits {
            manager: r.manager,
            seen: v.seen.insert(s.id.0@, ()),
            log: r.log,
            visited: v.visited + 1,
            any_active: v.any_active || !s.status.terminal(),
            flow: match r.flow {
                Flow::Waiting(slot) => TickFlow::Waiting(TickSlot::Poll(slot)),
                _ => TickFlow::Done,
            },
        }
    }
}

/// The visits to all sessions.
pub open spec fn visited_all(v: Visits, sessions: Seq<Session>, polls: Seq<PollAnswers>) -> Visits
    decreases sessions.len(),
{
    if sessions.len() == 0 {
        v
    } else {
        visited_one(visited_all(v, sessions.drop_last(), polls), sessions.last(), polls)
    }
}

/// A tick, as far as it has come.
pub struct Tick {
    pub manager: ManagerView,
    pub seen: Map<Seq<char>, ()>,
    pub log: Seq<EffectView>,
    /// The reaction to the end of all sessions was let run, in the name of a session that was
    /// made up at this time.
    pub completed: Option<u64>,
    pub flow: TickFlow,
}

/// The end of a tick: the end of all sessions is announced, where it is to be.
pub open spec fn wound_up(v: Visits, now_ms: Option<u64>, answer: Option<bool>) -> Tick {
    if v.flow != TickFlow::Done || !all_complete(v.manager, v.any_active, v.seen) {
        Tick { manager: v.manager, seen: v.seen, log: v.log, completed: None, flow: v.flow }
    } else if now_ms is None {
        Tick {
            manager: v.manager,
            seen: v.seen,
            log: v.log,
            completed: None,
            flow: TickFlow::Waiting(TickSlot::Now),
        }
    } else {
        Tick {
            manager: ManagerView { all_complete_fired: answer == Some(true), ..v.manager },
            seen: v.seen,
            log: v.log,
            completed: now_ms,
            flow: if answer is None {
                TickFlow::Waiting(TickSlot::AllComplete)
            } else {
                TickFlow::Done
            },
        }
    }
}

/// The visits before the first one.
pub open spec fn no_visits(
    m: ManagerView,
    seen: Map<Seq<char>, ()>,
    log: Seq<EffectView>,
) -> Visits {
    Visits { manager: m, seen, log, visited: 0, any_active: false, flow: TickFlow::Done }
}

/// A tick, once the worktrees of all sessions have been looked at.
pub open spec fn ticked_on(
    m: ManagerView,
    t: Telling,
    seen: Map<Seq<char>, ()>,
    sessions: Seq<Session>,
    skipped: Map<Seq<char>, ()>,
    a: TickAnswers,
) -> Tick {
    let b = begun(m, t, sessions, skipped, a.begin);
    match b.flow {
        BeginFlow::WaitingForPr => Tick {
            manager: b.manager,
            seen,
            log: b.log,
            completed: None,
            flow: TickFlow::Waiting(TickSlot::Pr),
        },
        BeginFlow::WaitingForBatch => Tick {
            manager: b.manager,
            seen,
            log: b.log,
            completed: None,
            flow: TickFlow::Waiting(TickSlot::Batch),
        },
        BeginFlow::Done => wound_up(
            visited_all(no_visits(b.manager, seen, b.log), sessions, a.polls@),
            a.now_ms,
            a.all_complete,
        ),
    }
}

/// One tick. First the sessions follow their agents to the branches that they are on.
#[verifier::opaque]
pub open spec fn ticked(
    m: ManagerView,
    t: Telling,
    seen: Map<Seq<char>, ()>,
    sessions: Seq<Session>,
    a: TickAnswers,
) -> Tick {
    let x = refreshed(m, t.log, sessions, a.branches@);
    if x.waiting {
        Tick {
            manager: x.manager,
            seen,
            log: x.log,
            completed: None,
            flow: TickFlow::Waiting(TickSlot::Branch),
        }
    } else {
        ticked_on(x.manager, Telling { log: x.log, ..t }, seen, x.sessions, x.skipped, a)
    }
}

/// The effects of a tick: after all others comes the reaction to the end of all sessions, if
/// it was let run.
pub open spec fn tick_log(t: Tick, log: Seq<Effect>) -> bool {
    match t.completed {
        None => views(log) == t.log,
        Some(now_ms) => {
            &&& log.len() > 0
            &&& views(log.drop_last()) == t.log
            &&& log.last() matches Effect::Dispatch { session, key } && is_sentinel(session, now_ms)
                && key@ == "all-complete"@
        },
    }
}

impl TransitionAnswers {
    /// No answer yet.
    pub open spec fn blank(self) -> bool {
        &&& self.cost is None
        &&& self.dispatched is None
        &&& self.reaction is None
        &&& self.saved is None
        &&& self.parent is None
    }

    /// No answer yet.
    pub fn none() -> (r: Self)
        ensures
            r.blank(),
    {
        TransitionAnswers {
            cost: None,
            dispatched: None,
            reaction: None,
            saved: None,
            parent: None,
        }
    }
}

impl StuckAnswers {
    /// No answer yet.
    pub open spec fn blank(self) -> bool {
        self.reaction is None && self.now is None
    }

    /// No answer yet.
    pub fn none() -> (r: Self)
        ensures
            r.blank(),
    {
        StuckAnswers { reaction: None, now: None }
    }
}

impl ScmAnswers {
    /// No answer yet.
    pub open spec fn blank(self) -> bool {
        &&& self.detected is None
        &&& self.throttle_now is None
        &&& self.probes is None
        &&& self.probed_at is None
        &&& self.derived is None
        &&& self.stuck.blank()
        &&& self.transition.blank()
        &&& self.conflict_dispatched is None
        &&& self.conflict_saved is None
        &&& self.checks is None
        &&& self.checks_dispatched is None
        &&& self.comments_now is None
        &&& self.comments is None
        &&& self.comments_dispatched is None
        &&& self.comments_saved is None
        &&& self.bot_comments is None
        &&& self.bot_dispatched is None
        &&& self.bot_saved is None
    }

    /// No answer yet.
    pub fn none() -> (r: Self)
        ensures
            r.blank(),
    {
        ScmAnswers {
            detected: None,
            throttle_now: None,
            probes: None,
            probed_at: None,
            derived: None,
            stuck: StuckAnswers::none(),
            transition: TransitionAnswers::none(),
            conflict_dispatched: None,
            conflict_saved: None,
            checks: None,
            checks_dispatched: None,
            comments_now: None,
            comments: None,
            comments_dispatched: None,
            comments_saved: None,
            bot_comments: None,
            bot_dispatched: None,
            bot_saved: None,
        }
    }
}

impl PollAnswers {
    /// No answer yet.
    pub open spec fn blank(self) -> bool {
        &&& self.alive is None
        &&& self.activity is None
        &&& self.to_needs_input.blank()
        &&& self.activity_saved is None
        &&& self.idle_now is None
        &&& self.to_working.blank()
        &&& self.scm.blank()
        &&& self.to_killed.blank()
        &&& self.stuck.blank()
        &&& self.to_stuck.blank()
    }

    /// No answer yet.
    pub fn none() -> (r: Self)
        ensures
            r.blank(),
    {
        PollAnswers {
            alive: None,
            activity: None,
            to_needs_input: TransitionAnswers::none(),
            activity_saved: None,
            idle_now: None,
            to_working: TransitionAnswers::none(),
            scm: ScmAnswers::none(),
            to_killed: TransitionAnswers::none(),
            stuck: StuckAnswers::none(),
            to_stuck: TransitionAnswers::none(),
        }
    }
}

impl TickAnswers {
    /// No answer yet.
    pub fn none() -> (r: Self)
        ensures
            r.branches@ == Seq::<Option<String>>::empty(),
            r.begin.detected@ == Seq::<
                Result<Option<crate::scm::PullRequest>, String>,
            >::empty(),
            r.begin.enriched is None,
            r.polls@ == Seq::<PollAnswers>::empty(),
            r.now_ms is None,
            r.all_complete is None,
    {
        TickAnswers {
            branches: Vec::new(),
            begin: DetectAnswers { detected: Vec::new(), enriched: None },
            polls: Vec::new(),
            now_ms: None,
            all_complete: None,
        }
    }
}

/// Visits that wait go on waiting.
proof fn lemma_visits_wait(v: Visits, sessions: Seq<Session>, polls: Seq<PollAnswers>, i: int)
    requires
        0 <= i <= sessions.len(),
        visited_all(v, sessions.take(i), polls).flow != TickFlow::Done,
    ensures
        visited_all(v, sessions, polls) == visited_all(v, sessions.take(i), polls),
    decreases sessions.len() - i,
{
    if i == sessions.len() {
        assert(sessions.take(i) =~= sessions);
    } else {
        assert(sessions.take(i + 1).drop_last() =~= sessions.take(i));
        lemma_visits_wait(v, sessions, polls, i + 1);
    }
}

impl LifecycleManager {
    /// One tick over all sessions: lets them follow their agents to other branches, looks for
    /// their pull requests, visits each of them in order, and announces the end of all sessions
    /// once the last of them has ended. A tick that waits for an answer is run again, from the
    /// same state, once it is there.
    pub fn tick(
        &mut self,
        seen: &mut KeyedMap<()>,
        sessions: &Vec<Session>,
        answers: &TickAnswers,
        log: &mut Vec<Effect>,
    ) -> (flow: TickFlow)
        ensures
            ({
                let t = ticked(
                    old(self)@,
                    telling(*old(self), old(log)@),
                    old(seen)@,
                    sessions@,
                    *answers,
                );
                &&& final(self)@ == t.manager
                &&& final(seen)@ == t.seen
                &&& tick_log(t, final(log)@)
                &&& flow == t.flow
            }),
    {
        proof {
            reveal(ticked);
        }
        let looked = self.refresh_branches(sessions, &answers.branches, log);
        if looked.waiting {
            return TickFlow::Waiting(TickSlot::Branch);
        }
        proof {
            lemma_only_claims(old(self)@, views(old(log)@), sessions@, answers.branches@);
        }
        assert(telling(*self, log@) == (Telling {
            log: views(log@),
            ..telling(*old(self), old(log)@)
        }));
        self.tick_on(seen, &looked.sessions, &looked.skipped, answers, log)
    }

    /// Goes on with a tick, once the worktrees of all sessions have been looked at.
    fn tick_on(
        &mut self,
        seen: &mut KeyedMap<()>,
        sessions: &Vec<Session>,
        skipped: &KeyedMap<()>,
        answers: &TickAnswers,
        log: &mut Vec<Effect>,
    ) -> (flow: TickFlow)
        ensures
            ({
                let t = ticked_on(
                    old(self)@,
                    telling(*old(self), old(log)@),
                    old(seen)@,
                    sessions@,
                    skipped@,
                    *answers,
                );
                &&& final(self)@ == t.manager
                &&& final(seen)@ == t.seen
                &&& tick_log(t, final(log)@)
                &&& flow == t.flow
            }),
    {
        match self.begin_tick(sessions, skipped, &answers.begin, log) {
            BeginFlow::WaitingForPr => {
                return TickFlow::Waiting(TickSlot::Pr);
            },
            BeginFlow::WaitingForBatch => {
                return TickFlow::Waiting(TickSlot::Batch);
            },
            BeginFlow::Done => {},
        }
        let ghost v = no_visits(self@, seen@, views(log@));
        let mut any_active = false;
        assert(sessions@.take(0) =~= Seq::empty());
        for i in 0..sessions.len()
            invariant
                ({
                    let b = begun(
                        old(self)@,
                        telling(*old(self), old(log)@),
                        sessions@,
                        skipped@,
                        answers.begin,
                    );
                    &&& b.flow == BeginFlow::Done
                    &&& v == no_visits(b.manager, old(seen)@, b.log)
                }),
                visited_all(v, sessions@.take(i as int), answers.polls@) == (Visits {
                    manager: self@,
                    seen: seen@,
                    log: views(log@),
                    visited: i as nat,
                    any_active,
                    flow: TickFlow::Done,
                }),
        {
            proof {
                let upto = sessions@.take(i + 1);
                assert(upto.drop_last() =~= sessions@.take(i as int));
                assert(upto.last() == sessions@[i as int]);
            }
            if i >= answers.polls.len() {
                proof {
                    lemma_visits_wait(v, sessions@, answers.polls@, i + 1);
                }
                return TickFlow::Waiting(TickSlot::Session);
            }
            let mut session = sessions[i].clone();
            if !session.is_terminal() {
                any_active = true;
            }
            let flow = self.visit(seen, &mut session, &answers.polls[i], log);
            if let Flow::Waiting(slot) = flow {
                proof {
                    lemma_visits_wait(v, sessions@, answers.polls@, i + 1);
                }
                return TickFlow::Waiting(TickSlot::Poll(slot));
            }
        }
        assert(sessions@.take(sessions@.len() as int) =~= sessions@);
        let ready = !any_active && !seen.is_empty() && !self.all_complete_fired
            && self.reaction_engine.is_some();
        let now_ms: u64 = match answers.now_ms {
            Some(now_ms) => now_ms,
            None => {
                return if ready {
                    TickFlow::Waiting(TickSlot::Now)
                } else {
                    TickFlow::Done
                };
            },
        };
        if self.end_tick(any_active, seen, now_ms, answers.all_complete, log) {
            TickFlow::Waiting(TickSlot::AllComplete)
        } else {
            TickFlow::Done
        }
    }
}

} // verus!
