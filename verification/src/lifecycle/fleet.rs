//! One tick over all sessions.

use vstd::prelude::*;
use vstd::string::*;

use crate::dashboard_payload::{
    attention, attention_level, dashboard_pr, BatchedPrEnrichment, DashboardPr, DashboardPrView,
    EnrichmentView,
};
use crate::events::{EventView, OrchestratorEvent};
use crate::keyed::KeyedMap;
use crate::lifecycle::effects::{note, views, Effect, EffectView, Flow, PollAnswers};
use crate::lifecycle::scm_poll::{emit_error, enrichment_key, pr_key};
use crate::lifecycle::tick::polled;
use crate::lifecycle::{run_of, LifecycleManager, ManagerView, Run};
use crate::scm::{clone_prs, PullRequest};
use crate::text::texts;
use crate::types::{Session, SessionId, SessionStatus};

verus! {

/// The answers to the questions with which a tick begins.
pub struct DetectAnswers {
    /// The pull requests of the sessions that have not ended, in the order of the sessions.
    pub detected: Vec<Result<Option<PullRequest>, String>>,
    /// What the batch fetched, under `owner/repo#number`.
    pub enriched: Option<Result<KeyedMap<BatchedPrEnrichment>, String>>,
}

/// How far the beginning of a tick has come.
#[derive(Clone, Copy, Debug, PartialEq, Eq, Structural)]
pub enum BeginFlow {
    Done,
    /// The pull request of one more session is asked for.
    WaitingForPr,
    /// The batch is asked for.
    WaitingForBatch,
}

/// The search for pull requests, as far as it has come.
pub struct Detection {
    /// What was found, under the session's id.
    pub found: Map<Seq<char>, Option<PullRequest>>,
    /// The pull requests that were found.
    pub prs: Seq<PullRequest>,
    /// How many answers were used up.
    pub used: nat,
    pub log: Seq<EffectView>,
    pub waiting: bool,
}

/// The search for the pull request of one more session. One whose worktree is on no branch has
/// none.
pub open spec fn detected_one(
    d: Detection,
    s: Session,
    skipped: Map<Seq<char>, ()>,
    answers: Seq<Result<Option<PullRequest>, String>>,
) -> Detection {
    let id = s.id.0@;
    if d.waiting || s.status.terminal() {
        d
    } else if skipped.dom().contains(id) {
        Detection { found: d.found.insert(id, None), ..d }
    } else {
        let asked = d.log.push(EffectView::DetectPr { session: s });
        if d.used >= answers.len() {
            Detection { log: asked, waiting: true, ..d }
        } else {
            match answers[d.used as int] {
                Ok(pr) => Detection {
                    found: d.found.insert(id, pr),
                    prs: match pr {
                        Some(p) => d.prs.push(p),
                        None => d.prs,
                    },
                    used: d.used + 1,
                    log: asked,
                    waiting: false,
                },
                Err(e) => Detection {
                    found: d.found.insert(id, None),
                    prs: d.prs,
                    used: d.used + 1,
                    log: asked.push(
                        EffectView::Emit(
                            EventView::TickError { id, message: "scm.detect_pr: "@ + e@ },
                        ),
                    ),
                    waiting: false,
                },
            }
        }
    }
}

/// The search for the pull requests of all sessions.
pub open spec fn detected_all(
    log: Seq<EffectView>,
    sessions: Seq<Session>,
    skipped: Map<Seq<char>, ()>,
    answers: Seq<Result<Option<PullRequest>, String>>,
) -> Detection
    decreases sessions.len(),
{
    if sessions.len() == 0 {
        Detection { found: Map::empty(), prs: Seq::empty(), used: 0, log, waiting: false }
    } else {
        detected_one(
            detected_all(log, sessions.drop_last(), skipped, answers),
            sessions.last(),
            skipped,
            answers,
        )
    }
}

/// What the watchers were told about pull requests.
pub struct Telling {
    pub told: Map<Seq<char>, EnrichmentView>,
    /// The sessions that are told of, in the order in which that began.
    pub order: Seq<Seq<char>>,
    pub shown: Map<Seq<char>, DashboardPrView>,
    pub log: Seq<EffectView>,
}

/// What there is to tell about the pull request of one more session: something, if what was
/// fetched differs from what was last told.
pub open spec fn told_one(
    t: Telling,
    s: Session,
    found: Map<Seq<char>, Option<PullRequest>>,
    enriched: Map<Seq<char>, EnrichmentView>,
) -> Telling {
    let id = s.id.0@;
    if !has_pr(found, id) || !enriched.dom().contains(pr_key(found[id]->0)) {
        t
    } else {
        let pr = found[id]->0;
        let e = enriched[pr_key(pr)];
        if t.told.dom().contains(id) && t.told[id] == e {
            t
        } else {
            let d = dashboard_pr(pr, e);
            Telling {
                told: t.told.insert(id, e),
                order: if t.told.dom().contains(id) {
                    t.order
                } else {
                    t.order.push(id)
                },
                shown: t.shown.insert(id, d),
                log: t.log.push(
                    EffectView::Emit(
                        EventView::PrEnrichmentChanged {
                            id,
                            pr: Some(d),
                            attention_level: attention(s.status, Some(d)),
                        },
                    ),
                ),
            }
        }
    }
}

/// What there is to tell about the pull requests of all sessions.
pub open spec fn told_all(
    t: Telling,
    sessions: Seq<Session>,
    found: Map<Seq<char>, Option<PullRequest>>,
    enriched: Map<Seq<char>, EnrichmentView>,
) -> Telling
    decreases sessions.len(),
{
    if sessions.len() == 0 {
        t
    } else {
        told_one(
            told_all(t, sessions.drop_last(), found, enriched),
            sessions.last(),
            found,
            enriched,
        )
    }
}

/// A pull request was found for the session.
pub open spec fn has_pr(found: Map<Seq<char>, Option<PullRequest>>, id: Seq<char>) -> bool {
    found.dom().contains(id) && found[id] is Some
}

/// The sessions in `ids` that have no pull request any more are no longer told of.
pub open spec fn lost(
    t: Telling,
    ids: Seq<Seq<char>>,
    found: Map<Seq<char>, Option<PullRequest>>,
) -> Telling
    decreases ids.len(),
{
    if ids.len() == 0 {
        t
    } else {
        let before = lost(t, ids.drop_last(), found);
        let id = ids.last();
        if has_pr(found, id) {
            before
        } else {
            Telling {
                told: before.told.remove(id),
                order: before.order,
                shown: before.shown.remove(id),
                log: before.log.push(
                    EffectView::Emit(
                        EventView::PrEnrichmentChanged {
                            id,
                            pr: None,
                            attention_level: Seq::empty(),
                        },
                    ),
                ),
            }
        }
    }
}

/// What the watchers have been told.
pub open spec fn telling(m: LifecycleManager, log: Seq<Effect>) -> Telling {
    Telling {
        told: m@.told,
        order: m.pr_enrichment_prev.key_order(),
        shown: m@.shown,
        log: views(log),
    }
}

/// The beginning of a tick, as far as it has come.
pub struct Begin {
    pub manager: ManagerView,
    pub log: Seq<EffectView>,
    pub flow: BeginFlow,
}

/// The end of the beginning: what was told about pull requests that are gone is taken back,
/// and what was found is kept for the polls.
pub open spec fn begun_with(
    m: ManagerView,
    t: Telling,
    found: Map<Seq<char>, Option<PullRequest>>,
) -> Begin {
    let l = lost(t, t.order, found);
    Begin {
        manager: ManagerView { told: l.told, shown: l.shown, detected: found, ..m },
        log: l.log,
        flow: BeginFlow::Done,
    }
}

/// The contents of what a batch fetched.
pub open spec fn enrichment_views(m: Map<Seq<char>, BatchedPrEnrichment>) -> Map<
    Seq<char>,
    EnrichmentView,
> {
    m.map_values(|e: BatchedPrEnrichment| e@)
}

/// The beginning of a tick, where the worktrees of the sessions in `skipped` are on no branch.
#[verifier::opaque]
pub open spec fn begun(
    m: ManagerView,
    t: Telling,
    sessions: Seq<Session>,
    skipped: Map<Seq<char>, ()>,
    a: DetectAnswers,
) -> Begin {
    let fresh = ManagerView { enriched: Map::empty(), ..m };
    if !m.scm {
        Begin {
            manager: ManagerView { detected: Map::empty(), ..fresh },
            log: t.log,
            flow: BeginFlow::Done,
        }
    } else {
        let d = detected_all(t.log, sessions, skipped, a.detected@);
        if d.waiting {
            Begin { manager: fresh, log: d.log, flow: BeginFlow::WaitingForPr }
        } else if d.prs.len() == 0 {
            begun_with(fresh, Telling { log: d.log, ..t }, d.found)
        } else {
            let asked = Telling { log: d.log.push(EffectView::EnrichPrs { prs: d.prs }), ..t };
            match a.enriched {
                None => Begin {
                    manager: fresh,
                    log: asked.log,
                    flow: BeginFlow::WaitingForBatch,
                },
                Some(Err(_)) => begun_with(fresh, asked, d.found),
                Some(Ok(batch)) => {
                    let enriched = enrichment_views(batch@);
                    begun_with(
                        ManagerView { enriched, ..fresh },
                        told_all(asked, sessions, d.found, enriched),
                        d.found,
                    )
                },
            }
        }
    }
}

/// A session that is seen for the first time is announced: as restored, if it is older than
/// the loop.
pub open spec fn announcement(m: ManagerView, s: Session) -> EventView {
    if m.startup_ms != 0 && s.created_at < m.startup_ms {
        EventView::SessionRestored { id: s.id.0@, project_id: s.project_id@, status: s.status }
    } else {
        EventView::Spawned { id: s.id.0@, project_id: s.project_id@ }
    }
}

/// The visit to one session.
#[verifier::opaque]
pub open spec fn visited(r: Run, seen: Map<Seq<char>, ()>, a: PollAnswers) -> Run {
    let announced = if seen.dom().contains(r.session.id.0@) {
        r
    } else {
        r.then_do(EffectView::Emit(announcement(r.manager, r.session)))
    };
    if r.session.status.terminal() {
        announced
    } else {
        polled(
            announced.knowing(ManagerView { all_complete_fired: false, ..r.manager }),
            a,
        )
    }
}

/// The session in whose name the end of all sessions is announced.
pub open spec fn is_sentinel(s: Session, now_ms: u64) -> bool {
    &&& s.id.0@ == "__all_complete__"@
    &&& s.project_id@ == Seq::<char>::empty()
    &&& s.status == SessionStatus::Done
    &&& s.agent@ == Seq::<char>::empty()
    &&& s.agent_config is None
    &&& s.branch@ == Seq::<char>::empty()
    &&& s.task@ == Seq::<char>::empty()
    &&& s.workspace_path is None
    &&& s.runtime_handle is None
    &&& s.runtime@ == Seq::<char>::empty()
    &&& s.activity is None
    &&& s.created_at == now_ms
    &&& s.cost is None
    &&& s.issue_id is None
    &&& s.issue_url is None
    &&& s.claimed_pr_number is None
    &&& s.claimed_pr_url is None
    &&& s.initial_prompt_override is None
    &&& s.spawned_by is None
    &&& s.last_merge_conflict_dispatched is None
    &&& s.last_review_backlog_fingerprint is None
    &&& s.last_automated_review_fingerprint is None
    &&& s.last_automated_review_dispatch_hash is None
}

/// The session in whose name the end of all sessions is announced. It belongs to no project,
/// so that the global configuration applies.
pub fn all_complete_sentinel(now_ms: u64) -> (r: Session)
    ensures
        is_sentinel(r, now_ms),
{
    Session {
        id: SessionId("__all_complete__".to_string()),
        project_id: String::new(),
        status: SessionStatus::Done,
        agent: String::new(),
        agent_config: None,
        branch: String::new(),
        task: String::new(),
        workspace_path: None,
        runtime_handle: None,
        runtime: String::new(),
        activity: None,
        created_at: now_ms,
        cost: None,
        issue_id: None,
        issue_url: None,
        claimed_pr_number: None,
        claimed_pr_url: None,
        initial_prompt_override: None,
        spawned_by: None,
        last_merge_conflict_dispatched: None,
        last_review_backlog_fingerprint: None,
        last_automated_review_fingerprint: None,
        last_automated_review_dispatch_hash: None,
    }
}

/// The end of all sessions is to be announced: none is active, some was seen, and it has not
/// been announced yet.
pub open spec fn all_complete(m: ManagerView, any_active: bool, seen: Map<Seq<char>, ()>) -> bool {
    !any_active && seen != Map::<Seq<char>, ()>::empty() && !m.all_complete_fired && m.keys is Some
}

impl LifecycleManager {
    /// Tells the watchers of every pull request of which something else was fetched than they
    /// were last told.
    pub fn diff_and_emit_pr_enrichment(
        &mut self,
        sessions: &Vec<Session>,
        detected: &KeyedMap<Option<PullRequest>>,
        enrichment: &KeyedMap<BatchedPrEnrichment>,
        log: &mut Vec<Effect>,
    )
        ensures
            telling(*final(self), final(log)@) == told_all(
                telling(*old(self), old(log)@),
                sessions@,
                detected@,
                enrichment_views(enrichment@),
            ),
            final(self)@ == (ManagerView {
                told: final(self)@.told,
                shown: final(self)@.shown,
                ..old(self)@
            }),
    {
        let ghost start = telling(*self, log@);
        let ghost m = self@;
        let ghost enriched = enrichment_views(enrichment@);
        let mut i: usize = 0;
        assert(sessions@.take(0) =~= Seq::empty());
        while i < sessions.len()
            invariant
                i <= sessions.len(),
                enriched == enrichment_views(enrichment@),
                telling(*self, log@) == told_all(start, sessions@.take(i as int), detected@, enriched),
                self@ == (ManagerView { told: self@.told, shown: self@.shown, ..m }),
            decreases sessions.len() - i,
        {
            let ghost upto = sessions@.take(i + 1);
            assert(upto.drop_last() =~= sessions@.take(i as int));
            assert(upto.last() == sessions@[i as int]);
            let ghost t = telling(*self, log@);
            let session = &sessions[i];
            i += 1;
            let pr = match detected.get(session.id.0.as_str()) {
                Some(Some(pr)) => pr,
                _ => {
                    continue ;
                },
            };
            let key = enrichment_key(pr);
            let fetched = match enrichment.get(key.as_str()) {
                Some(e) => e,
                None => {
                    continue ;
                },
            };
            assert(enriched[key@] == fetched@);
            let unchanged = match self.pr_enrichment_prev.get(session.id.0.as_str()) {
                Some(known) => known.same(fetched),
                None => false,
            };
            if unchanged {
                continue ;
            }
            let shown = DashboardPr::from_enrichment(pr, fetched);
            let level = attention_level(session, Some(&shown));
            self.pr_enrichment_prev.insert(session.id.0.clone(), fetched.clone());
            self.pr_enrichment_payload.insert(session.id.0.clone(), shown.clone());
            proof {
                let id = session.id.0@;
                assert(self@.told =~= t.told.insert(id, fetched@));
                assert(self@.shown =~= t.shown.insert(id, shown@));
            }
            note(
                log,
                Effect::Emit(
                    OrchestratorEvent::PrEnrichmentChanged {
                        id: session.id.clone(),
                        pr: Some(shown),
                        attention_level: level,
                    },
                ),
            );
        }
        assert(sessions@.take(sessions@.len() as int) =~= sessions@);
    }

    /// Takes back what was told about pull requests that are gone.
    pub fn clear_lost_pr_enrichment(
        &mut self,
        detected: &KeyedMap<Option<PullRequest>>,
        log: &mut Vec<Effect>,
    )
        ensures
            ({
                let t = telling(*old(self), old(log)@);
                let l = lost(t, t.order, detected@);
                &&& final(self)@ == (ManagerView { told: l.told, shown: l.shown, ..old(self)@ })
                &&& views(final(log)@) == l.log
            }),
    {
        let ghost start = telling(*self, log@);
        let ghost m = self@;
        let ids = self.pr_enrichment_prev.keys();
        let ghost order = texts(ids@);
        let mut i: usize = 0;
        assert(order.take(0) =~= Seq::empty());
        while i < ids.len()
            invariant
                i <= ids.len(),
                order == texts(ids@),
                ({
                    let l = lost(start, order.take(i as int), detected@);
                    &&& self@ == (ManagerView { told: l.told, shown: l.shown, ..m })
                    &&& views(log@) == l.log
                }),
            decreases ids.len() - i,
        {
            let ghost upto = order.take(i + 1);
            assert(upto.drop_last() =~= order.take(i as int));
            assert(upto.last() == ids@[i as int]@);
            let ghost l = lost(start, order.take(i as int), detected@);
            let gone = match detected.get(ids[i].as_str()) {
                Some(Some(_)) => false,
                _ => true,
            };
            if gone {
                self.pr_enrichment_prev.remove(ids[i].as_str());
                self.pr_enrichment_payload.remove(ids[i].as_str());
                assert(self@.told =~= l.told.remove(ids@[i as int]@));
                assert(self@.shown =~= l.shown.remove(ids@[i as int]@));
                note(
                    log,
                    Effect::Emit(
                        OrchestratorEvent::PrEnrichmentChanged {
                            id: SessionId(ids[i].clone()),
                            pr: None,
                            attention_level: String::new(),
                        },
                    ),
                );
            }
            i += 1;
        }
        assert(order.take(order.len() as int) =~= order);
    }

    /// Begins a tick: looks for the pull request of every session that has not ended, fetches
    /// them all in one batch, and tells the watchers what has changed. A session in `skipped` has
    /// no branch for which a pull request could be looked for.
    pub fn begin_tick(
        &mut self,
        sessions: &Vec<Session>,
        skipped: &KeyedMap<()>,
        answers: &DetectAnswers,
        log: &mut Vec<Effect>,
    ) -> (flow: BeginFlow)
        ensures
            ({
                let b = begun(
                    old(self)@,
                    telling(*old(self), old(log)@),
                    sessions@,
                    skipped@,
                    *answers,
                );
                &&& final(self)@ == b.manager
                &&& views(final(log)@) == b.log
                &&& flow == b.flow
            }),
    {
        proof {
            reveal(begun);
        }
        let ghost start = telling(*self, log@);
        let ghost m = self@;
        self.pr_enrichment_cache = KeyedMap::new();
        assert(self@.enriched =~= Map::empty());
        if !self.scm {
            self.detected_prs_cache = KeyedMap::new();
            return BeginFlow::Done;
        }
        let ghost log0 = views(log@);
        let ghost fresh = self@;
        let mut detected: KeyedMap<Option<PullRequest>> = KeyedMap::new();
        let mut prs: Vec<PullRequest> = Vec::new();
        let mut used: usize = 0;
        let mut i: usize = 0;
        assert(sessions@.take(0) =~= Seq::empty());
        assert(prs@ =~= Seq::empty());
        while i < sessions.len()
            invariant
                i <= sessions.len(),
                used <= i,
                self@ == fresh,
                old(self)@.scm,
                fresh == (ManagerView { enriched: Map::empty(), ..old(self)@ }),
                start == telling(*old(self), old(log)@),
                log0 == start.log,
                telling(*self, log@) == (Telling { log: views(log@), ..start }),
                ({
                    let d = detected_all(
                        log0,
                        sessions@.take(i as int),
                        skipped@,
                        answers.detected@,
                    );
                    &&& d.found == detected@
                    &&& d.prs == prs@
                    &&& d.used == used
                    &&& d.log == views(log@)
                    &&& !d.waiting
                }),
            decreases sessions.len() - i,
        {
            let ghost upto = sessions@.take(i + 1);
            assert(upto.drop_last() =~= sessions@.take(i as int));
            assert(upto.last() == sessions@[i as int]);
            let session = &sessions[i];
            i += 1;
            if session.is_terminal() {
                continue ;
            }
            if skipped.contains_key(session.id.0.as_str()) {
                detected.insert(session.id.0.clone(), None);
                continue ;
            }
            note(log, Effect::DetectPr { session: session.clone() });
            if used >= answers.detected.len() {
                proof {
                    reveal(begun);
                    lemma_waits(log0, sessions@, skipped@, answers.detected@, i as int);
                }
                return BeginFlow::WaitingForPr;
            }
            match &answers.detected[used] {
                Ok(pr) => {
                    let found = match pr {
                        Some(p) => {
                            prs.push(p.clone());
                            Some(p.clone())
                        },
                        None => None,
                    };
                    detected.insert(session.id.0.clone(), found);
                },
                Err(e) => {
                    emit_error(&session.id, "scm.detect_pr: ", e.as_str(), log);
                    detected.insert(session.id.0.clone(), None);
                },
            }
            used += 1;
        }
        assert(sessions@.take(sessions@.len() as int) =~= sessions@);
        if prs.len() > 0 {
            note(log, Effect::EnrichPrs { prs: clone_prs(&prs) });
            match &answers.enriched {
                None => {
                    return BeginFlow::WaitingForBatch;
                },
                Some(Err(_)) => {},
                Some(Ok(batch)) => {
                    self.diff_and_emit_pr_enrichment(sessions, &detected, batch, log);
                    let ghost told = self@;
                    self.pr_enrichment_cache = batch.clone();
                    assert(self@.enriched =~= enrichment_views(batch@));
                    assert(telling(*self, log@) == (Telling {
                        told: told.told,
                        shown: told.shown,
                        order: self.pr_enrichment_prev.key_order(),
                        log: views(log@),
                    }));
                },
            }
        }
        self.clear_lost_pr_enrichment(&detected, log);
        self.detected_prs_cache = detected;
        BeginFlow::Done
    }

    /// Visits one session: announces it if it is seen for the first time, and polls it unless
    /// it has ended. A session that has not ended makes the end of all sessions worth
    /// announcing again.
    pub fn visit(
        &mut self,
        seen: &mut KeyedMap<()>,
        session: &mut Session,
        answers: &PollAnswers,
        log: &mut Vec<Effect>,
    ) -> (flow: Flow)
        ensures
            run_of(*final(self), *final(session), final(log)@, flow) == visited(
                run_of(*old(self), *old(session), old(log)@, Flow::Done),
                old(seen)@,
                *answers,
            ),
            final(seen)@ == old(seen)@.insert(old(session).id.0@, ()),
    {
        proof {
            reveal(visited);
        }
        if !seen.contains_key(session.id.0.as_str()) {
            seen.insert(session.id.0.clone(), ());
            if self.startup_ms != 0 && session.created_at < self.startup_ms {
                note(
                    log,
                    Effect::Emit(
                        OrchestratorEvent::SessionRestored {
                            id: session.id.clone(),
                            project_id: session.project_id.clone(),
                            status: session.status,
                        },
                    ),
                );
            } else {
                note(
                    log,
                    Effect::Emit(
                        OrchestratorEvent::Spawned {
                            id: session.id.clone(),
                            project_id: session.project_id.clone(),
                        },
                    ),
                );
            }
        } else {
            assert(seen@.insert(session.id.0@, ()) =~= seen@);
        }
        if session.is_terminal() {
            return Flow::Done;
        }
        self.all_complete_fired = false;
        self.poll_one(session, answers, log)
    }

    /// Ends a tick: where no session is active any more, that is announced once. `now_ms` is
    /// the time in milliseconds since the epoch; `answer` tells whether the reaction ran.
    /// The result is whether that is still to be told.
    pub fn end_tick(
        &mut self,
        any_active: bool,
        seen: &KeyedMap<()>,
        now_ms: u64,
        answer: Option<bool>,
        log: &mut Vec<Effect>,
    ) -> (waiting: bool)
        ensures
            !all_complete(old(self)@, any_active, seen@) ==> {
                &&& *final(self) == *old(self)
                &&& *final(log) == *old(log)
                &&& !waiting
            },
            all_complete(old(self)@, any_active, seen@) ==> {
                &&& waiting == (answer is None)
                &&& final(self)@ == (ManagerView {
                    all_complete_fired: answer == Some(true),
                    ..old(self)@
                })
                &&& final(log)@.len() == old(log)@.len() + 1
                &&& final(log)@.drop_last() == old(log)@
                &&& final(log)@.last() matches Effect::Dispatch { session, key } && is_sentinel(
                    session,
                    now_ms,
                ) && key@ == "all-complete"@
            },
    {
        if !any_active && !seen.is_empty() && !self.all_complete_fired
            && self.reaction_engine.is_some() {
            let ghost had = log@;
            note(
                log,
                Effect::Dispatch {
                    session: all_complete_sentinel(now_ms),
                    key: "all-complete".to_string(),
                },
            );
            assert(log@.drop_last() =~= had);
            match answer {
                None => true,
                Some(ran) => {
                    self.all_complete_fired = ran;
                    false
                },
            }
        } else {
            false
        }
    }
}

/// A search that waits goes on waiting.
proof fn lemma_waits(
    log: Seq<EffectView>,
    sessions: Seq<Session>,
    skipped: Map<Seq<char>, ()>,
    answers: Seq<Result<Option<PullRequest>, String>>,
    i: int,
)
    requires
        0 <= i <= sessions.len(),
        detected_all(log, sessions.take(i), skipped, answers).waiting,
    ensures
        detected_all(log, sessions, skipped, answers) == detected_all(
            log,
            sessions.take(i),
            skipped,
            answers,
        ),
    decreases sessions.len() - i,
{
    if i == sessions.len() {
        assert(sessions.take(i) =~= sessions);
    } else {
        assert(sessions.take(i + 1).drop_last() =~= sessions.take(i));
        lemma_waits(log, sessions, skipped, answers, i + 1);
    }
}

} // verus!
