//! A tick that is run again with more answers does what it did before, and goes on.

use vstd::prelude::*;

use crate::dashboard_payload::EnrichmentView;
use crate::lifecycle::branches::{refreshed, refreshed_first, refreshed_one};
use crate::lifecycle::cycle::{
    no_visits, ticked, visited_all, visited_one, TickAnswers, TickFlow, Visits,
};
use crate::lifecycle::effects::{EffectView, Flow, PollAnswers};
use crate::lifecycle::fleet::{
    begun, detected_all, detected_one, enrichment_views, lost, told_all, told_one, visited,
    BeginFlow, DetectAnswers, Telling,
};
use crate::lifecycle::replay::{fills, law_poll_goes_on, poll_fills};
use crate::lifecycle::{ManagerView, Run};
use crate::scm::PullRequest;
use crate::types::Session;

verus! {

/// `b` holds all answers of `a`.
pub open spec fn begin_fills(a: DetectAnswers, b: DetectAnswers) -> bool {
    a.detected@.is_prefix_of(b.detected@) && fills(a.enriched, b.enriched)
}

/// `b` holds all answers of `a`.
pub open spec fn polls_fill(a: Seq<PollAnswers>, b: Seq<PollAnswers>) -> bool {
    &&& a.len() <= b.len()
    &&& forall|i: int| 0 <= i < a.len() ==> poll_fills(#[trigger] a[i], b[i])
}

/// `b` holds all answers of `a`.
pub open spec fn tick_fills(a: TickAnswers, b: TickAnswers) -> bool {
    &&& a.branches@.is_prefix_of(b.branches@)
    &&& begin_fills(a.begin, b.begin)
    &&& polls_fill(a.polls@, b.polls@)
    &&& fills(a.now_ms, b.now_ms)
    &&& fills(a.all_complete, b.all_complete)
}

pub(crate) proof fn lemma_refreshed(
    m: ManagerView,
    log: Seq<EffectView>,
    sessions: Seq<Session>,
    n: nat,
    a: Seq<Option<String>>,
    b: Seq<Option<String>>,
)
    requires
        a.is_prefix_of(b),
    ensures
        ({
            let x = refreshed_first(m, log, sessions, n, a);
            let y = refreshed_first(m, log, sessions, n, b);
            &&& log.is_prefix_of(x.log)
            &&& x.log.is_prefix_of(y.log)
            &&& !x.waiting ==> y == x
        }),
    decreases n,
{
    if n > 0 {
        let k = (n - 1) as nat;
        lemma_refreshed(m, log, sessions, k, a, b);
        let x = refreshed_first(m, log, sessions, k, a);
        let y = refreshed_first(m, log, sessions, k, b);
        assert(x.log.is_prefix_of(refreshed_one(x, k as int, a).log));
        assert(y.log.is_prefix_of(refreshed_one(y, k as int, b).log));
        if !x.waiting && x.used < a.len() {
            assert(a[x.used as int] == b[x.used as int]);
        }
    }
}

pub(crate) proof fn lemma_detected(
    log: Seq<EffectView>,
    sessions: Seq<Session>,
    skipped: Map<Seq<char>, ()>,
    a: Seq<Result<Option<PullRequest>, String>>,
    b: Seq<Result<Option<PullRequest>, String>>,
)
    requires
        a.is_prefix_of(b),
    ensures
        ({
            let x = detected_all(log, sessions, skipped, a);
            let y = detected_all(log, sessions, skipped, b);
            &&& log.is_prefix_of(x.log)
            &&& x.log.is_prefix_of(y.log)
            &&& !x.waiting ==> y == x
        }),
    decreases sessions.len(),
{
    if sessions.len() > 0 {
        let rest = sessions.drop_last();
        lemma_detected(log, rest, skipped, a, b);
        let da = detected_all(log, rest, skipped, a);
        let db = detected_all(log, rest, skipped, b);
        let s = sessions.last();
        assert(db.log.is_prefix_of(detected_one(db, s, skipped, b).log));
        assert(da.log.is_prefix_of(detected_one(da, s, skipped, a).log));
        if !da.waiting && da.used < a.len() {
            assert(a[da.used as int] == b[da.used as int]);
        }
    }
}

pub(crate) proof fn lemma_told(
    t: Telling,
    sessions: Seq<Session>,
    found: Map<Seq<char>, Option<PullRequest>>,
    enriched: Map<Seq<char>, EnrichmentView>,
)
    ensures
        t.log.is_prefix_of(told_all(t, sessions, found, enriched).log),
    decreases sessions.len(),
{
    if sessions.len() > 0 {
        lemma_told(t, sessions.drop_last(), found, enriched);
        let before = told_all(t, sessions.drop_last(), found, enriched);
        assert(before.log.is_prefix_of(
            told_one(before, sessions.last(), found, enriched).log,
        ));
    }
}

pub(crate) proof fn lemma_lost(
    t: Telling,
    ids: Seq<Seq<char>>,
    found: Map<Seq<char>, Option<PullRequest>>,
)
    ensures
        t.log.is_prefix_of(lost(t, ids, found).log),
    decreases ids.len(),
{
    if ids.len() > 0 {
        lemma_lost(t, ids.drop_last(), found);
    }
}

pub(crate) proof fn lemma_begun(
    m: ManagerView,
    t: Telling,
    sessions: Seq<Session>,
    skipped: Map<Seq<char>, ()>,
    a: DetectAnswers,
    b: DetectAnswers,
)
    requires
        begin_fills(a, b),
    ensures
        ({
            let x = begun(m, t, sessions, skipped, a);
            let y = begun(m, t, sessions, skipped, b);
            &&& t.log.is_prefix_of(x.log)
            &&& x.log.is_prefix_of(y.log)
            &&& x.flow == BeginFlow::Done ==> y == x
        }),
{
    reveal(begun);
    if m.scm {
        lemma_begun_from(m, t, sessions, skipped, a);
        lemma_begun_from(m, t, sessions, skipped, b);
        lemma_detected(t.log, sessions, skipped, a.detected@, b.detected@);
    }
}

/// Once all pull requests have been looked for, the beginning of a tick goes on from there.
pub(crate) proof fn lemma_begun_from(
    m: ManagerView,
    t: Telling,
    sessions: Seq<Session>,
    skipped: Map<Seq<char>, ()>,
    a: DetectAnswers,
)
    requires
        m.scm,
    ensures
        ({
            let d = detected_all(t.log, sessions, skipped, a.detected@);
            let x = begun(m, t, sessions, skipped, a).log;
            &&& d.log.is_prefix_of(x)
            &&& !d.waiting && d.prs.len() > 0 ==> d.log.push(
                EffectView::EnrichPrs { prs: d.prs },
            ).is_prefix_of(x)
        }),
{
    reveal(begun);
    let d = detected_all(t.log, sessions, skipped, a.detected@);
    let quick = Telling { log: d.log, ..t };
    lemma_lost(quick, quick.order, d.found);
    let asked = Telling { log: d.log.push(EffectView::EnrichPrs { prs: d.prs }), ..t };
    assert(d.log.is_prefix_of(asked.log));
    lemma_lost(asked, asked.order, d.found);
    if let Some(Ok(batch)) = a.enriched {
        let enriched = enrichment_views(batch@);
        let told = told_all(asked, sessions, d.found, enriched);
        lemma_told(asked, sessions, d.found, enriched);
        lemma_lost(told, told.order, d.found);
    }
}

pub(crate) proof fn lemma_visited(r: Run, seen: Map<Seq<char>, ()>, a: PollAnswers, b: PollAnswers)
    requires
        r.flow == Flow::Done,
        poll_fills(a, b),
    ensures
        r.log.is_prefix_of(visited(r, seen, a).log),
        visited(r, seen, a).log.is_prefix_of(visited(r, seen, b).log),
        !(visited(r, seen, a).flow is Waiting) ==> visited(r, seen, b) == visited(r, seen, a),
{
    reveal(visited);
    let announced = if seen.dom().contains(r.session.id.0@) {
        r
    } else {
        r.then_do(EffectView::Emit(crate::lifecycle::fleet::announcement(r.manager, r.session)))
    };
    assert(r.log.is_prefix_of(announced.log));
    law_poll_goes_on(
        announced.knowing(ManagerView { all_complete_fired: false, ..r.manager }),
        a,
        b,
    );
}

pub(crate) proof fn lemma_visits(v: Visits, sessions: Seq<Session>, a: Seq<PollAnswers>, b: Seq<PollAnswers>)
    requires
        v.flow == TickFlow::Done,
        polls_fill(a, b),
    ensures
        v.log.is_prefix_of(visited_all(v, sessions, a).log),
        visited_all(v, sessions, a).log.is_prefix_of(visited_all(v, sessions, b).log),
        visited_all(v, sessions, a).flow == TickFlow::Done ==> visited_all(v, sessions, b)
            == visited_all(v, sessions, a),
    decreases sessions.len(),
{
    if sessions.len() > 0 {
        let rest = sessions.drop_last();
        let s = sessions.last();
        lemma_visits(v, rest, a, b);
        let va = visited_all(v, rest, a);
        let vb = visited_all(v, rest, b);
        let at = vb.visited as int;
        if vb.flow == TickFlow::Done && at < b.len() {
            let r = Run { manager: vb.manager, session: s, log: vb.log, flow: Flow::Done };
            lemma_visited(r, vb.seen, b[at], b[at]);
            if va.flow == TickFlow::Done && at < a.len() {
                lemma_visited(r, vb.seen, a[at], b[at]);
            }
        }
        assert(vb.log.is_prefix_of(visited_one(vb, s, b).log));
    }
}

/// A tick that is run again with more answers does what it did before, effect for effect,
/// and goes on where it had to wait. One that did not have to wait does exactly the same, and
/// the end of all sessions is announced last.
pub proof fn law_tick_goes_on(
    m: ManagerView,
    t: Telling,
    seen: Map<Seq<char>, ()>,
    sessions: Seq<Session>,
    a: TickAnswers,
    b: TickAnswers,
)
    requires
        tick_fills(a, b),
    ensures
        ({
            let x = ticked(m, t, seen, sessions, a);
            let y = ticked(m, t, seen, sessions, b);
            &&& t.log.is_prefix_of(x.log)
            &&& x.log.is_prefix_of(y.log)
            &&& x.completed is Some ==> y.log == x.log && y.completed == x.completed
            &&& x.flow == TickFlow::Done ==> y == x
        }),
{
    reveal(ticked);
    reveal(refreshed);
    let n = if m.scm {
        sessions.len()
    } else {
        0
    };
    lemma_refreshed(m, t.log, sessions, n, a.branches@, b.branches@);
    let x = refreshed(m, t.log, sessions, b.branches@);
    if !x.waiting {
        let told = Telling { log: x.log, ..t };
        lemma_begun(x.manager, told, x.sessions, x.skipped, a.begin, b.begin);
        lemma_begun(x.manager, told, x.sessions, x.skipped, b.begin, b.begin);
        let began = begun(x.manager, told, x.sessions, x.skipped, b.begin);
        let v = no_visits(began.manager, seen, began.log);
        lemma_visits(v, x.sessions, a.polls@, b.polls@);
        lemma_visits(v, x.sessions, b.polls@, b.polls@);
    }
}

} // verus!
