//! Setting up the lifecycle.

use vstd::prelude::*;

use crate::config::lifecycle::LifecycleConfig;
use crate::dashboard_payload::DashboardPr;
use crate::keyed::KeyedMap;
use crate::lifecycle::{
    key_views, LifecycleManager, ManagerView, ReactionKeys, DEFAULT_POLL_INTERVAL,
};
use crate::text::texts;
use crate::types::{Session, SessionStatus};

verus! {

/// The worktrees that merged sessions have left behind.
pub open spec fn leftovers(sessions: Seq<Session>) -> Seq<Seq<char>>
    decreases sessions.len(),
{
    if sessions.len() == 0 {
        Seq::empty()
    } else {
        let before = leftovers(sessions.drop_last());
        let s = sessions.last();
        if s.status == SessionStatus::Merged && s.workspace_path is Some {
            before.push(s.workspace_path->0@)
        } else {
            before
        }
    }
}

/// What the lifecycle knows before it begins.
pub open spec fn initial() -> ManagerView {
    ManagerView {
        poll_interval: DEFAULT_POLL_INTERVAL,
        keys: None,
        scm: false,
        workspace: false,
        auto_terminate: true,
        idle_since: Map::empty(),
        enriched: Map::empty(),
        told: Map::empty(),
        shown: Map::empty(),
        probed: Map::empty(),
        commented: Map::empty(),
        detected: Map::empty(),
        reserved: Map::empty(),
        startup_ms: 0,
        all_complete_fired: false,
    }
}

/// When the loop began, where the clock showed `now_ms`.
pub open spec fn started(now_ms: u64) -> u64 {
    if now_ms == 0 {
        1
    } else {
        now_ms
    }
}

impl LifecycleManager {
    /// A lifecycle that only looks after runtimes and agents.
    pub fn new() -> (r: Self)
        ensures
            r@ == initial(),
    {
        let r = LifecycleManager {
            poll_interval: DEFAULT_POLL_INTERVAL,
            reaction_engine: None,
            scm: false,
            workspace: false,
            lifecycle_config: LifecycleConfig::default(),
            idle_since: KeyedMap::new(),
            pr_enrichment_cache: KeyedMap::new(),
            pr_enrichment_prev: KeyedMap::new(),
            pr_enrichment_payload: KeyedMap::new(),
            last_review_backlog_check: KeyedMap::new(),
            last_comments_check: KeyedMap::new(),
            detected_prs_cache: KeyedMap::new(),
            branch_adoption_reservations: KeyedMap::new(),
            startup_ms: 0,
            all_complete_fired: false,
        };
        assert(r@.enriched =~= Map::empty());
        assert(r@.told =~= Map::empty());
        assert(r@.shown =~= Map::empty());
        assert(r@.reserved =~= Map::empty());
        r
    }

    /// The current picture of every session's pull request.
    pub fn pr_enrichment_payload(&self) -> (r: &KeyedMap<DashboardPr>)
        ensures
            *r == self.pr_enrichment_payload,
    {
        &self.pr_enrichment_payload
    }

    /// Ticks every `interval` milliseconds.
    pub fn with_poll_interval(self, interval: u64) -> (r: Self)
        ensures
            r == (LifecycleManager { poll_interval: interval, ..self }),
    {
        LifecycleManager { poll_interval: interval, ..self }
    }

    /// Carries out the reactions that `keys` gives.
    pub fn with_reaction_engine(self, keys: ReactionKeys) -> (r: Self)
        ensures
            r == (LifecycleManager { reaction_engine: Some(keys), ..self }),
            r@ == (ManagerView { keys: Some(key_views(keys.table@)), ..self@ }),
    {
        LifecycleManager { reaction_engine: Some(keys), ..self }
    }

    /// Asks the code host about pull requests.
    pub fn with_scm(self) -> (r: Self)
        ensures
            r == (LifecycleManager { scm: true, ..self }),
    {
        LifecycleManager { scm: true, ..self }
    }

    /// Removes the worktrees of sessions that have been merged.
    pub fn with_workspace(self) -> (r: Self)
        ensures
            r == (LifecycleManager { workspace: true, ..self }),
    {
        LifecycleManager { workspace: true, ..self }
    }

    /// Follows `config`.
    pub fn with_lifecycle_config(self, config: LifecycleConfig) -> (r: Self)
        ensures
            r == (LifecycleManager { lifecycle_config: config, ..self }),
    {
        LifecycleManager { lifecycle_config: config, ..self }
    }

    /// Begins the loop, at `now_ms` milliseconds since the epoch. Zero stands for a loop that
    /// has not begun, so that a clock that shows it counts as one millisecond later.
    pub fn start(&mut self, now_ms: u64)
        ensures
            final(self)@ == (ManagerView {
                startup_ms: started(now_ms),
                ..old(self)@
            }),
    {
        self.startup_ms = if now_ms == 0 {
            1
        } else {
            now_ms
        };
    }

    /// The worktrees that merged sessions have left behind, where worktrees are removed. A
    /// session that has ended is never polled again, so that a worktree whose removal was cut
    /// short would otherwise stay.
    pub fn sweep_merged_worktrees(&self, sessions: &Vec<Session>) -> (r: Vec<String>)
        ensures
            texts(r@) == if self.workspace {
                leftovers(sessions@)
            } else {
                Seq::empty()
            },
    {
        let mut out: Vec<String> = Vec::new();
        assert(texts(out@) =~= Seq::empty());
        if !self.workspace {
            return out;
        }
        assert(sessions@.take(0) =~= Seq::empty());
        for i in 0..sessions.len()
            invariant
                texts(out@) == leftovers(sessions@.take(i as int)),
        {
            let ghost upto = sessions@.take(i + 1);
            assert(upto.drop_last() =~= sessions@.take(i as int));
            assert(upto.last() == sessions@[i as int]);
            if sessions[i].status == SessionStatus::Merged {
                if let Some(path) = &sessions[i].workspace_path {
                    let ghost had = out@;
                    out.push(path.clone());
                    assert(texts(out@) =~= texts(had).push(path@));
                }
            }
        }
        assert(sessions@.take(sessions@.len() as int) =~= sessions@);
        out
    }
}

impl Clone for ReactionKeys {
    fn clone(&self) -> (r: Self)
        ensures
            key_views(r.table@) == key_views(self.table@),
    {
        let mut table: Vec<(SessionStatus, String)> = Vec::new();
        for i in 0..self.table.len()
            invariant
                table@.len() == i,
                forall|j: int|
                    0 <= j < i ==> (#[trigger] table@[j]).0 == self.table@[j].0 && table@[j].1@
                        == self.table@[j].1@,
        {
            table.push((self.table[i].0, self.table[i].1.clone()));
        }
        assert(key_views(table@) =~= key_views(self.table@));
        ReactionKeys { table }
    }
}

impl Clone for LifecycleManager {
    fn clone(&self) -> (r: Self)
        ensures
            r@ == self@,
            r.pr_enrichment_prev.key_order() == self.pr_enrichment_prev.key_order(),
    {
        let r = LifecycleManager {
            poll_interval: self.poll_interval,
            reaction_engine: match &self.reaction_engine {
                Some(keys) => Some(keys.clone()),
                None => None,
            },
            scm: self.scm,
            workspace: self.workspace,
            lifecycle_config: LifecycleConfig {
                auto_terminate_on_merge: self.lifecycle_config.auto_terminate_on_merge,
            },
            idle_since: self.idle_since.clone(),
            pr_enrichment_cache: self.pr_enrichment_cache.clone(),
            pr_enrichment_prev: self.pr_enrichment_prev.clone(),
            pr_enrichment_payload: self.pr_enrichment_payload.clone(),
            last_review_backlog_check: self.last_review_backlog_check.clone(),
            last_comments_check: self.last_comments_check.clone(),
            detected_prs_cache: self.detected_prs_cache.clone(),
            branch_adoption_reservations: self.branch_adoption_reservations.clone(),
            startup_ms: self.startup_ms,
            all_complete_fired: self.all_complete_fired,
        };
        proof {
            assert(r@.idle_since =~= self@.idle_since);
            assert(r@.enriched =~= self@.enriched);
            assert(r@.told =~= self@.told);
            assert(r@.shown =~= self@.shown);
            assert(r@.probed =~= self@.probed);
            assert(r@.commented =~= self@.commented);
            assert(r@.detected =~= self@.detected);
            assert(r@.reserved =~= self@.reserved);
        }
        r
    }
}

/// A loop that has begun is told from one that has not, whatever its clock shows, and it began when
/// the clock says.
pub proof fn law_begun_loops_are_told_apart(now_ms: u64)
    ensures
        started(now_ms) > 0,
        now_ms > 0 ==> started(now_ms) == now_ms,
{
}

} // verus!
