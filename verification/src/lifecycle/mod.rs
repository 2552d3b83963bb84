//! The lifecycle of sessions: what a tick makes of what the runtime, the agent and
//! the code host report.

use vstd::prelude::*;

use crate::config::lifecycle::LifecycleConfig;
use crate::dashboard_payload::{BatchedPrEnrichment, DashboardPr, DashboardPrView, EnrichmentView};
use crate::keyed::KeyedMap;
use crate::scm::PullRequest;
use crate::types::{Session, SessionStatus};

pub mod bounds;
pub mod branches;
pub mod cycle;
pub mod duties;
pub mod effects;
pub mod fingerprint;
pub mod fleet;
pub mod history;
pub mod host_duties;
pub mod laws;
pub mod messages;
pub mod outcomes;
pub mod refresh;
pub mod replay;
pub mod resume;
pub mod rounds;
pub mod scm_poll;
pub mod setbacks;
pub mod setup;
pub mod stuck;
pub mod tick;
pub mod trail;
pub mod transition;
pub mod turns;

use crate::lifecycle::effects::{views, Effect, EffectView, Flow};

verus! {

/// How often the sessions are polled, in milliseconds.
pub const DEFAULT_POLL_INTERVAL: u64 = 10_000;

/// How long a session under review is left alone between two probes, and between two questions
/// for its comments, in nanoseconds.
pub const REVIEW_BACKLOG_THROTTLE: u64 = 120_000_000_000;

/// Nanoseconds in a second.
pub const NANOS_PER_SEC: u64 = 1_000_000_000;

/// Which reaction a status sets off.
#[derive(Debug, PartialEq, Eq)]
pub struct ReactionKeys {
    /// Of two entries for one status the first counts.
    pub table: Vec<(SessionStatus, String)>,
}

/// The contents of a table of reaction keys.
pub open spec fn key_views(s: Seq<(SessionStatus, String)>) -> Seq<(SessionStatus, Seq<char>)> {
    s.map_values(|e: (SessionStatus, String)| (e.0, e.1@))
}

/// The reaction that `status` sets off.
pub open spec fn reaction_key(
    keys: Seq<(SessionStatus, Seq<char>)>,
    status: SessionStatus,
) -> Option<Seq<char>>
    decreases keys.len(),
{
    if keys.len() == 0 {
        None
    } else if keys[0].0 == status {
        Some(keys[0].1)
    } else {
        reaction_key(keys.skip(1), status)
    }
}

impl ReactionKeys {
    /// The reaction that `status` sets off.
    pub fn status_to_reaction_key(&self, status: SessionStatus) -> (r: Option<String>)
        ensures
            crate::text::opt_text(r) == reaction_key(key_views(self.table@), status),
    {
        let ghost all = key_views(self.table@);
        let mut i: usize = 0;
        assert(all.skip(0) =~= all);
        while i < self.table.len()
            invariant
                all == key_views(self.table@),
                i <= self.table.len(),
                reaction_key(all, status) == reaction_key(all.skip(i as int), status),
            decreases self.table.len() - i,
        {
            assert(all.skip(i as int)[0] == all[i as int]);
            assert(all.skip(i as int).skip(1) =~= all.skip(i + 1));
            if self.table[i].0 == status {
                return Some(self.table[i].1.clone());
            }
            i += 1;
        }
        None
    }
}

/// What the lifecycle knows besides the sessions themselves.
pub struct LifecycleManager {
    /// Milliseconds between two ticks.
    pub poll_interval: u64,
    /// Which statuses set off a reaction, where reactions are carried out at all.
    pub reaction_engine: Option<ReactionKeys>,
    /// Whether the code host is asked about pull requests.
    pub scm: bool,
    /// Whether worktrees are removed.
    pub workspace: bool,
    pub lifecycle_config: LifecycleConfig,
    /// Since when each agent has been idle, in nanoseconds of the clock.
    pub idle_since: KeyedMap<u64>,
    /// What this tick's batch fetched, under `owner/repo#number`.
    pub pr_enrichment_cache: KeyedMap<BatchedPrEnrichment>,
    /// What the watchers were last told about each session's pull request.
    pub pr_enrichment_prev: KeyedMap<BatchedPrEnrichment>,
    /// What the dashboard shows of each session's pull request.
    pub pr_enrichment_payload: KeyedMap<DashboardPr>,
    /// When each session's pull request was last probed, in nanoseconds of the clock.
    pub last_review_backlog_check: KeyedMap<u64>,
    /// When the review comments of each session were last asked for, in nanoseconds of the
    /// clock.
    pub last_comments_check: KeyedMap<u64>,
    /// The pull requests that this tick found, under the session's id.
    pub detected_prs_cache: KeyedMap<Option<PullRequest>>,
    /// Which session is taking over which branch, under `project:branch`.
    pub branch_adoption_reservations: KeyedMap<String>,
    /// When the loop began, in milliseconds since the epoch; zero before that.
    pub startup_ms: u64,
    /// Whether the end of all sessions has been announced.
    pub all_complete_fired: bool,
}

/// The contents of a `LifecycleManager`.
pub struct ManagerView {
    pub poll_interval: u64,
    pub keys: Option<Seq<(SessionStatus, Seq<char>)>>,
    pub scm: bool,
    pub workspace: bool,
    pub auto_terminate: bool,
    pub idle_since: Map<Seq<char>, u64>,
    pub enriched: Map<Seq<char>, EnrichmentView>,
    pub told: Map<Seq<char>, EnrichmentView>,
    pub shown: Map<Seq<char>, DashboardPrView>,
    pub probed: Map<Seq<char>, u64>,
    pub commented: Map<Seq<char>, u64>,
    pub detected: Map<Seq<char>, Option<PullRequest>>,
    pub reserved: Map<Seq<char>, Seq<char>>,
    pub startup_ms: u64,
    pub all_complete_fired: bool,
}

impl View for LifecycleManager {
    type V = ManagerView;

    open spec fn view(&self) -> ManagerView {
        ManagerView {
            poll_interval: self.poll_interval,
            keys: match self.reaction_engine {
                Some(k) => Some(key_views(k.table@)),
                None => None,
            },
            scm: self.scm,
            workspace: self.workspace,
            auto_terminate: self.lifecycle_config.auto_terminate_on_merge,
            idle_since: self.idle_since@,
            enriched: self.pr_enrichment_cache@.map_values(|e: BatchedPrEnrichment| e@),
            told: self.pr_enrichment_prev@.map_values(|e: BatchedPrEnrichment| e@),
            shown: self.pr_enrichment_payload@.map_values(|p: DashboardPr| p@),
            probed: self.last_review_backlog_check@,
            commented: self.last_comments_check@,
            detected: self.detected_prs_cache@,
            reserved: self.branch_adoption_reservations@.map_values(|s: String| s@),
            startup_ms: self.startup_ms,
            all_complete_fired: self.all_complete_fired,
        }
    }
}

/// How long ago `then` was; nothing, if it lies ahead.
pub open spec fn elapsed(then: u64, now: u64) -> nat {
    if now >= then {
        (now - then) as nat
    } else {
        0
    }
}

/// A poll, as far as it has come.
pub struct Run {
    pub manager: ManagerView,
    pub session: Session,
    pub log: Seq<EffectView>,
    pub flow: Flow,
}

/// The poll that has come as far as the given state.
pub open spec fn run_of(
    manager: LifecycleManager,
    session: Session,
    log: Seq<Effect>,
    flow: Flow,
) -> Run {
    Run { manager: manager@, session, log: views(log), flow }
}

impl Run {
    /// One more effect.
    pub open spec fn then_do(self, effect: EffectView) -> Run {
        Run { log: self.log.push(effect), ..self }
    }

    /// The session is now `session`.
    pub open spec fn with(self, session: Session) -> Run {
        Run { session, ..self }
    }

    /// The lifecycle now knows `manager`.
    pub open spec fn knowing(self, manager: ManagerView) -> Run {
        Run { manager, ..self }
    }

    /// The poll stops here.
    pub open spec fn stop(self, flow: Flow) -> Run {
        Run { flow, ..self }
    }
}

/// Of the entries of a status the first counts; a status without one sets nothing off.
pub proof fn law_first_entry_counts(
    keys: Seq<(SessionStatus, Seq<char>)>,
    status: SessionStatus,
    i: int,
)
    requires
        0 <= i <= keys.len(),
        forall|j: int| 0 <= j < i ==> (#[trigger] keys[j]).0 != status,
        i < keys.len() ==> keys[i].0 == status,
    ensures
        reaction_key(keys, status) == if i < keys.len() {
            Some(keys[i].1)
        } else {
            None
        },
    decreases i,
{
    if i > 0 {
        assert(keys[0].0 != status);
        let rest = keys.skip(1);
        assert forall|j: int| 0 <= j < i - 1 implies (#[trigger] rest[j]).0 != status by {
            assert(rest[j] == keys[j + 1]);
        }
        law_first_entry_counts(rest, status, i - 1);
    }
}

/// Time passes from `then` to `now`; a clock that goes back shows that none has passed.
pub proof fn law_time_passes(then: u64, now: u64)
    ensures
        now >= then ==> then + elapsed(then, now) == now,
        now < then ==> elapsed(then, now) == 0,
{
}

} // verus!
