//! Before pull requests are looked for, every session follows its agent to the branch that its
//! worktree is on.

use vstd::prelude::*;

use crate::keyed::KeyedMap;
use crate::lifecycle::effects::{views, Effect, EffectView};
use crate::lifecycle::refresh::{branch_after, claims_after, taken, WorkspaceBranchProbe};
use crate::lifecycle::stuck::pr_track;
use crate::lifecycle::{LifecycleManager, ManagerView};
use crate::scm::PrState;
use crate::types::{Session, SessionStatus};

verus! {

impl WorkspaceBranchProbe {
    /// The branch that the worktree is on: an empty text if it is on none, and nothing if it
    /// cannot be told.
    pub fn into_branch(self) -> (r: Option<String>)
        ensures
            match self {
                WorkspaceBranchProbe::Branch(b) => r == Some(b),
                WorkspaceBranchProbe::Detached => r matches Some(b) && b@.len() == 0,
                WorkspaceBranchProbe::Unavailable => r is None,
            },
    {
        match self {
            WorkspaceBranchProbe::Branch(b) => Some(b),
            WorkspaceBranchProbe::Detached => Some(String::new()),
            WorkspaceBranchProbe::Unavailable => None,
        }
    }
}

/// What a worktree says that is on the given branch.
pub open spec fn probe_of(branch: Option<String>) -> WorkspaceBranchProbe {
    match branch {
        None => WorkspaceBranchProbe::Unavailable,
        Some(b) => if b@.len() == 0 {
            WorkspaceBranchProbe::Detached
        } else {
            WorkspaceBranchProbe::Branch(b)
        },
    }
}

/// The session has a pull request that is open, as far as is known.
pub open spec fn holds_pr(m: ManagerView, s: Session) -> bool {
    ||| pr_track(s.status)
    ||| s.status == SessionStatus::MergeFailed
    ||| m.told.dom().contains(s.id.0@) && m.told[s.id.0@].observation.state == PrState::Open
}

/// The session after its worktree, which is on `branch`, was looked at.
pub open spec fn followed(
    m: ManagerView,
    s: Session,
    sessions: Seq<Session>,
    branch: Option<String>,
) -> Session {
    if branch_after(m, s, sessions, probe_of(branch)) == s.branch@ {
        s
    } else {
        Session { branch: branch->0, ..s }
    }
}

/// The look at all worktrees, as far as it has come.
pub struct Refreshed {
    pub manager: ManagerView,
    /// The sessions, with the branches that they have by now.
    pub sessions: Seq<Session>,
    /// The sessions whose worktree is on no branch.
    pub skipped: Map<Seq<char>, ()>,
    /// How many answers were used up.
    pub used: nat,
    pub log: Seq<EffectView>,
    pub waiting: bool,
}

/// The look at one more worktree: that of session number `i`.
pub open spec fn refreshed_one(x: Refreshed, i: int, answers: Seq<Option<String>>) -> Refreshed {
    let s = x.sessions[i];
    if x.waiting || s.status.terminal() || s.workspace_path is None || holds_pr(x.manager, s) {
        x
    } else {
        let asked = x.log.push(EffectView::ProbeBranch { path: s.workspace_path->0@ });
        if x.used >= answers.len() {
            Refreshed { log: asked, waiting: true, ..x }
        } else {
            let branch = answers[x.used as int];
            let s2 = followed(x.manager, s, x.sessions, branch);
            Refreshed {
                manager: ManagerView {
                    reserved: claims_after(x.manager, s, probe_of(branch)),
                    ..x.manager
                },
                sessions: x.sessions.update(i, s2),
                skipped: if probe_of(branch) == WorkspaceBranchProbe::Detached {
                    x.skipped.insert(s.id.0@, ())
                } else {
                    x.skipped
                },
                used: x.used + 1,
                log: if s2.branch@ == s.branch@ {
                    asked
                } else {
                    asked.push(EffectView::Save { session: s2 })
                },
                waiting: false,
            }
        }
    }
}

/// The look at the worktrees of the first `n` sessions.
pub open spec fn refreshed_first(
    m: ManagerView,
    log: Seq<EffectView>,
    sessions: Seq<Session>,
    n: nat,
    answers: Seq<Option<String>>,
) -> Refreshed
    decreases n,
{
    if n == 0 {
        Refreshed {
            manager: m,
            sessions,
            skipped: Map::empty(),
            used: 0,
            log,
            waiting: false,
        }
    } else {
        refreshed_one(
            refreshed_first(m, log, sessions, (n - 1) as nat, answers),
            n - 1,
            answers,
        )
    }
}

/// The look at all worktrees. Where the code host is not asked about pull requests it is left
/// out.
#[verifier::opaque]
pub open spec fn refreshed(
    m: ManagerView,
    log: Seq<EffectView>,
    sessions: Seq<Session>,
    answers: Seq<Option<String>>,
) -> Refreshed {
    refreshed_first(
        m,
        log,
        sessions,
        if m.scm {
            sessions.len()
        } else {
            0
        },
        answers,
    )
}

/// A look that waits goes on waiting.
proof fn lemma_refresh_waits(
    m: ManagerView,
    log: Seq<EffectView>,
    sessions: Seq<Session>,
    n: nat,
    k: nat,
    answers: Seq<Option<String>>,
)
    requires
        n <= k,
        refreshed_first(m, log, sessions, n, answers).waiting,
    ensures
        refreshed_first(m, log, sessions, k, answers) == refreshed_first(
            m,
            log,
            sessions,
            n,
            answers,
        ),
    decreases k,
{
    if n < k {
        lemma_refresh_waits(m, log, sessions, n, (k - 1) as nat, answers);
    }
}

proof fn lemma_only_claims_first(
    m: ManagerView,
    log: Seq<EffectView>,
    sessions: Seq<Session>,
    n: nat,
    answers: Seq<Option<String>>,
)
    ensures
        ({
            let x = refreshed_first(m, log, sessions, n, answers).manager;
            x == (ManagerView { reserved: x.reserved, ..m })
        }),
    decreases n,
{
    if n > 0 {
        lemma_only_claims_first(m, log, sessions, (n - 1) as nat, answers);
    }
}

/// The look at the worktrees changes nothing that is known but for the claims to branches.
pub proof fn lemma_only_claims(
    m: ManagerView,
    log: Seq<EffectView>,
    sessions: Seq<Session>,
    answers: Seq<Option<String>>,
)
    ensures
        ({
            let x = refreshed(m, log, sessions, answers).manager;
            x == (ManagerView { reserved: x.reserved, ..m })
        }),
{
    reveal(refreshed);
    lemma_only_claims_first(
        m,
        log,
        sessions,
        if m.scm {
            sessions.len()
        } else {
            0
        },
        answers,
    );
}

/// What the look at all worktrees gave.
pub struct Looked {
    /// The sessions, with the branches that they have by now.
    pub sessions: Vec<Session>,
    /// The sessions whose worktree is on no branch.
    pub skipped: KeyedMap<()>,
    /// One more worktree is to be looked at.
    pub waiting: bool,
}

impl LifecycleManager {
    /// Whether the session has a pull request that is open, as far as is known.
    fn has_open_pr(&self, session: &Session) -> (r: bool)
        ensures
            r == holds_pr(self@, *session),
    {
        let on_track = matches!(
            session.status,
            SessionStatus::PrOpen
                | SessionStatus::CiFailed
                | SessionStatus::ReviewPending
                | SessionStatus::ChangesRequested
                | SessionStatus::Approved
                | SessionStatus::Mergeable
                | SessionStatus::MergeFailed
        );
        if on_track {
            return true;
        }
        match self.pr_enrichment_prev.get(session.id.0.as_str()) {
            Some(e) => {
                assert(self@.told[session.id.0@] == e@);
                matches!(e.observation.state, PrState::Open)
            },
            None => false,
        }
    }

    /// Lets every session that has not ended follow its agent to the branch that its worktree
    /// is on. `answers` holds the branches of the worktrees that were looked at: an empty text
    /// for none, and nothing where it cannot be told.
    pub fn refresh_branches(
        &mut self,
        sessions: &Vec<Session>,
        answers: &Vec<Option<String>>,
        log: &mut Vec<Effect>,
    ) -> (r: Looked)
        ensures
            ({
                let x = refreshed(old(self)@, views(old(log)@), sessions@, answers@);
                &&& final(self)@ == x.manager
                &&& views(final(log)@) == x.log
                &&& r.sessions@ == x.sessions
                &&& r.skipped@ == x.skipped
                &&& r.waiting == x.waiting
            }),
            final(self).pr_enrichment_prev == old(self).pr_enrichment_prev,
    {
        proof {
            reveal(refreshed);
        }
        let ghost m = self@;
        let ghost log0 = views(log@);
        let mut now: Vec<Session> = Vec::new();
        for i in 0..sessions.len()
            invariant
                now@ == sessions@.take(i as int),
        {
            now.push(sessions[i].clone());
            assert(sessions@.take(i as int).push(sessions@[i as int]) =~= sessions@.take(i + 1));
        }
        assert(sessions@.take(sessions@.len() as int) =~= sessions@);
        let mut skipped: KeyedMap<()> = KeyedMap::new();
        if !self.scm {
            return Looked { sessions: now, skipped, waiting: false };
        }
        let mut used: usize = 0;
        for i in 0..sessions.len()
            invariant
                m == old(self)@,
                m.scm,
                log0 == views(old(log)@),
                self.pr_enrichment_prev == old(self).pr_enrichment_prev,
                now@.len() == sessions@.len(),
                used <= i,
                refreshed_first(m, log0, sessions@, i as nat, answers@) == (Refreshed {
                    manager: self@,
                    sessions: now@,
                    skipped: skipped@,
                    used: used as nat,
                    log: views(log@),
                    waiting: false,
                }),
        {
            let ghost before = refreshed_first(m, log0, sessions@, i as nat, answers@);
            let ghost x = refreshed_one(before, i as int, answers@);
            assert(refreshed_first(m, log0, sessions@, (i + 1) as nat, answers@) == x);
            let mut session = now[i].clone();
            let looked_at = !session.is_terminal() && session.workspace_path.is_some()
                && !self.has_open_pr(&session);
            if looked_at {
                if used >= answers.len() {
                    let none = String::new();
                    self.follow_branch(&mut session, false, &now, None, &none, log);
                    proof {
                        reveal(refreshed);
                        lemma_refresh_waits(
                            m,
                            log0,
                            sessions@,
                            (i + 1) as nat,
                            sessions@.len(),
                            answers@,
                        );
                    }
                    return Looked { sessions: now, skipped, waiting: true };
                }
                let empty = String::new();
                let (probe, none) = match &answers[used] {
                    None => (WorkspaceBranchProbe::Unavailable, &empty),
                    Some(b) => if b.as_str().is_empty() {
                        (WorkspaceBranchProbe::Detached, b)
                    } else {
                        (WorkspaceBranchProbe::Branch(b.clone()), &empty)
                    },
                };
                assert(probe == probe_of(answers@[used as int]));
                self.follow_branch(&mut session, false, &now, Some(&probe), none, log);
                if matches!(probe, WorkspaceBranchProbe::Detached) {
                    skipped.insert(session.id.0.clone(), ());
                }
                now.set(i, session);
                used += 1;
            }
        }
        Looked { sessions: now, skipped, waiting: false }
    }
}

/// Sessions of one project that have not ended are on different branches, or on none.
pub open spec fn on_their_own(sessions: Seq<Session>) -> bool {
    forall|i: int, j: int|
        #![trigger sessions[i], sessions[j]]
        0 <= i < sessions.len() && 0 <= j < sessions.len() && sessions[i].id.0@
            != sessions[j].id.0@ && sessions[i].project_id@ == sessions[j].project_id@
            && !sessions[i].status.terminal() && !sessions[j].status.terminal()
            && sessions[i].branch@ == sessions[j].branch@ ==> sessions[i].branch@.len() == 0
}

/// The look at the worktrees changes nothing of a session but its branch, and does not bring
/// two sessions to one branch.
pub proof fn law_refresh_keeps_sessions_apart(
    m: ManagerView,
    log: Seq<EffectView>,
    sessions: Seq<Session>,
    n: nat,
    answers: Seq<Option<String>>,
)
    requires
        n <= sessions.len(),
        on_their_own(sessions),
    ensures
        ({
            let x = refreshed_first(m, log, sessions, n, answers);
            &&& x.sessions.len() == sessions.len()
            &&& forall|i: int|
                0 <= i < sessions.len() ==> (#[trigger] x.sessions[i]) == (Session {
                    branch: x.sessions[i].branch,
                    ..sessions[i]
                })
            &&& on_their_own(x.sessions)
        }),
    decreases n,
{
    if n > 0 {
        law_refresh_keeps_sessions_apart(m, log, sessions, (n - 1) as nat, answers);
        let b = refreshed_first(m, log, sessions, (n - 1) as nat, answers);
        let x = refreshed_one(b, n - 1, answers);
        let k = n - 1;
        assert forall|i: int, j: int|
            #![trigger x.sessions[i], x.sessions[j]]
            0 <= i < x.sessions.len() && 0 <= j < x.sessions.len() && x.sessions[i].id.0@
                != x.sessions[j].id.0@ && x.sessions[i].project_id@ == x.sessions[j].project_id@
                && !x.sessions[i].status.terminal() && !x.sessions[j].status.terminal()
                && x.sessions[i].branch@ == x.sessions[j].branch@ implies x.sessions[i].branch@.len()
            == 0 by {
            assert(b.sessions[i].id == x.sessions[i].id);
            assert(b.sessions[j].id == x.sessions[j].id);
            if x.sessions[k].branch@ != b.sessions[k].branch@ && (i == k || j == k) {
                let other = if i == k {
                    j
                } else {
                    i
                };
                assert(b.sessions[other] == x.sessions[other]);
                if x.sessions[k].branch@.len() > 0 {
                    assert(!taken(b.sessions[k], x.sessions[k].branch@, b.sessions));
                }
            }
        }
    }
}

} // verus!
