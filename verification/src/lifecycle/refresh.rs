//! Which branch a session works on, as its worktree has it.

use vstd::prelude::*;
use vstd::string::*;

use crate::lifecycle::effects::{note, views, Effect, EffectView};
use crate::lifecycle::{LifecycleManager, ManagerView};
use crate::paths::{join_path, path_join};
use crate::text::{chars_of, occurs_at, same_text, stands_at, texts, trim, trimmed};
use crate::types::{Session, SessionStatus};

verus! {

/// What the worktree says about its branch.
#[derive(Debug, PartialEq, Eq)]
pub enum WorkspaceBranchProbe {
    /// It is on a branch.
    Branch(String),
    /// It is on none, and nothing is under way that would explain it.
    Detached,
    /// It cannot be told.
    Unavailable,
}

/// What stands at `.git` in a worktree.
#[derive(Debug, PartialEq, Eq)]
pub enum DotGit {
    Missing,
    Directory,
    /// A file, with its contents if they can be read.
    File(Option<String>),
}

/// The text after `prefix`, if `s` starts with it.
pub open spec fn after(s: Seq<char>, prefix: Seq<char>) -> Option<Seq<char>> {
    if occurs_at(s, prefix, 0) {
        Some(s.skip(prefix.len() as int))
    } else {
        None
    }
}

/// The text after `prefix`, if `s` starts with it.
pub fn strip_prefix(s: &str, prefix: &str) -> (r: Option<String>)
    ensures
        crate::text::opt_text(r) == after(s@, prefix@),
{
    let v = chars_of(s);
    let p = chars_of(prefix);
    if stands_at(&v, &p, 0) {
        let rest = s.substring_char(p.len(), v.len()).to_string();
        assert(rest@ =~= s@.skip(p@.len() as int));
        Some(rest)
    } else {
        None
    }
}

/// Where git keeps the state of a worktree.
pub open spec fn git_dir(workspace: Seq<char>, dot_git: DotGit) -> Option<Seq<char>> {
    match dot_git {
        DotGit::Missing => None,
        DotGit::Directory => Some(join_path(workspace, ".git"@)),
        DotGit::File(None) => None,
        DotGit::File(Some(content)) => match after(trim(content@), "gitdir:"@) {
            None => None,
            Some(raw) => Some(join_path(workspace, trim(raw))),
        },
    }
}

/// Where git keeps the state of a worktree: in `.git`, or in the directory that the file
/// `.git` names.
pub fn resolve_git_dir(workspace_path: &str, dot_git: &DotGit) -> (r: Option<String>)
    ensures
        crate::text::opt_text(r) == git_dir(workspace_path@, *dot_git),
{
    match dot_git {
        DotGit::Missing => None,
        DotGit::Directory => Some(path_join(workspace_path, ".git")),
        DotGit::File(None) => None,
        DotGit::File(Some(content)) => {
            let line = trimmed(content.as_str());
            match strip_prefix(line.as_str(), "gitdir:") {
                None => None,
                Some(raw) => {
                    let raw = trimmed(raw.as_str());
                    Some(path_join(workspace_path, raw.as_str()))
                },
            }
        },
    }
}

/// The files that are there while git is in the middle of something.
pub open spec fn transient_markers(dir: Seq<char>) -> Seq<Seq<char>> {
    seq![
        join_path(dir, "rebase-merge"@),
        join_path(dir, "rebase-apply"@),
        join_path(dir, "CHERRY_PICK_HEAD"@),
        join_path(dir, "BISECT_LOG"@),
    ]
}

/// The files that are there while git is in the middle of something. While one of them is
/// there, a worktree that is on no branch will come back to one.
pub fn transient_marker_paths(git_dir: &str) -> (r: Vec<String>)
    ensures
        texts(r@) == transient_markers(git_dir@),
{
    let mut out: Vec<String> = Vec::new();
    out.push(path_join(git_dir, "rebase-merge"));
    out.push(path_join(git_dir, "rebase-apply"));
    out.push(path_join(git_dir, "CHERRY_PICK_HEAD"));
    out.push(path_join(git_dir, "BISECT_LOG"));
    assert(texts(out@) =~= transient_markers(git_dir@));
    out
}

/// The branch that `HEAD` names, if it names one.
pub open spec fn head_branch(head: Seq<char>) -> Option<Seq<char>> {
    match after(trim(head), "ref: refs/heads/"@) {
        Some(rest) => if trim(rest).len() > 0 {
            Some(trim(rest))
        } else {
            None
        },
        None => None,
    }
}

/// What the worktree says about its branch is `r`.
pub open spec fn reads_head(
    head: Option<Seq<char>>,
    transient: bool,
    r: WorkspaceBranchProbe,
) -> bool {
    match head {
        None => r == WorkspaceBranchProbe::Unavailable,
        Some(h) => match head_branch(h) {
            Some(branch) => r matches WorkspaceBranchProbe::Branch(b) && b@ == branch,
            None => r == if transient {
                WorkspaceBranchProbe::Unavailable
            } else {
                WorkspaceBranchProbe::Detached
            },
        },
    }
}

/// What the worktree says about its branch, given the contents of `HEAD`, if they can be
/// read, and whether git is in the middle of something.
pub fn read_workspace_branch(head: Option<&str>, transient: bool) -> (r: WorkspaceBranchProbe)
    ensures
        reads_head(
            match head {
                Some(h) => Some(h@),
                None => None,
            },
            transient,
            r,
        ),
{
    let head = match head {
        None => {
            return WorkspaceBranchProbe::Unavailable;
        },
        Some(h) => trimmed(h),
    };
    if let Some(rest) = strip_prefix(head.as_str(), "ref: refs/heads/") {
        let branch = trimmed(rest.as_str());
        if !branch.as_str().is_empty() {
            return WorkspaceBranchProbe::Branch(branch);
        }
    }
    if transient {
        WorkspaceBranchProbe::Unavailable
    } else {
        WorkspaceBranchProbe::Detached
    }
}

/// Another session of the same project, which has not ended, works on `branch`.
pub open spec fn taken(s: Session, branch: Seq<char>, sessions: Seq<Session>) -> bool {
    exists|i: int|
        #![trigger sessions[i]]
        0 <= i < sessions.len() && sessions[i].id.0@ != s.id.0@ && sessions[i].project_id@
            == s.project_id@ && !sessions[i].status.terminal() && sessions[i].branch@ == branch
}

/// Under what a session's claim to a branch is kept.
pub open spec fn claim_key(s: Session, branch: Seq<char>) -> Seq<char> {
    s.project_id@ + ":"@ + branch
}

/// Another session is just taking the branch over.
pub open spec fn claimed_by_other(m: ManagerView, s: Session, branch: Seq<char>) -> bool {
    m.reserved.dom().contains(claim_key(s, branch)) && m.reserved[claim_key(s, branch)] != s.id.0@
}

/// The branch that the session has after its worktree was looked at.
pub open spec fn branch_after(
    m: ManagerView,
    s: Session,
    sessions: Seq<Session>,
    probe: WorkspaceBranchProbe,
) -> Seq<char> {
    match probe {
        WorkspaceBranchProbe::Unavailable => s.branch@,
        WorkspaceBranchProbe::Detached => Seq::empty(),
        WorkspaceBranchProbe::Branch(b) => if claimed_by_other(m, s, b@) || taken(s, b@, sessions) {
            s.branch@
        } else {
            b@
        },
    }
}

/// What the session's claims are after its worktree was looked at.
pub open spec fn claims_after(
    m: ManagerView,
    s: Session,
    probe: WorkspaceBranchProbe,
) -> Map<Seq<char>, Seq<char>> {
    match probe {
        WorkspaceBranchProbe::Branch(b) => if b@ == s.branch@ || claimed_by_other(m, s, b@) {
            m.reserved
        } else {
            m.reserved.remove(claim_key(s, b@))
        },
        _ => m.reserved,
    }
}

/// How the look at a worktree's branch went.
#[derive(Clone, Copy, Debug, PartialEq, Eq, Structural)]
pub enum Refresh {
    /// The worktree is yet to be looked at.
    Waiting,
    /// There is a branch for which a pull request can be looked up.
    LookUp,
    /// There is none; the look-up is left out.
    Skip,
}

impl LifecycleManager {
    /// Whether another session of the project, which has not ended, works on `branch`.
    fn is_taken(session: &Session, branch: &str, sessions: &Vec<Session>) -> (r: bool)
        ensures
            r == taken(*session, branch@, sessions@),
    {
        let mut i: usize = 0;
        while i < sessions.len()
            invariant
                i <= sessions.len(),
                forall|j: int|
                    0 <= j < i ==> {
                        let o = #[trigger] sessions@[j];
                        o.id.0@ == session.id.0@ || o.project_id@ != session.project_id@
                            || o.status.terminal() || o.branch@ != branch@
                    },
            decreases sessions.len() - i,
        {
            let other = &sessions[i];
            if !same_text(other.id.0.as_str(), session.id.0.as_str()) && same_text(
                other.project_id.as_str(),
                session.project_id.as_str(),
            ) && !other.is_terminal() && same_text(other.branch.as_str(), branch) {
                assert(sessions@[i as int].branch@ == branch@);
                return true;
            }
            i += 1;
        }
        false
    }

    /// Lets a session follow its agent to another branch. A branch with an open pull request
    /// stays; a branch on which another session of the project works, or that another session
    /// is just taking over, is not taken.
    pub fn refresh_tracked_branch(
        &mut self,
        session: &mut Session,
        has_open_pr: bool,
        tick_sessions: &Vec<Session>,
        probe: Option<&WorkspaceBranchProbe>,
        log: &mut Vec<Effect>,
    ) -> (r: Refresh)
        ensures
            *final(session) == (Session { branch: final(session).branch, ..*old(session) }),
            old(session).workspace_path is None || has_open_pr ==> {
                &&& r == Refresh::LookUp
                &&& *final(session) == *old(session)
                &&& final(log)@ == old(log)@
                &&& final(self)@ == old(self)@
            },
            old(session).workspace_path is Some && !has_open_pr ==> {
                let asked = views(old(log)@).push(
                    EffectView::ProbeBranch { path: old(session).workspace_path->0@ },
                );
                match probe {
                    None => {
                        &&& r == Refresh::Waiting
                        &&& *final(session) == *old(session)
                        &&& views(final(log)@) == asked
                        &&& final(self)@ == old(self)@
                    },
                    Some(p) => {
                        let b = branch_after(old(self)@, *old(session), tick_sessions@, *p);
                        &&& r == if *p == WorkspaceBranchProbe::Detached {
                            Refresh::Skip
                        } else {
                            Refresh::LookUp
                        }
                        &&& final(session).branch@ == b
                        &&& views(final(log)@) == if b == old(session).branch@ {
                            asked
                        } else {
                            asked.push(EffectView::Save { session: *final(session) })
                        }
                        &&& final(self)@ == (ManagerView {
                            reserved: claims_after(old(self)@, *old(session), *p),
                            ..old(self)@
                        })
                    },
                }
            },
    {
        let none = String::new();
        self.follow_branch(session, has_open_pr, tick_sessions, probe, &none, log)
    }

    /// Lets a session follow its agent to another branch, where `none` is the empty text that
    /// stands for no branch.
    pub(crate) fn follow_branch(
        &mut self,
        session: &mut Session,
        has_open_pr: bool,
        tick_sessions: &Vec<Session>,
        probe: Option<&WorkspaceBranchProbe>,
        none: &String,
        log: &mut Vec<Effect>,
    ) -> (r: Refresh)
        requires
            none@.len() == 0,
        ensures
            final(self).pr_enrichment_prev == old(self).pr_enrichment_prev,
            *final(session) == (Session { branch: final(session).branch, ..*old(session) }),
            old(session).workspace_path is None || has_open_pr ==> {
                &&& r == Refresh::LookUp
                &&& *final(session) == *old(session)
                &&& final(log)@ == old(log)@
                &&& final(self)@ == old(self)@
            },
            old(session).workspace_path is Some && !has_open_pr ==> {
                let asked = views(old(log)@).push(
                    EffectView::ProbeBranch { path: old(session).workspace_path->0@ },
                );
                match probe {
                    None => {
                        &&& r == Refresh::Waiting
                        &&& *final(session) == *old(session)
                        &&& views(final(log)@) == asked
                        &&& final(self)@ == old(self)@
                    },
                    Some(p) => {
                        let b = branch_after(old(self)@, *old(session), tick_sessions@, *p);
                        &&& r == if *p == WorkspaceBranchProbe::Detached {
                            Refresh::Skip
                        } else {
                            Refresh::LookUp
                        }
                        &&& final(session).branch == if b == old(session).branch@ {
                            old(session).branch
                        } else {
                            match *p {
                                WorkspaceBranchProbe::Branch(new_branch) => new_branch,
                                _ => *none,
                            }
                        }
                        &&& final(session).branch@ == b
                        &&& views(final(log)@) == if b == old(session).branch@ {
                            asked
                        } else {
                            asked.push(EffectView::Save { session: *final(session) })
                        }
                        &&& final(self)@ == (ManagerView {
                            reserved: claims_after(old(self)@, *old(session), *p),
                            ..old(self)@
                        })
                    },
                }
            },
    {
        let path = match &session.workspace_path {
            Some(path) => path.clone(),
            None => {
                return Refresh::LookUp;
            },
        };
        if has_open_pr {
            return Refresh::LookUp;
        }
        note(log, Effect::ProbeBranch { path });
        let probe = match probe {
            Some(p) => p,
            None => {
                return Refresh::Waiting;
            },
        };
        match probe {
            WorkspaceBranchProbe::Unavailable => Refresh::LookUp,
            WorkspaceBranchProbe::Detached => {
                if !session.branch.as_str().is_empty() {
                    session.branch = none.clone();
                    note(log, Effect::Save { session: session.clone() });
                } else {
                    assert(session.branch@ =~= Seq::empty());
                }
                Refresh::Skip
            },
            WorkspaceBranchProbe::Branch(new_branch) => {
                if same_text(new_branch.as_str(), session.branch.as_str()) {
                    return Refresh::LookUp;
                }
                let mut key: String = session.project_id.clone();
                key.append(":");
                key.append(new_branch.as_str());
                let ghost m = self@;
                let held = match self.branch_adoption_reservations.get(key.as_str()) {
                    Some(owner) => Some(same_text(owner.as_str(), session.id.0.as_str())),
                    None => None,
                };
                match held {
                    Some(false) => {
                        return Refresh::LookUp;
                    },
                    Some(true) => {},
                    None => {
                        self.branch_adoption_reservations.insert(
                            key.clone(),
                            session.id.0.clone(),
                        );
                    },
                }
                if !Self::is_taken(session, new_branch.as_str(), tick_sessions) {
                    session.branch = new_branch.clone();
                    note(log, Effect::Save { session: session.clone() });
                }
                self.branch_adoption_reservations.remove(key.as_str());
                assert(self@.reserved =~= m.reserved.remove(key@));
                Refresh::LookUp
            },
        }
    }
}

/// A session never comes to share its branch: after its worktree was looked at, either its
/// branch is what it was, or no other session of its project that has not ended works on it.
pub proof fn law_branches_are_not_shared(
    m: ManagerView,
    s: Session,
    sessions: Seq<Session>,
    probe: WorkspaceBranchProbe,
)
    ensures
        ({
            let b = branch_after(m, s, sessions, probe);
            b == s.branch@ || b.len() == 0 || !taken(s, b, sessions)
        }),
{
}

/// The session goes on: it has not come to one of the statuses in which sessions end.
pub open spec fn goes_on(s: Session) -> bool {
    match s.status {
        SessionStatus::Idle => false,
        SessionStatus::Cleanup => false,
        SessionStatus::Merged => false,
        SessionStatus::Killed => false,
        SessionStatus::Terminated => false,
        SessionStatus::Done => false,
        SessionStatus::Errored => false,
        SessionStatus::Spawning => true,
        SessionStatus::Working => true,
        SessionStatus::NeedsInput => true,
        SessionStatus::Stuck => true,
        SessionStatus::PrOpen => true,
        SessionStatus::CiFailed => true,
        SessionStatus::ReviewPending => true,
        SessionStatus::ChangesRequested => true,
        SessionStatus::Approved => true,
        SessionStatus::Mergeable => true,
        SessionStatus::MergeFailed => true,
    }
}

/// A session follows its agent to the branch that its worktree is on, if and only if no other
/// session of its project that goes on has that branch, and no other is just taking it over.
/// Sessions that have ended, and those of other projects, are not in the way.
pub proof fn law_agent_is_followed(
    m: ManagerView,
    s: Session,
    sessions: Seq<Session>,
    branch: String,
)
    ensures
        ({
            let b = branch_after(m, s, sessions, WorkspaceBranchProbe::Branch(branch));
            let reserved = s.project_id@ + ":"@ + branch@;
            let free = !m.reserved.dom().contains(reserved) || m.reserved[reserved] == s.id.0@;
            let in_the_way = |o: Session|
                o.id.0@ != s.id.0@ && o.project_id@ == s.project_id@ && goes_on(o) && o.branch@
                    == branch@;
            &&& free && (forall|i: int|
                0 <= i < sessions.len() ==> !in_the_way(#[trigger] sessions[i])) ==> b == branch@
            &&& !free ==> b == s.branch@
            &&& (exists|i: int| 0 <= i < sessions.len() && in_the_way(#[trigger] sessions[i]))
                ==> b == s.branch@
        }),
{
}

/// A worktree whose branch cannot be told leaves the session as it is; one that is on no branch
/// leaves it without one.
pub proof fn law_without_a_branch_there_is_nothing_to_follow(
    m: ManagerView,
    s: Session,
    sessions: Seq<Session>,
)
    ensures
        branch_after(m, s, sessions, WorkspaceBranchProbe::Unavailable) == s.branch@,
        branch_after(m, s, sessions, WorkspaceBranchProbe::Detached).len() == 0,
{
}

/// Once the branch has been looked at, nobody holds it any more who held it for this session, and
/// what others hold stays theirs.
pub proof fn law_reservations_are_given_back(m: ManagerView, s: Session, branch: String, k: Seq<char>)
    ensures
        ({
            let after = claims_after(m, s, WorkspaceBranchProbe::Branch(branch));
            let mine = s.project_id@ + ":"@ + branch@;
            &&& k != mine ==> (after.dom().contains(k) <==> m.reserved.dom().contains(k)) && (
            m.reserved.dom().contains(k) ==> after[k] == m.reserved[k])
            &&& branch@ != s.branch@ && m.reserved.dom().contains(mine) && m.reserved[mine]
                != s.id.0@ ==> after.dom().contains(mine) && after[mine] == m.reserved[mine]
            &&& branch@ != s.branch@ && m.reserved.dom().contains(mine) && m.reserved[mine]
                == s.id.0@ ==> !after.dom().contains(mine)
        }),
{
}

/// `HEAD` names a branch where it says `ref: refs/heads/` and then its name, with nothing but white
/// space around.
pub proof fn law_head_names_its_branch(name: Seq<char>)
    requires
        name.len() > 0,
        trim("ref: refs/heads/"@ + name) == "ref: refs/heads/"@ + name,
        trim(name) == name,
    ensures
        head_branch("ref: refs/heads/"@ + name) == Some(name),
{
    let p = "ref: refs/heads/"@;
    assert((p + name).skip(p.len() as int) =~= name);
    assert((p + name).subrange(0, p.len() as int) =~= p);
}

/// A worktree whose `.git` is a directory has its state there. One whose `.git` is a file has it
/// where that file says.
pub proof fn law_git_state_is_where_git_says(workspace: Seq<char>, dir: Seq<char>, content: String)
    requires
        content@ == "gitdir:"@ + dir,
        trim(content@) == content@,
    ensures
        git_dir(workspace, DotGit::Directory) == Some(join_path(workspace, ".git"@)),
        git_dir(workspace, DotGit::File(Some(content))) == Some(join_path(workspace, trim(dir))),
        git_dir(workspace, DotGit::File(None)) is None,
        git_dir(workspace, DotGit::Missing) is None,
{
    let p = "gitdir:"@;
    assert((p + dir).skip(p.len() as int) =~= dir);
    assert((p + dir).subrange(0, p.len() as int) =~= p);
}

/// Git is in the middle of something while it rebases, picks or bisects.
pub proof fn law_transient_states_have_markers(dir: Seq<char>)
    ensures
        transient_markers(dir).contains(join_path(dir, "rebase-merge"@)),
        transient_markers(dir).contains(join_path(dir, "rebase-apply"@)),
        transient_markers(dir).contains(join_path(dir, "CHERRY_PICK_HEAD"@)),
        transient_markers(dir).contains(join_path(dir, "BISECT_LOG"@)),
        transient_markers(dir).len() == 4,
{
    let m = transient_markers(dir);
    assert(m[0] == join_path(dir, "rebase-merge"@));
    assert(m[1] == join_path(dir, "rebase-apply"@));
    assert(m[2] == join_path(dir, "CHERRY_PICK_HEAD"@));
    assert(m[3] == join_path(dir, "BISECT_LOG"@));
}

/// A worktree whose `HEAD` names a branch is on it, whatever git is in the middle of. One whose
/// `HEAD` names none is on none, unless git is in the middle of something; then, and where there is
/// no `HEAD` to be read, it cannot be told.
pub proof fn law_head_tells_the_branch(head: Seq<char>, transient: bool, p: WorkspaceBranchProbe)
    requires
        reads_head(Some(head), transient, p),
    ensures
        head_branch(head) is Some <==> p is Branch,
        p matches WorkspaceBranchProbe::Branch(b) ==> head_branch(head) == Some(b@) && b@.len() > 0,
        head_branch(head) is None && transient ==> p is Unavailable,
        head_branch(head) is None && !transient ==> p is Detached,
        forall|q: WorkspaceBranchProbe|
            reads_head(None, transient, q) ==> q == WorkspaceBranchProbe::Unavailable,
{
}

} // verus!
