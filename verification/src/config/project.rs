//! Settings of one project, and what can be found out about a project from its repository.

use vstd::prelude::*;
use vstd::string::*;

use crate::config::agent::{
    default_orchestrator_rules, default_permissions, is_default, AgentConfig, PermissionsMode,
};
use crate::config::power::{DefaultsConfig, PluginConfig, RoleAgentConfig};
use crate::decode::{lossy, lossy_text};
use crate::error::AoError;
use crate::instructions_file::NativeAgent;
use crate::keyed::KeyedMap;
use crate::reactions::ReactionConfig;
use crate::text::{chars_of, stands_at, trim, trimmed, white_space};

verus! {

/// The branch that worktrees start from unless the configuration names another.
pub fn default_branch_name() -> (r: String)
    ensures
        r@ == "main"@,
{
    "main".to_string()
}

/// The port of the dashboard unless the configuration names another.
pub fn default_port() -> (r: u16)
    ensures
        r == 3000,
{
    3000
}

/// After how many milliseconds a session that is ready counts as idle, unless the
/// configuration says otherwise.
pub fn default_ready_threshold_ms() -> (r: u64)
    ensures
        r == 300_000,
{
    300_000
}

/// Every how many seconds the sessions are polled, unless the configuration says otherwise.
pub fn default_poll_interval_secs() -> (r: u64)
    ensures
        r == 10,
{
    10
}

/// Settings of one project.
pub struct ProjectConfig {
    pub name: Option<String>,
    /// `owner/repo`.
    pub repo: String,
    /// An absolute path.
    pub path: String,
    /// The branch that worktrees start from.
    pub default_branch: String,
    pub session_prefix: Option<String>,
    /// What the names of the branches of agents begin with.
    pub branch_namespace: Option<String>,
    pub runtime: Option<String>,
    pub agent: Option<String>,
    pub workspace: Option<String>,
    pub tracker: Option<PluginConfig>,
    pub scm: Option<PluginConfig>,
    /// Files that every worktree links to.
    pub symlinks: Vec<String>,
    /// Commands that are run in every new worktree.
    pub post_create: Vec<String>,
    pub agent_config: Option<AgentConfig>,
    pub orchestrator: Option<RoleAgentConfig>,
    pub worker: Option<RoleAgentConfig>,
    pub reactions: KeyedMap<ReactionConfig>,
    pub agent_rules: Option<String>,
    pub agent_rules_file: Option<String>,
    pub orchestrator_rules: Option<String>,
    /// The name of what is done about an orchestrator that runs already.
    pub orchestrator_session_strategy: Option<String>,
    /// The name of what is done about a session of an issue that runs already.
    pub opencode_issue_session_strategy: Option<String>,
}

/// How many characters come before the first `c`.
pub open spec fn before(s: Seq<char>, c: char) -> nat
    decreases s.len(),
{
    if s.len() == 0 || s[0] == c {
        0
    } else {
        1 + before(s.skip(1), c)
    }
}

/// What comes after the last `c`; everything, if there is none.
pub open spec fn after_last(s: Seq<char>, c: char) -> Seq<char>
    decreases s.len(),
{
    if before(s, c) < s.len() {
        after_last(s.skip(before(s, c) as int + 1), c)
    } else {
        s
    }
}

/// `s` begins with `p`.
pub open spec fn starts(s: Seq<char>, p: Seq<char>) -> bool {
    p.len() <= s.len() && s.take(p.len() as int) == p
}

/// `s` ends with `p`.
pub open spec fn ends(s: Seq<char>, p: Seq<char>) -> bool {
    p.len() <= s.len() && s.skip(s.len() - p.len()) == p
}

/// `s` without the `.git` at its end, however often it stands there.
pub open spec fn without_git(s: Seq<char>) -> Seq<char>
    decreases s.len(),
{
    if ".git"@.len() > 0 && ends(s, ".git"@) {
        without_git(s.take(s.len() - ".git"@.len()))
    } else {
        s
    }
}

/// The repository that the address of a remote gives: what follows the host in an address of
/// HTTPS, or what follows the colon in one of SSH.
pub open spec fn owner_repo(url: Seq<char>) -> Option<Seq<char>> {
    let s = without_git(trim(url));
    if starts(s, "https://"@) {
        let rest = s.skip("https://"@.len() as int);
        let n = before(rest, '/');
        if n < rest.len() {
            Some(rest.skip(n as int + 1))
        } else {
            None
        }
    } else if starts(s, "git@"@) {
        let rest = s.skip("git@"@.len() as int);
        let n = before(rest, ':');
        if n < rest.len() {
            let path = rest.skip(n as int + 1);
            Some(path.take(before(path, ':') as int))
        } else {
            None
        }
    } else {
        None
    }
}

/// The place of the first `c` from `from` on, or the end.
fn find_char(v: &Vec<char>, from: usize, c: char) -> (r: usize)
    requires
        from <= v.len(),
    ensures
        r == from + before(v@.skip(from as int), c),
        r <= v.len(),
{
    let mut i: usize = from;
    while i < v.len() && v[i] != c
        invariant
            from <= i <= v.len(),
            before(v@.skip(from as int), c) == (i - from) + before(v@.skip(i as int), c),
        decreases v.len() - i,
    {
        assert(v@.skip(i as int).skip(1) =~= v@.skip(i + 1));
        i += 1;
    }
    i
}

/// How much of `s` is left without the `.git` at its end.
fn length_without_git(v: &Vec<char>) -> (r: usize)
    ensures
        r <= v.len(),
        v@.take(r as int) == without_git(v@),
{
    let git = chars_of(".git");
    proof {
        reveal_strlit(".git");
    }
    let mut n: usize = v.len();
    assert(v@.take(n as int) =~= v@);
    loop
        invariant
            n <= v.len(),
            git@ == ".git"@,
            ".git"@.len() == 4,
            without_git(v@) == without_git(v@.take(n as int)),
        ensures
            n <= v.len(),
            v@.take(n as int) == without_git(v@),
        decreases n,
    {
        let ghost s = v@.take(n as int);
        if n < 4 {
            break ;
        }
        assert(s.skip(n - 4) =~= v@.subrange(n - 4, n as int));
        if !stands_at(v, &git, n - 4) {
            break ;
        }
        assert(s.take(n - 4) =~= v@.take(n - 4));
        n -= 4;
    }
    n
}

/// The repository that the address of a remote gives.
pub fn parse_owner_repo(url: &str) -> (r: Option<String>)
    ensures
        match (owner_repo(url@), r) {
            (Some(a), Some(b)) => a == b@,
            (None, None) => true,
            _ => false,
        },
{
    let t = trimmed(url);
    let all = chars_of(t.as_str());
    let len = length_without_git(&all);
    let short: &str = t.as_str().substring_char(0, len);
    assert(short@ =~= without_git(trim(url@)));
    let v = chars_of(short);
    let https = chars_of("https://");
    let ssh = chars_of("git@");
    assert(v@.take(https@.len() as int) =~= v@.subrange(0, https@.len() as int));
    assert(v@.take(ssh@.len() as int) =~= v@.subrange(0, ssh@.len() as int));
    if stands_at(&v, &https, 0) {
        let n = find_char(&v, https.len(), '/');
        let ghost rest = v@.skip(https@.len() as int);
        if n < v.len() {
            assert(rest.skip(n - https.len() + 1) =~= v@.subrange(n + 1, v@.len() as int));
            return Some(short.substring_char(n + 1, v.len()).to_string());
        }
        return None;
    }
    if stands_at(&v, &ssh, 0) {
        let n = find_char(&v, ssh.len(), ':');
        let ghost rest = v@.skip(ssh@.len() as int);
        if n < v.len() {
            let e = find_char(&v, n + 1, ':');
            let ghost path = rest.skip(n - ssh.len() + 1);
            assert(path =~= v@.skip(n + 1));
            assert(path.take(e - (n + 1)) =~= v@.subrange(n + 1, e as int));
            return Some(short.substring_char(n + 1, e).to_string());
        }
        return None;
    }
    None
}

pub(crate) proof fn lemma_before(front: Seq<char>, c: char, back: Seq<char>)
    requires
        !front.contains(c),
    ensures
        before(front.push(c) + back, c) == front.len(),
    decreases front.len(),
{
    let s = front.push(c) + back;
    if front.len() > 0 {
        assert(front.contains(front[0]));
        assert(s.skip(1) =~= front.skip(1).push(c) + back);
        assert forall|i: int| 0 <= i < front.len() - 1 implies front.skip(1)[i] != c by {
            assert(front.contains(front[i + 1]));
        }
        lemma_before(front.skip(1), c, back);
    }
}

pub(crate) proof fn lemma_not_before(s: Seq<char>, c: char)
    requires
        !s.contains(c),
    ensures
        before(s, c) == s.len(),
    decreases s.len(),
{
    if s.len() > 0 {
        assert(s.contains(s[0]));
        assert forall|i: int| 0 <= i < s.len() - 1 implies s.skip(1)[i] != c by {
            assert(s.contains(s[i + 1]));
        }
        lemma_not_before(s.skip(1), c);
    }
}

/// An address that begins and ends as addresses do is not shortened, but for a `.git` that was
/// put behind it.
proof fn lemma_tidy_address(front: Seq<char>, c: char, repo: Seq<char>)
    requires
        front.len() > 0,
        front[0] == 'h' || front[0] == 'g',
        c == '/' || c == ':',
        repo.len() > 0,
        !white_space(repo.last()),
        !ends(repo, ".git"@),
    ensures
        ({
            let s = front.push(c) + repo;
            &&& without_git(trim(s)) == s
            &&& without_git(trim(s + ".git"@)) == s
        }),
{
    reveal_strlit(".git");
    let s = front.push(c) + repo;
    let t = s + ".git"@;
    assert(s[0] == front[0] && t[0] == front[0]);
    assert(s.last() == repo.last());
    assert(t.last() == 't');
    assert(trim(s) == s);
    assert(trim(t) == t);
    assert(!ends(s, ".git"@)) by {
        let tail = s.skip(s.len() - 4);
        if tail == ".git"@ && s.len() >= 4 {
            if repo.len() >= 4 {
                assert(repo.skip(repo.len() - 4) =~= tail);
            } else {
                assert(tail[3 - repo.len()] == c);
            }
        }
    }
    assert(t.skip(t.len() - 4) =~= ".git"@);
    assert(t.take(t.len() - 4) =~= s);
    assert(without_git(s) == s);
    assert(without_git(t) == without_git(t.take(t.len() - ".git"@.len())));
}

/// The two forms of the address of a repository, each with or without `.git` at its end, give
/// the same repository.
pub proof fn law_addresses_agree(host: Seq<char>, repo: Seq<char>)
    requires
        !host.contains('/'),
        !host.contains(':'),
        repo.len() > 0,
        !repo.contains(':'),
        !white_space(repo.last()),
        !ends(repo, ".git"@),
    ensures
        owner_repo("https://"@ + host + "/"@ + repo) == Some(repo),
        owner_repo("https://"@ + host + "/"@ + repo + ".git"@) == Some(repo),
        owner_repo("git@"@ + host + ":"@ + repo) == Some(repo),
        owner_repo("git@"@ + host + ":"@ + repo + ".git"@) == Some(repo),
{
    reveal_strlit("https://");
    reveal_strlit("git@");
    reveal_strlit("/");
    reveal_strlit(":");
    let a = ("https://"@ + host).push('/') + repo;
    assert("https://"@ + host + "/"@ + repo =~= a);
    lemma_tidy_address("https://"@ + host, '/', repo);
    assert(a.take(8) =~= "https://"@);
    assert(a.skip(8) =~= host.push('/') + repo);
    lemma_before(host, '/', repo);
    assert(a.skip(8).skip(host.len() as int + 1) =~= repo);
    let b = ("git@"@ + host).push(':') + repo;
    assert("git@"@ + host + ":"@ + repo =~= b);
    lemma_tidy_address("git@"@ + host, ':', repo);
    assert(b.take(4) =~= "git@"@);
    assert(b[0] == 'g');
    assert(!starts(b, "https://"@)) by {
        if starts(b, "https://"@) {
            assert(b.take(8)[0] == 'h');
        }
    }
    assert(b.skip(4) =~= host.push(':') + repo);
    lemma_before(host, ':', repo);
    assert(b.skip(4).skip(host.len() as int + 1) =~= repo);
    lemma_not_before(repo, ':');
    assert(repo.take(repo.len() as int) =~= repo);
}

/// What comes after the last slash.
pub fn last_part(s: &str) -> (r: String)
    ensures
        r@ == after_last(s@, '/'),
{
    let v = chars_of(s);
    let mut from: usize = 0;
    assert(v@.skip(0) =~= v@);
    loop
        invariant
            v@ == s@,
            from <= v.len(),
            after_last(s@, '/') == after_last(v@.skip(from as int), '/'),
        ensures
            v@ == s@,
            from <= v.len(),
            after_last(s@, '/') == v@.skip(from as int),
        decreases v.len() - from,
    {
        let n = find_char(&v, from, '/');
        if n == v.len() {
            break ;
        }
        assert(v@.skip(from as int).skip(n - from + 1) =~= v@.skip(n + 1));
        from = n + 1;
    }
    assert(v@.skip(from as int) =~= v@.subrange(from as int, v@.len() as int));
    s.substring_char(from, v.len()).to_string()
}

/// How a command ended.
#[derive(Debug, PartialEq, Eq)]
pub enum CommandReply {
    /// It could not be started, for the given reason.
    NotStarted(String),
    /// It ended, with success or without, after it had written these bytes.
    Ended { success: bool, stdout: Vec<u8> },
}

/// The repository at the given address, and the name of its last part.
pub fn parse_remote(url: &str) -> (r: Result<(String, String), AoError>)
    ensures
        match (owner_repo(trim(url@)), r) {
            (Some(repo), Ok((a, b))) => a@ == repo && b@ == after_last(repo, '/'),
            (None, Err(AoError::Other(e))) => e@
                == "could not parse owner/repo from remote URL: "@ + trim(url@),
            _ => false,
        },
{
    let t = trimmed(url);
    match parse_owner_repo(t.as_str()) {
        Some(repo) => {
            let name = last_part(repo.as_str());
            Ok((repo, name))
        },
        None => Err(
            AoError::Other(
                "could not parse owner/repo from remote URL: ".to_string().concat(t.as_str()),
            ),
        ),
    }
}

/// The repository that a working copy belongs to, as `git remote get-url origin` replied.
pub fn detect_remote(remote: &CommandReply) -> (r: Result<(String, String), AoError>)
    ensures
        match remote {
            CommandReply::NotStarted(e) => r matches Err(AoError::Io(s)) && s@ == e@,
            CommandReply::Ended { success, stdout } => if !*success {
                r matches Err(AoError::Other(s)) && s@
                    == "no git remote 'origin' found — run from inside a git repo"@
            } else {
                match (owner_repo(trim(lossy(stdout@))), r) {
                    (Some(repo), Ok((a, b))) => a@ == repo && b@ == after_last(repo, '/'),
                    (None, Err(AoError::Other(e))) => e@
                        == "could not parse owner/repo from remote URL: "@ + trim(lossy(stdout@)),
                    _ => false,
                }
            },
        },
{
    match remote {
        CommandReply::NotStarted(e) => Err(AoError::Io(e.clone())),
        CommandReply::Ended { success, stdout } => {
            if !*success {
                return Err(
                    AoError::Other(
                        "no git remote 'origin' found — run from inside a git repo".to_string(),
                    ),
                );
            }
            let url = lossy_text(stdout);
            parse_remote(url.as_str())
        },
    }
}

/// The branch that a working copy is on, as `git rev-parse --abbrev-ref HEAD` replied; where
/// it failed, `main`.
pub fn detect_branch(head: &CommandReply) -> (r: Result<String, AoError>)
    ensures
        match head {
            CommandReply::NotStarted(e) => r matches Err(AoError::Io(s)) && s@ == e@,
            CommandReply::Ended { success, stdout } => r matches Ok(b) && b@ == if *success {
                trim(lossy(stdout@))
            } else {
                "main"@
            },
        },
{
    match head {
        CommandReply::NotStarted(e) => Err(AoError::Io(e.clone())),
        CommandReply::Ended { success, stdout } => if *success {
            let name = lossy_text(stdout);
            Ok(trimmed(name.as_str()))
        } else {
            Ok("main".to_string())
        },
    }
}

/// What can be found out about a project: its repository, the name of the repository and the
/// branch that is checked out. The first command that fails decides on the error.
pub fn detect_git_repo(remote: &CommandReply, head: &CommandReply) -> (r: Result<
    (String, String, String),
    AoError,
>)
    ensures
        match r {
            Ok((repo, name, branch)) => {
                &&& remote matches CommandReply::Ended { success: true, stdout } && owner_repo(
                    trim(lossy(stdout@)),
                ) == Some(repo@)
                &&& name@ == after_last(repo@, '/')
                &&& head matches CommandReply::Ended { success, stdout } && branch@ == if *success {
                    trim(lossy(stdout@))
                } else {
                    "main"@
                }
            },
            Err(e) => match remote {
                CommandReply::NotStarted(s) => e matches AoError::Io(t) && t@ == s@,
                CommandReply::Ended { success: false, .. } => e matches AoError::Other(t) && t@
                    == "no git remote 'origin' found — run from inside a git repo"@,
                CommandReply::Ended { success: true, stdout } => match owner_repo(
                    trim(lossy(stdout@)),
                ) {
                    None => e matches AoError::Other(t) && t@
                        == "could not parse owner/repo from remote URL: "@ + trim(lossy(stdout@)),
                    Some(_) => head matches CommandReply::NotStarted(s) && e matches AoError::Io(t)
                        && t@ == s@,
                },
            },
        },
{
    match detect_remote(remote) {
        Err(e) => Err(e),
        Ok((repo, name)) => match detect_branch(head) {
            Err(e) => Err(e),
            Ok(branch) => Ok((repo, name, branch)),
        },
    }
}

/// The settings of a project that was found at `path`: nothing is configured but where it is
/// and what applies to every agent.
pub open spec fn fresh_project(
    p: ProjectConfig,
    repo: Seq<char>,
    path: Seq<char>,
    branch: Seq<char>,
) -> bool {
    &&& p.name is None
    &&& p.repo@ == repo
    &&& p.path@ == path
    &&& p.default_branch@ == branch
    &&& p.session_prefix is None
    &&& p.branch_namespace is None
    &&& p.runtime is None
    &&& p.agent is None
    &&& p.workspace is None
    &&& p.tracker is None
    &&& p.scm is None
    &&& p.symlinks@ == Seq::<String>::empty()
    &&& p.post_create@ == Seq::<String>::empty()
    &&& p.agent_config matches Some(c) && is_default(c)
    &&& p.orchestrator is None
    &&& p.worker is None
    &&& p.reactions@ == Map::<Seq<char>, ReactionConfig>::empty()
    &&& p.agent_rules is None
    &&& p.agent_rules_file is None
    &&& p.orchestrator_rules is None
    &&& p.orchestrator_session_strategy is None
    &&& p.opencode_issue_session_strategy is None
}

/// The settings of a project that was found at `path`.
pub fn new_project(repo: String, path: String, default_branch: String) -> (r: ProjectConfig)
    ensures
        fresh_project(r, repo@, path@, default_branch@),
{
    ProjectConfig {
        name: None,
        repo,
        path,
        default_branch,
        session_prefix: None,
        branch_namespace: None,
        runtime: None,
        agent: None,
        workspace: None,
        tracker: None,
        scm: None,
        symlinks: Vec::new(),
        post_create: Vec::new(),
        agent_config: Some(AgentConfig::default()),
        orchestrator: None,
        worker: None,
        reactions: KeyedMap::new(),
        agent_rules: None,
        agent_rules_file: None,
        orchestrator_rules: None,
        orchestrator_session_strategy: None,
        opencode_issue_session_strategy: None,
    }
}

/// What a new configuration says of all projects: both roles are filled by `cursor`.
pub open spec fn fresh_defaults(d: DefaultsConfig, agent: Seq<char>) -> bool {
    &&& d.is_plain(agent)
    &&& d.orchestrator matches Some(o) && (o.agent matches Some(a) && a@ == "cursor"@)
        && o.agent_config == Some(
        AgentConfig {
            permissions: PermissionsMode::Permissionless,
            rules: None,
            rules_file: None,
            model: None,
            orchestrator_model: None,
            opencode_session_id: None,
        },
    )
    &&& d.worker matches Some(w) && (w.agent matches Some(a) && a@ == "cursor"@)
        && w.agent_config is None
}

/// What a new configuration says of all projects.
pub fn new_defaults(native: &NativeAgent) -> (r: DefaultsConfig)
    ensures
        fresh_defaults(r, native.name@),
{
    DefaultsConfig {
        orchestrator: Some(
            RoleAgentConfig {
                agent: Some("cursor".to_string()),
                agent_config: Some(
                    AgentConfig {
                        permissions: default_permissions(),
                        rules: None,
                        rules_file: None,
                        model: None,
                        orchestrator_model: None,
                        opencode_session_id: None,
                    },
                ),
            },
        ),
        worker: Some(
            RoleAgentConfig { agent: Some("cursor".to_string()), agent_config: None },
        ),
        orchestrator_rules: Some(default_orchestrator_rules().to_string()),
        ..DefaultsConfig::default_for(native)
    }
}

} // verus!
