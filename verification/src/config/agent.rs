//! How agents are run: permission modes, models and rules.

use vstd::prelude::*;
use vstd::string::*;

use crate::decode::{lossy, lossy_text};
use crate::error::AoError;
use crate::paths::{join_path, path_join};
use crate::text::{clone_opt, decimal, decimal_text, opt_text};

verus! {

/// What an agent may do without asking.
#[derive(Clone, Copy, Debug, PartialEq, Eq, Structural)]
pub enum PermissionsMode {
    Permissionless,
    Default,
    AutoEdit,
    Suggest,
}

/// Overrides for the agent of one project or role.
#[derive(Debug, PartialEq, Eq)]
pub struct AgentConfig {
    pub permissions: PermissionsMode,
    /// Rules appended to the agent's system prompt.
    pub rules: Option<String>,
    /// A file with rules, relative to the project; it takes precedence over `rules`.
    pub rules_file: Option<String>,
    pub model: Option<String>,
    pub orchestrator_model: Option<String>,
    pub opencode_session_id: Option<String>,
}

impl Clone for AgentConfig {
    fn clone(&self) -> (r: Self)
        ensures
            r == *self,
    {
        AgentConfig {
            permissions: self.permissions,
            rules: clone_opt(&self.rules),
            rules_file: clone_opt(&self.rules_file),
            model: clone_opt(&self.model),
            orchestrator_model: clone_opt(&self.orchestrator_model),
            opencode_session_id: clone_opt(&self.opencode_session_id),
        }
    }
}

/// The rules that an agent follows unless it is given others.
pub const AGENT_RULES: &'static str = r#"
Rules:
- When spawned from an issue, use the dev-lifecycle workflow to turn the issue content into concrete requirements and a plan, then execute it.
- Do not skip the verify step. Every change must pass tests and linting before you consider it done.
- Always push your branch and open a PR when the task is complete.
- Prefer editing existing files over creating new ones.
- Keep changes focused — fix what was asked, don't refactor surrounding code.
- If stuck for more than 5 minutes, explain what's blocking you.

Testing rules:
- Check the README, Makefile, or package manifest for the project's test command before assuming.
  Common commands: `npm test`, `pytest`, `go test ./...`, `cargo t`, `make test`, `./gradlew test`.
- Run only the tests related to what you changed during development — not the full suite every save.
- Fix all test failures before opening a PR. Do not open a PR with failing tests.
- Do not write tests for things the language's type system or compiler already guarantees."#;

/// The rules that an orchestrating agent follows unless it is given others.
pub const ORCHESTRATOR_RULES: &'static str = r#"After spawning a worker, do NOT stop. Run a monitoring loop:
1. Immediately confirm spawn with: ao-rs status
2. Every 5 minutes, check: ao-rs status --project <id>
3. When worker reaches pr_open/review_pending/merged/ci_failed → act
4. Only stop monitoring when all workers reach terminal state (merged/killed)

NEVER call `ao-rs cleanup` — it permanently archives sessions off-disk, making them
invisible in the dashboard. Merged/killed sessions must remain visible so the user can
review them. Only the user decides when to archive.

When sessions are merged/killed, remove their worktrees with `ao-rs prune`:
  ao-rs prune --dry-run   # preview which worktrees would be removed
  ao-rs prune             # remove worktrees (sessions stay visible in dashboard)

When writing tests (and when instructing workers to write tests):
- Co-locate tests with the code they cover where the framework supports it.
- Run only the relevant tests during development — not the full suite every change.
- Never write tests for things the type system or compiler already guarantees."#;

/// What comes before the environment in the settings of the skills.
pub const SKILLS_HEAD: &'static str = "{\n  \"version\": \"0.21.1\",\n  \"environments\": [\"";

/// What comes between the environment and the first time.
pub const SKILLS_PHASES: &'static str = r#""],
  "phases": ["requirements","design","planning","implementation","testing","deployment","monitoring"],
  "createdAt": ""#;

/// What comes between the two times.
pub const SKILLS_MIDDLE: &'static str = r#"",
  "updatedAt": ""#;

/// What comes after the second time.
pub const SKILLS_TAIL: &'static str = r#"",
  "skills": [
    {"registry":"codeaholicguy/ai-devkit","name":"dev-lifecycle"},
    {"registry":"codeaholicguy/ai-devkit","name":"debug"},
    {"registry":"codeaholicguy/ai-devkit","name":"memory"},
    {"registry":"codeaholicguy/ai-devkit","name":"verify"},
    {"registry":"codeaholicguy/ai-devkit","name":"tdd"}
  ]
}"#;

/// An agent may do everything unless the configuration says otherwise.
pub fn default_permissions() -> (r: PermissionsMode)
    ensures
        r == PermissionsMode::Permissionless,
{
    PermissionsMode::Permissionless
}

impl Default for PermissionsMode {
    fn default() -> (r: Self)
        ensures
            r == PermissionsMode::Permissionless,
    {
        default_permissions()
    }
}

impl PermissionsMode {
    /// The name of the mode in the configuration file.
    pub open spec fn name(self) -> Seq<char> {
        match self {
            PermissionsMode::Permissionless => "permissionless"@,
            PermissionsMode::Default => "default"@,
            PermissionsMode::AutoEdit => "auto-edit"@,
            PermissionsMode::Suggest => "suggest"@,
        }
    }

    /// The name of the mode in the configuration file.
    pub fn as_str(self) -> (r: &'static str)
        ensures
            r@ == self.name(),
    {
        match self {
            PermissionsMode::Permissionless => "permissionless",
            PermissionsMode::Default => "default",
            PermissionsMode::AutoEdit => "auto-edit",
            PermissionsMode::Suggest => "suggest",
        }
    }
}

/// The rules that an agent follows unless it is given others.
pub fn default_agent_rules() -> (r: &'static str)
    ensures
        r@ == AGENT_RULES@,
{
    AGENT_RULES
}

/// The rules that an orchestrating agent follows unless it is given others.
pub fn default_orchestrator_rules() -> (r: &'static str)
    ensures
        r@ == ORCHESTRATOR_RULES@,
{
    ORCHESTRATOR_RULES
}

/// The configuration of an agent for which there is none.
pub open spec fn is_default(c: AgentConfig) -> bool {
    &&& c.permissions == PermissionsMode::Permissionless
    &&& opt_text(c.rules) == Some(AGENT_RULES@)
    &&& c.rules_file is None
    &&& c.model is None
    &&& c.orchestrator_model is None
    &&& c.opencode_session_id is None
}

impl Default for AgentConfig {
    fn default() -> (r: Self)
        ensures
            is_default(r),
    {
        AgentConfig {
            permissions: PermissionsMode::Permissionless,
            rules: Some(default_agent_rules().to_string()),
            rules_file: None,
            model: None,
            orchestrator_model: None,
            opencode_session_id: None,
        }
    }
}

/// The rules that apply, where `contents` is what the file with the rules holds.
pub open spec fn applying(c: AgentConfig, contents: Option<Seq<char>>) -> Option<Seq<char>> {
    if c.rules_file is Some {
        contents
    } else {
        opt_text(c.rules)
    }
}

/// Where the file with the rules is.
pub open spec fn rules_place(c: AgentConfig, project: Option<Seq<char>>) -> Option<Seq<char>> {
    match (c.rules_file, project) {
        (None, _) => None,
        (Some(file), None) => Some(file@),
        (Some(file), Some(base)) => Some(join_path(base, file@)),
    }
}

impl AgentConfig {
    /// Where the file with the rules is, in a project at `project_path`.
    pub fn rules_path(&self, project_path: Option<&str>) -> (r: Option<String>)
        ensures
            opt_text(r) == rules_place(
                *self,
                match project_path {
                    Some(base) => Some(base@),
                    None => None,
                },
            ),
    {
        match (&self.rules_file, project_path) {
            (None, _) => None,
            (Some(file), None) => Some(file.clone()),
            (Some(file), Some(base)) => Some(path_join(base, file.as_str())),
        }
    }

    /// The rules that apply, where `contents` is what the file with the rules holds, if it can
    /// be read. Where there is such a file, the rules that are written down here do not count.
    pub fn resolve_rules(&self, contents: Option<String>) -> (r: Option<String>)
        ensures
            opt_text(r) == applying(*self, opt_text(contents)),
    {
        if self.rules_file.is_some() {
            contents
        } else {
            clone_opt(&self.rules)
        }
    }
}

/// The settings of the skills for the given environment, as of `now` milliseconds since the
/// epoch.
pub fn ai_devkit_config_json(environment: &str, now: u64) -> (r: String)
    ensures
        r@ == SKILLS_HEAD@ + environment@ + SKILLS_PHASES@ + decimal(now as nat) + SKILLS_MIDDLE@ + decimal(now as nat)
            + SKILLS_TAIL@,
{
    let ts = decimal_text(now);
    let mut out: String = SKILLS_HEAD.to_string();
    out.append(environment);
    out.append(SKILLS_PHASES);
    out.append(ts.as_str());
    out.append(SKILLS_MIDDLE);
    out.append(ts.as_str());
    out.append(SKILLS_TAIL);
    out
}

/// How the command that installs the skills ended.
#[derive(Debug, PartialEq, Eq)]
pub enum InstallReply {
    /// There is no such command.
    NotFound,
    /// It could not be started, for the given reason.
    NotStarted(String),
    /// It ended, with success or without, after it had written these bytes to its error
    /// output.
    Ended { success: bool, stderr: Vec<u8> },
}

/// What is said of a command that failed after it had written `stderr`.
pub fn install_failure(stderr: &str) -> (r: AoError)
    ensures
        r matches AoError::Other(s) && s@ == "npx ai-devkit install failed: "@ + stderr@,
{
    AoError::Other("npx ai-devkit install failed: ".to_string().concat(stderr))
}

/// What comes of installing the skills.
pub fn install_skills(reply: &InstallReply) -> (r: Result<(), AoError>)
    ensures
        match reply {
            InstallReply::NotFound => r matches Err(AoError::Other(s)) && s@
                == "npx not found. Install Node.js and run: npx ai-devkit@latest init"@,
            InstallReply::NotStarted(e) => r matches Err(AoError::Other(s)) && s@
                == "failed to run npx ai-devkit install: "@ + e@,
            InstallReply::Ended { success, stderr } => if *success {
                r is Ok
            } else {
                r matches Err(AoError::Other(s)) && s@ == "npx ai-devkit install failed: "@ + lossy(
                    stderr@,
                )
            },
        },
{
    match reply {
        InstallReply::NotFound => Err(
            AoError::Other(
                "npx not found. Install Node.js and run: npx ai-devkit@latest init".to_string(),
            ),
        ),
        InstallReply::NotStarted(e) => Err(
            AoError::Other("failed to run npx ai-devkit install: ".to_string().concat(e.as_str())),
        ),
        InstallReply::Ended { success, stderr } => if *success {
            Ok(())
        } else {
            let said = lossy_text(stderr);
            Err(install_failure(said.as_str()))
        },
    }
}

/// Rules that are in a file count alone: where the file cannot be read there are none, and those
/// that are written down in the configuration count only where it names no file.
pub proof fn law_rules_of_a_file_count_alone(c: AgentConfig, contents: Option<Seq<char>>)
    ensures
        c.rules_file is Some ==> applying(c, contents) == contents,
        c.rules_file is None ==> applying(c, contents) == opt_text(c.rules),
        c.rules_file is Some && contents is None ==> applying(c, contents) is None,
{
}

/// The file with the rules is looked for in the project, unless its path is absolute or there is no
/// project.
pub proof fn law_rules_are_looked_for_in_the_project(c: AgentConfig, base: Seq<char>)
    ensures
        c.rules_file is None ==> rules_place(c, Some(base)) is None,
        c.rules_file is Some ==> rules_place(c, None) == Some(c.rules_file->0@),
        c.rules_file is Some ==> rules_place(c, Some(base)) == Some(
            join_path(base, c.rules_file->0@),
        ),
{
}

/// Modes of permission are called what they are.
pub proof fn law_modes_have_names(m: PermissionsMode)
    ensures
        match m {
            PermissionsMode::Permissionless => m.name() == "permissionless"@,
            PermissionsMode::Default => m.name() == "default"@,
            PermissionsMode::AutoEdit => m.name() == "auto-edit"@,
            PermissionsMode::Suggest => m.name() == "suggest"@,
        },
{
}

} // verus!
