//! Settings of plugins, of roles, and of the machine.

use vstd::prelude::*;
use vstd::string::*;

use crate::config::agent::{default_orchestrator_rules, AgentConfig, ORCHESTRATOR_RULES};
use crate::instructions_file::NativeAgent;
use crate::keyed::KeyedMap;
use crate::text::{opt_text, same_text};

verus! {

/// A value of a YAML file, of any shape.
#[verifier::external_type_specification]
#[verifier::external_body]
pub struct ExValue(serde_yaml::Value);

/// The runtime in which agents run unless the configuration names another.
pub fn default_runtime() -> (r: String)
    ensures
        r@ == "tmux"@,
{
    "tmux".to_string()
}

/// The agent that runs unless the configuration names another.
pub fn default_agent(native: &NativeAgent) -> (r: String)
    ensures
        r@ == native.name@,
{
    native.name.clone()
}

/// How agents get a directory of their own unless the configuration says otherwise.
pub fn default_workspace() -> (r: String)
    ensures
        r@ == "worktree"@,
{
    "worktree".to_string()
}

/// Where issues are looked up unless the configuration says otherwise.
pub fn default_tracker() -> (r: String)
    ensures
        r@ == "github"@,
{
    "github".to_string()
}

/// Settings for what the code host sends.
#[derive(Debug, PartialEq, Eq)]
pub struct ScmWebhookConfig {
    pub enabled: bool,
    pub path: Option<String>,
    pub secret_env_var: Option<String>,
    pub signature_header: Option<String>,
    pub event_header: Option<String>,
    pub delivery_header: Option<String>,
    pub max_body_bytes: Option<u64>,
}

impl Default for ScmWebhookConfig {
    fn default() -> (r: Self)
        ensures
            r == (ScmWebhookConfig {
                enabled: true,
                path: None,
                secret_env_var: None,
                signature_header: None,
                event_header: None,
                delivery_header: None,
                max_body_bytes: None,
            }),
    {
        ScmWebhookConfig {
            enabled: true,
            path: None,
            secret_env_var: None,
            signature_header: None,
            event_header: None,
            delivery_header: None,
            max_body_bytes: None,
        }
    }
}

/// Settings of one plugin; what a plugin wants besides is kept as it is.
pub struct PluginConfig {
    pub plugin: Option<String>,
    pub package: Option<String>,
    pub path: Option<String>,
    pub webhook: Option<ScmWebhookConfig>,
    pub extra: KeyedMap<serde_yaml::Value>,
}

impl Default for PluginConfig {
    fn default() -> (r: Self)
        ensures
            r.plugin is None,
            r.package is None,
            r.path is None,
            r.webhook is None,
            r.extra@ == Map::<Seq<char>, serde_yaml::Value>::empty(),
    {
        PluginConfig {
            plugin: None,
            package: None,
            path: None,
            webhook: None,
            extra: KeyedMap::new(),
        }
    }
}

/// Settings of the machine.
#[derive(Clone, Copy, Debug, PartialEq, Eq, Structural)]
pub struct PowerConfig {
    /// The machine does not go to sleep while agents are at work.
    pub prevent_idle_sleep: bool,
}

/// Whether a machine with the given operating system is kept awake unless the configuration
/// says otherwise.
pub fn default_prevent_idle_sleep(target_os: &str) -> (r: bool)
    ensures
        r == (target_os@ == "macos"@),
{
    same_text(target_os, "macos")
}

impl PowerConfig {
    /// The settings of a machine with the given operating system for which there are none.
    pub fn default_for(target_os: &str) -> (r: Self)
        ensures
            r.prevent_idle_sleep == (target_os@ == "macos"@),
    {
        PowerConfig { prevent_idle_sleep: default_prevent_idle_sleep(target_os) }
    }
}

/// Settings for agents of one role.
#[derive(Debug, PartialEq, Eq)]
pub struct RoleAgentConfig {
    pub agent: Option<String>,
    pub agent_config: Option<AgentConfig>,
}

/// What applies to all projects that do not say otherwise.
#[derive(Debug, PartialEq, Eq)]
pub struct DefaultsConfig {
    pub runtime: String,
    pub agent: String,
    pub orchestrator: Option<RoleAgentConfig>,
    pub worker: Option<RoleAgentConfig>,
    pub orchestrator_rules: Option<String>,
    pub workspace: String,
    pub tracker: String,
    /// What the names of the branches of agents begin with.
    pub branch_namespace: Option<String>,
    pub notifiers: Vec<String>,
}

impl DefaultsConfig {
    /// What applies where the configuration is silent, but for the roles.
    pub open spec fn is_plain(self, agent: Seq<char>) -> bool {
        &&& self.runtime@ == "tmux"@
        &&& self.agent@ == agent
        &&& opt_text(self.orchestrator_rules) == Some(ORCHESTRATOR_RULES@)
        &&& self.workspace@ == "worktree"@
        &&& self.tracker@ == "github"@
        &&& self.branch_namespace is None
        &&& self.notifiers@ == Seq::<String>::empty()
    }

    /// What applies where the configuration is silent, if this is the native agent.
    pub fn default_for(native: &NativeAgent) -> (r: Self)
        ensures
            r.is_plain(native.name@),
            r.orchestrator is None,
            r.worker is None,
    {
        DefaultsConfig {
            runtime: default_runtime(),
            agent: default_agent(native),
            orchestrator: None,
            worker: None,
            orchestrator_rules: Some(default_orchestrator_rules().to_string()),
            workspace: default_workspace(),
            tracker: default_tracker(),
            branch_namespace: None,
            notifiers: Vec::new(),
        }
    }
}

} // verus!
