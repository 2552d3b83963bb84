//! The configuration file.

use vstd::prelude::*;
use vstd::string::*;

pub mod agent;
pub mod clash;
pub mod discovery;
pub mod laws;
pub mod lifecycle;
pub mod power;
pub mod project;
pub mod reactions;
pub mod validation;

use crate::config::power::{DefaultsConfig, PluginConfig, PowerConfig};
use crate::config::project::{
    default_poll_interval_secs, default_port, default_ready_threshold_ms, fresh_defaults,
    fresh_project, new_defaults, new_project, ProjectConfig,
};
use crate::config::reactions::{
    default_reaction, default_reactions, default_routing, reaction_keys,
};
use crate::error::AoError;
use crate::instructions_file::NativeAgent;
use crate::keyed::KeyedMap;
use crate::notifier::NotificationRouting;
use crate::paths::{join_path, path_join};
use crate::reactions::{EventPriority, ReactionConfig};
use crate::text::{chars_of, opt_text, texts};

verus! {

/// Where editors find the schema of the configuration file.
pub const SCHEMA_URL: &'static str = "https://raw.githubusercontent.com/duonghb53/ao-rs/main/schema/ao-rs.schema.json";

/// The name of the configuration file.
pub const CONFIG_FILENAME: &'static str = "ao-rs.yaml";

/// Something in a configuration file that is not as it should be, but does no harm.
#[derive(Debug, PartialEq, Eq)]
pub struct ConfigWarning {
    /// Where it stands, such as `projects.my-app.defaultBranch`.
    pub field: String,
    pub message: String,
}

/// The configuration.
pub struct AoConfig {
    pub schema_url: Option<String>,
    /// The port of the dashboard.
    pub port: u16,
    pub terminal_port: Option<u16>,
    pub direct_terminal_port: Option<u16>,
    /// After how many milliseconds a session that is ready counts as idle.
    pub ready_threshold_ms: u64,
    /// Every how many seconds the sessions are polled.
    pub poll_interval: u64,
    pub power: Option<PowerConfig>,
    pub defaults: Option<DefaultsConfig>,
    pub projects: KeyedMap<ProjectConfig>,
    pub reactions: KeyedMap<ReactionConfig>,
    pub notification_routing: NotificationRouting,
    pub notifiers: KeyedMap<PluginConfig>,
    pub plugins: Vec<KeyedMap<serde_yaml::Value>>,
}

/// A configuration that was read, and what is not as it should be in it.
pub struct LoadedConfig {
    pub config: AoConfig,
    pub warnings: Vec<ConfigWarning>,
}

/// The configuration that applies without a file.
pub open spec fn blank(c: AoConfig) -> bool {
    &&& c.schema_url is None
    &&& c.port == 3000
    &&& c.terminal_port is None
    &&& c.direct_terminal_port is None
    &&& c.ready_threshold_ms == 300_000
    &&& c.poll_interval == 10
    &&& c.power is None
    &&& c.defaults is None
    &&& c.projects@ == Map::<Seq<char>, ProjectConfig>::empty()
    &&& c.projects.key_order() == Seq::<Seq<char>>::empty()
    &&& c.reactions@ == Map::<Seq<char>, ReactionConfig>::empty()
    &&& c.reactions.key_order() == Seq::<Seq<char>>::empty()
    &&& forall|p: EventPriority| (#[trigger] c.notification_routing.names(p)) is None
    &&& c.notifiers@ == Map::<Seq<char>, PluginConfig>::empty()
    &&& c.plugins@ == Seq::<KeyedMap<serde_yaml::Value>>::empty()
}

impl Default for AoConfig {
    fn default() -> (r: Self)
        ensures
            blank(r),
    {
        AoConfig {
            schema_url: None,
            port: default_port(),
            terminal_port: None,
            direct_terminal_port: None,
            ready_threshold_ms: default_ready_threshold_ms(),
            poll_interval: default_poll_interval_secs(),
            power: None,
            defaults: None,
            projects: KeyedMap::new(),
            reactions: KeyedMap::new(),
            notification_routing: NotificationRouting::default(),
            notifiers: KeyedMap::new(),
            plugins: Vec::new(),
        }
    }
}

/// The configuration that is written for a project that was found at `path`.
pub open spec fn fresh(
    c: AoConfig,
    repo: Seq<char>,
    name: Seq<char>,
    branch: Seq<char>,
    path: Seq<char>,
    agent: Seq<char>,
) -> bool {
    &&& c.schema_url is None
    &&& c.port == 3000
    &&& c.terminal_port is None
    &&& c.direct_terminal_port is None
    &&& c.ready_threshold_ms == 300_000
    &&& c.poll_interval == 10
    &&& c.power is None
    &&& c.defaults matches Some(d) && fresh_defaults(d, agent)
    &&& c.projects.key_order() == seq![name]
    &&& c.projects@.dom() == set![name]
    &&& fresh_project(c.projects@[name], repo, path, branch)
    &&& c.reactions.key_order() == reaction_keys()
    &&& forall|k: Seq<char>| #[trigger]
        c.reactions@.dom().contains(k) <==> default_reaction(k) is Some
    &&& forall|k: Seq<char>| #[trigger]
        c.reactions@.dom().contains(k) ==> Some(c.reactions@[k]@) == default_reaction(k)
    &&& forall|p: EventPriority|
        (#[trigger] c.notification_routing.names(p)) matches Some(names) && texts(names@) == seq![
            "stdout"@,
        ]
    &&& c.notifiers@ == Map::<Seq<char>, PluginConfig>::empty()
    &&& c.plugins@ == Seq::<KeyedMap<serde_yaml::Value>>::empty()
}

/// The configuration that is written for a project that was found at `path`, in the given
/// repository and on the given branch.
pub fn generate_config(
    owner_repo: String,
    repo_name: String,
    default_branch: String,
    path: String,
    native: &NativeAgent,
) -> (r: AoConfig)
    ensures
        fresh(r, owner_repo@, repo_name@, default_branch@, path@, native.name@),
{
    let ghost name = repo_name@;
    let mut projects: KeyedMap<ProjectConfig> = KeyedMap::new();
    projects.insert(repo_name, new_project(owner_repo, path, default_branch));
    assert(projects@.dom() =~= set![name]);
    assert(projects.key_order() =~= seq![name]);
    AoConfig {
        schema_url: None,
        port: default_port(),
        terminal_port: None,
        direct_terminal_port: None,
        ready_threshold_ms: default_ready_threshold_ms(),
        poll_interval: default_poll_interval_secs(),
        power: None,
        defaults: Some(new_defaults(native)),
        projects,
        reactions: default_reactions(),
        notification_routing: default_routing(),
        notifiers: KeyedMap::new(),
        plugins: Vec::new(),
    }
}

/// `s` without the dots that it begins with.
pub open spec fn without_dots(s: Seq<char>) -> Seq<char>
    decreases s.len(),
{
    if s.len() > 0 && s[0] == '.' {
        without_dots(s.skip(1))
    } else {
        s
    }
}

/// The name of a field, from the path under which it was found.
pub fn yaml_field_path(path: &str) -> (r: String)
    ensures
        r@ == without_dots(path@),
{
    let v = chars_of(path);
    let mut i: usize = 0;
    assert(v@.skip(0) =~= v@);
    while i < v.len() && v[i] == '.'
        invariant
            i <= v.len(),
            v@ == path@,
            without_dots(path@) == without_dots(v@.skip(i as int)),
        decreases v.len() - i,
    {
        assert(v@.skip(i as int).skip(1) =~= v@.skip(i + 1));
        i += 1;
    }
    assert(v@.skip(i as int) =~= path@.subrange(i as int, v@.len() as int));
    path.substring_char(i, v.len()).to_string()
}

/// What is said of a field that there is no use for.
pub open spec fn unknown_field(w: ConfigWarning, path: Seq<char>) -> bool {
    &&& w.field@ == without_dots(path)
    &&& w.message@ == "unknown field; this key is not supported and will be ignored"@
}

/// What is said of a field that there is no use for.
pub fn unknown_field_warning(path: &str) -> (r: ConfigWarning)
    ensures
        unknown_field(r, path@),
{
    ConfigWarning {
        field: yaml_field_path(path),
        message: "unknown field; this key is not supported and will be ignored".to_string(),
    }
}

/// The place of the schema that is written into a configuration that names the given one: a
/// blank one is replaced.
pub open spec fn stamp(url: Option<Seq<char>>) -> Option<Seq<char>> {
    match url {
        Some(u) => if u.len() == 0 {
            Some(SCHEMA_URL@)
        } else {
            Some(u)
        },
        None => Some(SCHEMA_URL@),
    }
}

/// `written` is `c` as it is written.
pub open spec fn is_stamped(c: AoConfig, written: AoConfig) -> bool {
    &&& written == (AoConfig { schema_url: written.schema_url, ..c })
    &&& opt_text(written.schema_url) == stamp(opt_text(c.schema_url))
}

/// What comes of loading a file.
pub open spec fn loaded(file: ConfigFile, r: Result<AoConfig, AoError>) -> bool {
    match file {
        ConfigFile::Missing(e) => r matches Err(AoError::Io(s)) && s == e,
        ConfigFile::Unreadable(e) => r matches Err(AoError::Io(s)) && s == e,
        ConfigFile::Malformed(e) => r matches Err(AoError::Yaml(s)) && s == e,
        ConfigFile::Parsed { config, .. } => r == Ok::<AoConfig, AoError>(config),
    }
}

/// What comes of loading a file that need not be there.
pub open spec fn loaded_or_blank(file: ConfigFile, r: Result<AoConfig, AoError>) -> bool {
    match file {
        ConfigFile::Missing(_) => r matches Ok(c) && blank(c),
        ConfigFile::Unreadable(e) => r matches Err(AoError::Io(s)) && s == e,
        ConfigFile::Malformed(e) => r matches Err(AoError::Yaml(s)) && s == e,
        ConfigFile::Parsed { config, .. } => r == Ok::<AoConfig, AoError>(config),
    }
}

/// What became of reading a configuration file.
pub enum ConfigFile {
    /// There is no such file; the operating system says so in these words.
    Missing(String),
    /// It could not be read.
    Unreadable(String),
    /// It could be read, but not understood.
    Malformed(String),
    /// It holds this configuration, and fields at the given paths that are of no use.
    Parsed { config: AoConfig, unknown: Vec<String> },
}

impl AoConfig {
    /// The configuration that a file holds.
    pub fn load_from(file: ConfigFile) -> (r: Result<AoConfig, AoError>)
        ensures
            loaded(file, r),
    {
        match file {
            ConfigFile::Missing(e) => Err(AoError::Io(e)),
            ConfigFile::Unreadable(e) => Err(AoError::Io(e)),
            ConfigFile::Malformed(e) => Err(AoError::Yaml(e)),
            ConfigFile::Parsed { config, unknown: _ } => Ok(config),
        }
    }

    /// The configuration that a file holds; without a file, one that says nothing. A file
    /// that is there but cannot be read is an error.
    pub fn load_from_or_default(file: ConfigFile) -> (r: Result<AoConfig, AoError>)
        ensures
            loaded_or_blank(file, r),
    {
        match file {
            ConfigFile::Missing(_) => Ok(AoConfig::default()),
            other => AoConfig::load_from(other),
        }
    }

    /// The place of the configuration file in a directory.
    pub fn path_in(dir: &str) -> (r: String)
        ensures
            r@ == join_path(dir@, CONFIG_FILENAME@),
    {
        path_join(dir, CONFIG_FILENAME)
    }

    /// The configuration as it is written: with the place of its schema, unless it names one
    /// already.
    pub fn stamped(self) -> (r: AoConfig)
        ensures
            is_stamped(self, r),
    {
        let named = match &self.schema_url {
            Some(url) => !url.as_str().is_empty(),
            None => false,
        };
        if named {
            self
        } else {
            AoConfig { schema_url: Some(SCHEMA_URL.to_string()), ..self }
        }
    }
}

/// A configuration that was saved reads back: where the file holds what was written, loading
/// it gives the configuration as it was, with the place of its schema filled in where there was
/// none.
pub proof fn law_saved_config_reads_back(
    c: AoConfig,
    written: AoConfig,
    unknown: Vec<String>,
    r: Result<AoConfig, AoError>,
)
    requires
        is_stamped(c, written),
        loaded(ConfigFile::Parsed { config: written, unknown }, r),
    ensures
        r matches Ok(x) && x == (AoConfig { schema_url: x.schema_url, ..c }) && opt_text(
            x.schema_url,
        ) == match c.schema_url {
            Some(url) => if url@.len() == 0 {
                Some(SCHEMA_URL@)
            } else {
                Some(url@)
            },
            None => Some(SCHEMA_URL@),
        },
{
}

/// A configuration that is written again keeps the place of its schema.
pub proof fn law_stamp_is_kept(url: Option<Seq<char>>)
    ensures
        stamp(stamp(url)) == stamp(url),
        stamp(url) matches Some(u) && u.len() > 0,
{
    reveal_strlit("https://raw.githubusercontent.com/duonghb53/ao-rs/main/schema/ao-rs.schema.json");
}

/// Only a file that is not there may be missing: then the configuration that applies without a file
/// takes its place. A file that is there but cannot be read or understood is an error, and one that
/// can is taken as it is.
pub proof fn law_only_a_missing_file_is_made_up_for(file: ConfigFile, r: Result<AoConfig, AoError>)
    requires
        loaded_or_blank(file, r),
    ensures
        file is Missing ==> (r matches Ok(c) && blank(c)),
        file is Unreadable ==> (r matches Err(e) && e is Io),
        file is Malformed ==> (r matches Err(e) && e is Yaml),
        file matches ConfigFile::Parsed { config, .. } ==> r == Ok::<AoConfig, AoError>(config),
        !(file is Missing) ==> loaded(file, r),
{
}

} // verus!
