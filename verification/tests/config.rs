use ao_core::instructions_file::NativeAgent;
use ao_core::config::agent::{
    ai_devkit_config_json, default_agent_rules, default_orchestrator_rules, install_failure,
    install_skills, AgentConfig, InstallReply, PermissionsMode,
};
use ao_core::config::lifecycle::LifecycleConfig;
use ao_core::config::power::{
    default_agent, DefaultsConfig, PluginConfig, PowerConfig, RoleAgentConfig, ScmWebhookConfig,
};
use ao_core::config::project::{
    default_branch_name, detect_git_repo, detect_remote, last_part, new_project, parse_owner_repo,
    parse_remote, CommandReply,
};
use ao_core::config::reactions::{
    default_reactions, default_routing, supported_notifier_names, supported_reaction_keys,
};
use ao_core::config::validation::{
    bad_duration_message, bad_project_message, find_project_fault, is_repo_slug,
    unknown_notifier_message, unknown_reaction_message, ProjectFault,
};
use ao_core::config::{
    generate_config, yaml_field_path, AoConfig, ConfigFile, CONFIG_FILENAME, SCHEMA_URL,
};
use ao_core::error::AoError;
use ao_core::reactions::{
    parse_duration, EscalateAfter, EventPriority, ReactionAction, ReactionConfig,
};

fn check_default_reactions() {
    let reactions = default_reactions();
    assert_eq!(reactions.len(), 9);
    assert!(reactions.contains_key("ci-failed"));
    assert!(reactions.contains_key("changes-requested"));
    assert!(reactions.contains_key("merge-conflicts"));
    assert!(reactions.contains_key("approved-and-green"));
    assert!(reactions.contains_key("agent-idle"));
    assert!(reactions.contains_key("agent-stuck"));
    assert!(reactions.contains_key("agent-needs-input"));
    assert!(reactions.contains_key("agent-exited"));
    assert!(reactions.contains_key("all-complete"));
    for key in reactions.keys() {
        let rc = reactions.get(&key).unwrap();
        assert!(rc.priority.is_none(), "{key}: the priority is left open");
    }
}

fn check_default_routing() {
    let routing = default_routing();
    assert_eq!(routing.len(), 4);
    assert!(!routing.is_empty());
    for p in [
        EventPriority::Urgent,
        EventPriority::Action,
        EventPriority::Warning,
        EventPriority::Info,
    ] {
        assert!(routing.names_for(p).is_some());
        assert_eq!(*routing.names_for(p).unwrap(), vec!["stdout".to_string()]);
    }
}

#[test]
fn config_default_reactions_has_nine_keys() {
    check_default_reactions();
}

#[test]
fn reactions_default_reactions_has_nine_keys() {
    check_default_reactions();
}

#[test]
fn config_default_routing_covers_all_priorities() {
    check_default_routing();
}

#[test]
fn reactions_default_routing_covers_all_priorities() {
    check_default_routing();
}

#[test]
fn default_reactions_say_what_they_should() {
    let r = default_reactions();
    let ci = r.get("ci-failed").unwrap();
    assert_eq!(ci.action, ReactionAction::SendToAgent);
    assert_eq!(
        ci.message.as_deref(),
        Some("CI is failing on your PR. Run `gh pr checks` to see the failures, fix them, and push.")
    );
    assert_eq!(ci.retries, Some(2));
    assert_eq!(ci.escalate_after, Some(EscalateAfter::Attempts(2)));
    let review = r.get("changes-requested").unwrap();
    assert_eq!(review.escalate_after, Some(EscalateAfter::Duration("30m".into())));
    assert_eq!(r.get("approved-and-green").unwrap().action, ReactionAction::AutoMerge);
    assert_eq!(r.get("agent-stuck").unwrap().threshold.as_deref(), Some("10m"));
    assert!(r.get("all-complete").unwrap().include_summary);
    assert!(!r.get("agent-exited").unwrap().include_summary);
    for key in r.keys() {
        let c = r.get(&key).unwrap();
        assert!(c.auto);
        assert!(c.merge_method.is_none());
    }
    assert_eq!(supported_reaction_keys(), r.keys());
    assert_eq!(supported_notifier_names(), vec!["stdout", "desktop", "ntfy", "discord", "slack"]);
}

fn check_https() {
    assert_eq!(parse_owner_repo("https://github.com/owner/repo.git"), Some("owner/repo".into()));
    assert_eq!(parse_owner_repo("https://github.com/owner/repo"), Some("owner/repo".into()));
}

fn check_ssh() {
    assert_eq!(parse_owner_repo("git@github.com:owner/repo.git"), Some("owner/repo".into()));
    assert_eq!(parse_owner_repo("git@github.com:owner/repo"), Some("owner/repo".into()));
}

#[test]
fn config_parse_owner_repo_https() {
    check_https();
}

#[test]
fn project_parse_owner_repo_https() {
    check_https();
}

#[test]
fn config_parse_owner_repo_ssh() {
    check_ssh();
}

#[test]
fn project_parse_owner_repo_ssh() {
    check_ssh();
}

#[test]
fn odd_addresses_of_remotes() {
    assert_eq!(parse_owner_repo(" https://h/a/b.git.git \n"), Some("a/b".into()));
    assert_eq!(parse_owner_repo("git@h:a/b.git"), parse_owner_repo("https://h/a/b"));
    assert_eq!(parse_owner_repo("https://host"), None);
    assert_eq!(parse_owner_repo("https://host/"), Some("".into()));
    assert_eq!(parse_owner_repo("git@host:a:b"), Some("a".into()));
    assert_eq!(parse_owner_repo("git@host/a/b"), None);
    assert_eq!(parse_owner_repo("ssh://git@host/a/b"), None);
    assert_eq!(parse_owner_repo(".git"), None);
    assert_eq!(last_part("a/b/c"), "c");
    assert_eq!(last_part("abc"), "abc");
    assert_eq!(last_part("a/"), "");
}

#[test]
fn permissions_mode_display_roundtrip() {
    assert_eq!(PermissionsMode::Permissionless.as_str(), "permissionless");
    assert_eq!(PermissionsMode::Default.as_str(), "default");
    assert_eq!(PermissionsMode::AutoEdit.as_str(), "auto-edit");
    assert_eq!(PermissionsMode::Suggest.as_str(), "suggest");
}

#[test]
fn power_config_default_is_platform_aware() {
    assert!(
        PowerConfig::default_for("macos").prevent_idle_sleep,
        "macOS: prevent_idle_sleep should default to true"
    );
    assert!(
        !PowerConfig::default_for("linux").prevent_idle_sleep,
        "non-macOS: prevent_idle_sleep should default to false"
    );
}

fn native() -> NativeAgent {
    NativeAgent { name: "native".into(), file: "NATIVE.md".into(), environment: "env".into() }
}

#[test]
fn config_defaults_config_roundtrip() {
    check_defaults();
}

#[test]
fn power_defaults_config_roundtrip() {
    check_defaults();
}

fn check_defaults() {
    let dc = DefaultsConfig::default_for(&native());
    assert_eq!(dc.runtime, "tmux");
    assert_eq!(dc.workspace, "worktree");
    assert_eq!(dc.tracker, "github");
    assert!(dc.notifiers.is_empty());
    assert_eq!(dc.orchestrator_rules.as_deref(), Some(default_orchestrator_rules()));
    assert!(dc.orchestrator.is_none());
    assert!(dc.branch_namespace.is_none());
}

#[test]
fn the_native_agent_runs_by_default() {
    assert_eq!(default_agent(&native()), "native");
    assert_eq!(DefaultsConfig::default_for(&native()).agent, "native");
    assert_eq!(sample().defaults.unwrap().agent, "native");
}

#[test]
fn defaults_of_the_rest() {
    assert!(LifecycleConfig::default().auto_terminate_on_merge);
    assert!(ScmWebhookConfig::default().enabled);
    assert!(PluginConfig::default().extra.is_empty());
    assert_eq!(PermissionsMode::default(), PermissionsMode::Permissionless);
    assert_eq!(default_branch_name(), "main");
    let a = AgentConfig::default();
    assert_eq!(a.rules.as_deref(), Some(default_agent_rules()));
    assert!(a.rules_file.is_none());
    assert!(default_agent_rules().starts_with("\nRules:\n- When spawned from an issue,"));
    assert!(default_agent_rules().ends_with("type system or compiler already guarantees."));
    assert!(default_orchestrator_rules().starts_with("After spawning a worker, do NOT stop."));
}

#[test]
fn rules_of_a_file_come_first() {
    let mut a = AgentConfig::default();
    a.rules = Some("inline".into());
    assert_eq!(a.rules_path(Some("/p")), None);
    assert_eq!(a.resolve_rules(Some("file".into())).as_deref(), Some("inline"));
    a.rules_file = Some("agent.txt".into());
    assert_eq!(a.rules_path(Some("/p")).as_deref(), Some("/p/agent.txt"));
    assert_eq!(a.rules_path(None).as_deref(), Some("agent.txt"));
    assert_eq!(a.resolve_rules(Some("file".into())).as_deref(), Some("file"));
    assert_eq!(a.resolve_rules(None), None);
    a.rules = None;
    assert_eq!(a.resolve_rules(None), None);
}

#[test]
fn skills_are_described_in_json() {
    let text = ai_devkit_config_json("env", 1700);
    let v: serde_json::Value = serde_json::from_str(&text).unwrap();
    assert_eq!(v["version"], "0.21.1");
    assert_eq!(v["createdAt"], "1700");
    assert_eq!(v["updatedAt"], "1700");
    assert_eq!(v["environments"][0], "env");
    assert_eq!(v["phases"].as_array().unwrap().len(), 7);
    assert_eq!(v["skills"].as_array().unwrap().len(), 5);
    assert_eq!(v["skills"][4]["name"], "tdd");
}

#[test]
fn installing_skills_can_fail() {
    assert_eq!(install_skills(&InstallReply::Ended { success: true, stderr: vec![] }), Ok(()));
    assert_eq!(
        install_skills(&InstallReply::NotFound),
        Err(AoError::Other(
            "npx not found. Install Node.js and run: npx ai-devkit@latest init".into()
        ))
    );
    assert_eq!(
        install_skills(&InstallReply::NotStarted("denied".into())),
        Err(AoError::Other("failed to run npx ai-devkit install: denied".into()))
    );
    assert_eq!(
        install_skills(&InstallReply::Ended { success: false, stderr: b"E\xc3\x28\n".to_vec() }),
        Err(install_failure("E\u{fffd}(\n"))
    );
}

fn ended(success: bool, text: &str) -> CommandReply {
    CommandReply::Ended { success, stdout: text.as_bytes().to_vec() }
}

#[test]
fn repositories_are_detected() {
    assert_eq!(
        detect_git_repo(&ended(true, "git@github.com:o/r.git\n"), &ended(true, "dev\n")),
        Ok(("o/r".into(), "r".into(), "dev".into()))
    );
    assert_eq!(
        detect_git_repo(&ended(true, "https://github.com/o/r"), &ended(false, "")),
        Ok(("o/r".into(), "r".into(), "main".into()))
    );
    assert_eq!(
        detect_remote(&ended(false, "")),
        Err(AoError::Other("no git remote 'origin' found — run from inside a git repo".into()))
    );
    assert_eq!(
        detect_git_repo(&ended(true, " file:///x \n"), &ended(true, "dev")),
        Err(AoError::Other("could not parse owner/repo from remote URL: file:///x".into()))
    );
    assert_eq!(
        detect_git_repo(&CommandReply::NotStarted("no git".into()), &ended(true, "dev")),
        Err(AoError::Io("no git".into()))
    );
    assert_eq!(
        detect_git_repo(
            &ended(true, "https://h/o/r"),
            &CommandReply::NotStarted("no git".into())
        ),
        Err(AoError::Io("no git".into()))
    );
    assert_eq!(parse_remote("git@h:a/b/c"), Ok(("a/b/c".into(), "c".into())));
}

fn sample() -> AoConfig {
    generate_config("org/demo".into(), "demo".into(), "main".into(), "/tmp/demo".into(), &native())
}

fn reaction(action: ReactionAction) -> ReactionConfig {
    ReactionConfig {
        auto: true,
        action,
        message: None,
        priority: None,
        retries: None,
        escalate_after: None,
        threshold: None,
        include_summary: false,
        merge_method: None,
    }
}

fn fault(c: &AoConfig) -> String {
    match c.validate("/p/ao-rs.yaml") {
        Err(AoError::Config(e)) => e,
        other => panic!("expected a fault, got {other:?}"),
    }
}

#[test]
fn config_generate_config_includes_orchestrator_fields() {
    let c = sample();
    let d = c.defaults.as_ref().unwrap();
    assert_eq!(d.orchestrator_rules.as_deref(), Some(default_orchestrator_rules()));
    let o = d.orchestrator.as_ref().unwrap();
    assert_eq!(o.agent.as_deref(), Some("cursor"));
    assert_eq!(o.agent_config.as_ref().unwrap().permissions, PermissionsMode::Permissionless);
    assert!(o.agent_config.as_ref().unwrap().rules.is_none());
    let w: &RoleAgentConfig = d.worker.as_ref().unwrap();
    assert_eq!(w.agent.as_deref(), Some("cursor"));
    assert!(w.agent_config.is_none());
    let p = c.projects.get("demo").unwrap();
    assert_eq!(p.repo, "org/demo");
    assert_eq!(p.path, "/tmp/demo");
    assert_eq!(p.default_branch, "main");
    assert!(p.agent_config.is_some());
    assert_eq!((c.port, c.ready_threshold_ms, c.poll_interval), (3000, 300_000, 10));
    assert_eq!(c.reactions.len(), 9);
    assert!(c.validate("x").is_ok());
}

#[test]
fn config_validate_rejects_unknown_reaction_key() {
    let mut c = AoConfig::default();
    c.reactions.insert("ci-filed".into(), reaction(ReactionAction::Notify));
    assert_eq!(
        fault(&c),
        "/p/ao-rs.yaml: unknown reaction key `reactions.ci-filed` (supported: agent-exited, \
         agent-idle, agent-needs-input, agent-stuck, all-complete, approved-and-green, \
         changes-requested, ci-failed, merge-conflicts)"
    );
    assert_eq!(fault(&c), unknown_reaction_message("/p/ao-rs.yaml", "ci-filed"));
}

#[test]
fn config_validate_rejects_bad_duration() {
    let mut c = AoConfig::default();
    let mut stuck = reaction(ReactionAction::Notify);
    stuck.threshold = Some("10 \"minutes\"".into());
    c.reactions.insert("agent-stuck".into(), stuck);
    assert_eq!(
        fault(&c),
        "/p/ao-rs.yaml: invalid duration at `reactions.agent-stuck.threshold`: \
         \"10 \\\"minutes\\\"\" (expected like \"10s\", \"5m\", \"2h\")"
    );
    assert_eq!(
        fault(&c),
        bad_duration_message(
            "/p/ao-rs.yaml",
            "agent-stuck",
            "threshold",
            "\"10 \\\"minutes\\\"\""
        )
    );
    let mut c = AoConfig::default();
    let mut ci = reaction(ReactionAction::SendToAgent);
    ci.escalate_after = Some(EscalateAfter::Duration("soon".into()));
    ci.threshold = Some("5m".into());
    c.reactions.insert("ci-failed".into(), ci);
    assert_eq!(
        fault(&c),
        "/p/ao-rs.yaml: invalid duration at `reactions.ci-failed.escalate_after`: \"soon\" \
         (expected like \"10s\", \"5m\", \"2h\")"
    );
}

#[test]
fn config_validate_rejects_unknown_notifier_name_in_routing() {
    let mut c = AoConfig::default();
    c.notification_routing.warning = Some(vec!["stdout".into(), "pager".into()]);
    assert_eq!(
        fault(&c),
        "/p/ao-rs.yaml: unknown notifier name at `notification_routing.warning[]`: \"pager\" \
         (supported: stdout, desktop, ntfy, discord, slack)"
    );
    let mut d = DefaultsConfig::default_for(&native());
    d.notifiers = vec!["slak".into()];
    c.defaults = Some(d);
    assert_eq!(
        fault(&c),
        unknown_notifier_message("/p/ao-rs.yaml", "defaults.notifiers", "\"slak\"")
    );
    c.notification_routing.urgent = Some(vec!["x".into()]);
    c.defaults = None;
    assert_eq!(
        fault(&c),
        unknown_notifier_message("/p/ao-rs.yaml", "notification_routing.urgent[]", "\"x\"")
    );
}

#[test]
fn projects_need_a_repository_and_a_place() {
    assert!(is_repo_slug("o/r"));
    for bad in ["o", "o/r/x", "/r", "o/", " /r", "", "//"] {
        assert!(!is_repo_slug(bad), "{bad:?}");
    }
    assert_eq!(find_project_fault("o/r", " /x "), None);
    assert_eq!(find_project_fault("o/r", "  "), Some(ProjectFault::NoPath));
    assert_eq!(find_project_fault("o/r", "~/x"), Some(ProjectFault::HomePath));
    assert_eq!(find_project_fault("o/r", "x"), Some(ProjectFault::RelativePath));
    assert_eq!(find_project_fault("o", "~/x"), Some(ProjectFault::Slug));
    for (repo, path, said) in [
        ("o", "/x", "c: invalid repo slug at `projects.app.repo`: \"o\" (expected \"owner/repo\")"),
        ("o/r", " ", "c: empty path at `projects.app.path`"),
        (
            "o/r",
            "~/x",
            "c: `projects.app.path` must be an absolute path (found \"~/x\"; `~` is not supported here)",
        ),
        ("o/r", "x", "c: `projects.app.path` must be an absolute path (found \"x\")"),
    ] {
        let mut c = AoConfig::default();
        c.projects.insert("app".into(), new_project(repo.into(), path.into(), "main".into()));
        assert_eq!(c.validate("c"), Err(AoError::Config(said.into())));
    }
    assert_eq!(
        bad_project_message("c", "app", ProjectFault::NoPath, ""),
        "c: empty path at `projects.app.path`"
    );
}

#[test]
fn validate_rejects_duplicate_project_basename() {
    let mut c = AoConfig::default();
    let project = |repo: &str, path: &str| new_project(repo.into(), path.into(), "main".into());
    c.projects.insert("proj-a".into(), project("org/app", "/home/user/app"));
    assert!(c.validate("c").is_ok());
    c.projects.insert("proj-b".into(), project("org/app2", "/home/other/app"));
    assert_eq!(
        c.validate("c"),
        Err(AoError::Config("c: Duplicate project ID: app".into()))
    );
    c.projects.insert("proj-b".into(), project("org/app2", "/home/other/app//"));
    assert!(c.validate("c").is_err());
    c.projects.insert("proj-b".into(), project("org/app2", "/home/app/other"));
    assert!(c.validate("c").is_ok());
}

#[test]
fn validate_rejects_duplicate_session_prefix() {
    let mut c = AoConfig::default();
    let mut a = new_project("org/app".into(), "/home/user/my-app".into(), "main".into());
    a.session_prefix = Some("myapp".into());
    let mut b = new_project("org/other".into(), "/home/user/other-app".into(), "main".into());
    b.session_prefix = Some("myapp".into());
    c.projects.insert("proj-a".into(), a);
    c.projects.insert("proj-b".into(), b);
    assert_eq!(
        c.validate("c"),
        Err(AoError::Config("c: Duplicate session prefix: myapp".into()))
    );
}

#[test]
fn faults_are_reported_in_order() {
    let mut c = sample();
    let mut bad = reaction(ReactionAction::Notify);
    bad.threshold = Some("".into());
    c.reactions.insert("agent-stuck".into(), bad);
    c.notification_routing.info = Some(vec!["nobody".into()]);
    c.projects.insert("zzz".into(), new_project("x".into(), "".into(), "main".into()));
    assert!(fault(&c).contains("invalid duration"));
    c.reactions.insert("agent-stuck".into(), reaction(ReactionAction::Notify));
    assert!(fault(&c).contains("notification_routing.info[]"));
    c.notification_routing.info = None;
    assert!(fault(&c).contains("projects.zzz.repo"));
    c.reactions.insert("nonsense".into(), reaction(ReactionAction::Notify));
    assert!(fault(&c).contains("reactions.nonsense"));
}

#[test]
fn config_load_from_with_warnings_reports_unknown_fields() {
    let file = ConfigFile::Parsed {
        config: AoConfig::default(),
        unknown: vec!["unknownTopLevel".into(), ".defaults.unknownDefaultsKey".into()],
    };
    let loaded = AoConfig::load_from_with_warnings(file, "c").ok().unwrap();
    let fields: Vec<&str> = loaded.warnings.iter().map(|w| w.field.as_str()).collect();
    assert_eq!(fields, vec!["unknownTopLevel", "defaults.unknownDefaultsKey"]);
    assert!(loaded.warnings.iter().all(|w| w.message
        == "unknown field; this key is not supported and will be ignored"));
    assert_eq!(yaml_field_path("..a.b"), "a.b");
    assert_eq!(yaml_field_path(""), "");
}

fn error(r: Result<AoConfig, AoError>) -> AoError {
    match r {
        Err(e) => e,
        Ok(_) => panic!("expected an error"),
    }
}

#[test]
fn config_load_from_or_default_missing_file_returns_empty() {
    let c = AoConfig::load_from_or_default(ConfigFile::Missing("gone".into())).ok().unwrap();
    assert!(c.reactions.is_empty());
    assert!(c.projects.is_empty());
    assert!(c.notification_routing.is_empty());
    let l = AoConfig::load_from_or_default_with_warnings(
        ConfigFile::Missing("gone".into()),
        "c",
    );
    assert!(l.ok().unwrap().warnings.is_empty());
}

#[test]
fn config_load_from_invalid_yaml_errors() {
    let file = || ConfigFile::Malformed("line 1".into());
    assert_eq!(error(AoConfig::load_from(file())), AoError::Yaml("line 1".into()));
    assert_eq!(error(AoConfig::load_from_or_default(file())), AoError::Yaml("line 1".into()));
    assert_eq!(
        AoConfig::load_from_with_warnings(file(), "c").err(),
        Some(AoError::Yaml("line 1".into()))
    );
}

#[test]
fn a_file_that_cannot_be_read_is_an_error() {
    let denied = || ConfigFile::Unreadable("denied".into());
    assert_eq!(error(AoConfig::load_from(denied())), AoError::Io("denied".into()));
    assert_eq!(error(AoConfig::load_from_or_default(denied())), AoError::Io("denied".into()));
    assert_eq!(
        AoConfig::load_from_or_default_with_warnings(denied(), "c").err(),
        Some(AoError::Io("denied".into()))
    );
    assert_eq!(
        error(AoConfig::load_from(ConfigFile::Missing("gone".into()))),
        AoError::Io("gone".into())
    );
    assert_eq!(
        AoConfig::load_from_with_warnings(ConfigFile::Missing("gone".into()), "c").err(),
        Some(AoError::Io("gone".into()))
    );
}

#[test]
fn a_file_that_makes_no_sense_is_an_error() {
    let mut c = AoConfig::default();
    c.reactions.insert("nonsense".into(), reaction(ReactionAction::Notify));
    let file = ConfigFile::Parsed { config: c, unknown: vec![] };
    assert_eq!(
        AoConfig::load_from_with_warnings(file, "c").err(),
        Some(AoError::Config(unknown_reaction_message("c", "nonsense")))
    );
}

#[test]
fn save_to_injects_schema_url() {
    assert_eq!(AoConfig::default().stamped().schema_url.as_deref(), Some(SCHEMA_URL));
    let mut blank = AoConfig::default();
    blank.schema_url = Some("".into());
    assert_eq!(blank.stamped().schema_url.as_deref(), Some(SCHEMA_URL));
}

#[test]
fn a_saved_config_reads_back() {
    let mut c = AoConfig::default();
    c.port = 4123;
    c.poll_interval = 7;
    let read = ConfigFile::Parsed { config: c.stamped(), unknown: vec![] };
    let c = AoConfig::load_from(read).ok().unwrap();
    assert_eq!((c.port, c.poll_interval), (4123, 7));
    assert_eq!(c.schema_url.as_deref(), Some(SCHEMA_URL));
    let mut own = AoConfig::default();
    own.schema_url = Some("file:///own.json".into());
    let read = ConfigFile::Parsed { config: own.stamped(), unknown: vec![] };
    let own = AoConfig::load_from(read).ok().unwrap();
    assert_eq!(own.schema_url.as_deref(), Some("file:///own.json"));
}

#[test]
fn save_to_preserves_existing_schema_url() {
    let mut c = sample();
    c.schema_url = Some("https://example.com/s.json".into());
    let c = c.stamped();
    assert_eq!(c.schema_url.as_deref(), Some("https://example.com/s.json"));
    assert_eq!(c.reactions.len(), 9);
}

#[test]
fn the_nearest_file_is_the_configuration() {
    assert_eq!(
        AoConfig::config_candidates("/a/b"),
        vec!["/a/b/ao-rs.yaml", "/a/ao-rs.yaml", "/ao-rs.yaml"]
    );
    assert_eq!(AoConfig::config_candidates("x"), vec!["x/ao-rs.yaml", "ao-rs.yaml"]);
    assert_eq!(
        AoConfig::discover_path_from("/a/b", &vec![false, true, true]),
        "/a/ao-rs.yaml"
    );
    assert_eq!(
        AoConfig::discover_path_from("/a/b", &vec![false, false, false]),
        "/a/b/ao-rs.yaml"
    );
    assert_eq!(
        AoConfig::nearest_path("/s", &vec!["/p".into(), "/q".into()], &vec![false, true]),
        "/q/ao-rs.yaml"
    );
    assert_eq!(AoConfig::path_in("/d"), format!("/d/{CONFIG_FILENAME}"));
}

#[test]
fn durations_are_digits_and_a_unit() {
    assert_eq!(parse_duration("10s"), Some(10));
    assert_eq!(parse_duration("5m"), Some(300));
    assert_eq!(parse_duration("2h"), Some(7200));
    for bad in ["", "s", "10", "10d", "-1s", "1.5h", " 1s", "1s "] {
        assert_eq!(parse_duration(bad), None, "{bad:?}");
    }
    assert_eq!(parse_duration("18446744073709551616s"), None);
}

#[test]
fn plugin_settings_keep_what_they_do_not_know() {
    let mut p = PluginConfig::default();
    p.extra.insert("topic".into(), serde_yaml::Value::String("builds".into()));
    assert_eq!(p.extra.get("topic").and_then(|v| v.as_str()), Some("builds"));
}
