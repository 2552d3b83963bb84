use ao_core::error::AoError;
use ao_core::gh::{
    check_cooldown, error_output, failure_message, gh_environment, run_gh, GhReply,
    SUBPROCESS_TIMEOUT,
};
use ao_core::instructions_file::{
    instructions_file_name, write_instructions_file, NativeAgent, SENTINEL_END, SENTINEL_START,
};
use ao_core::lockfile::{is_process_alive, read_pidfile, LockError, PidFile, Probe};
use ao_core::paths::{is_absolute, path_join};

fn native() -> NativeAgent {
    NativeAgent { name: "native".into(), file: "NATIVE.md".into(), environment: "n".into() }
}

#[test]
fn native_agent_maps_to_its_own_file() {
    assert_eq!(instructions_file_name("native", &native()), "NATIVE.md");
}

#[test]
fn codex_maps_to_agents_md() {
    assert_eq!(instructions_file_name("codex", &native()), "AGENTS.md");
}

#[test]
fn opencode_maps_to_agents_md() {
    assert_eq!(instructions_file_name("opencode", &native()), "AGENTS.md");
}

#[test]
fn unknown_agent_maps_to_agents_md() {
    assert_eq!(instructions_file_name("aider", &native()), "AGENTS.md");
}

#[test]
fn creates_new_file_with_sentinel_block() {
    let content = write_instructions_file("", "do the thing");
    assert!(content.contains(SENTINEL_START));
    assert!(content.contains(SENTINEL_END));
    assert!(content.contains("do the thing"));
    assert_eq!(
        content,
        "<!-- AO_PROMPT_START -->\ndo the thing\n<!-- AO_PROMPT_END -->\n"
    );
}

#[test]
fn appends_to_existing_file_without_sentinel() {
    let content = write_instructions_file("# My project rules\nBe careful.", "task prompt");
    assert!(content.starts_with("# My project rules"));
    assert!(content.contains(SENTINEL_START));
    assert!(content.contains("task prompt"));
    assert!(content.starts_with("# My project rules\nBe careful.\n\n<!-- AO_PROMPT_START -->\n"));
}

#[test]
fn replaces_existing_sentinel_block() {
    let initial = format!("{SENTINEL_START}\nold prompt\n{SENTINEL_END}\n");
    let content = write_instructions_file(&initial, "new prompt");
    assert!(!content.contains("old prompt"));
    assert!(content.contains("new prompt"));
}

#[test]
fn preserves_content_before_and_after_sentinel() {
    let initial = format!("# Before\n\n{SENTINEL_START}\nold\n{SENTINEL_END}\n\n## After section");
    let content = write_instructions_file(&initial, "fresh");
    assert!(content.contains("# Before"));
    assert!(content.contains("## After section"));
    assert!(content.contains("fresh"));
    assert!(!content.contains("old"));
    assert_eq!(
        content,
        format!("# Before\n\n{SENTINEL_START}\nfresh\n{SENTINEL_END}\n\n## After section")
    );
}

#[test]
fn writing_a_prompt_again_changes_nothing() {
    for existing in [
        "".to_string(),
        "rules  \n\n".to_string(),
        format!("a\n{SENTINEL_START}\nx\n{SENTINEL_END} \t b\u{e9}"),
        format!("{SENTINEL_START}{SENTINEL_END}"),
    ] {
        let once = write_instructions_file(&existing, "p1");
        assert_eq!(write_instructions_file(&once, "p1"), once);
        assert_eq!(
            write_instructions_file(&once, "p2"),
            write_instructions_file(&existing, "p2")
        );
    }
}

#[test]
fn lines_that_do_not_pair_up_are_no_prompt() {
    let reversed = format!("{SENTINEL_END}\n{SENTINEL_START}");
    let content = write_instructions_file(&reversed, "p");
    assert!(content.starts_with(&reversed));
    assert!(content.ends_with(&format!("\n\n{SENTINEL_START}\np\n{SENTINEL_END}\n")));
    // A file with nothing but white space loses it, but keeps the blank lines.
    assert_eq!(
        write_instructions_file(" \n", "p"),
        format!("\n\n{SENTINEL_START}\np\n{SENTINEL_END}\n")
    );
}

#[test]
fn acquire_when_no_file_writes_our_pid() {
    let lock = PidFile::acquire("/run/ao.pid".into(), None, false, 4242).unwrap();
    assert_eq!(lock.pid(), 4242);
    assert_eq!(lock.path(), "/run/ao.pid");
    let written = lock.contents();
    assert_eq!(written, "4242\n");
    assert_eq!(read_pidfile(Some(&written)), Some(4242));
    assert!(lock.release(Some(&written)), "drop should remove the pidfile");
}

#[test]
fn acquire_replaces_stale_pidfile() {
    let lock = PidFile::acquire("/run/ao.pid".into(), Some("999999\n"), false, 7).unwrap();
    assert_eq!(read_pidfile(Some(&lock.contents())), Some(7));
}

#[test]
fn acquire_rejects_live_other_pid() {
    match PidFile::acquire("/run/ao.pid".into(), Some("1\n"), true, 7) {
        Err(LockError::HeldBy { pid, path }) => {
            assert_eq!(pid, 1);
            assert_eq!(path, "/run/ao.pid");
        }
        other => panic!("expected HeldBy(1), got {other:?}"),
    }
}

#[test]
fn acquire_takes_over_a_file_of_our_own() {
    assert!(PidFile::acquire("/run/ao.pid".into(), Some("7\n"), true, 7).is_ok());
    assert!(PidFile::acquire("/run/ao.pid".into(), Some("garbage"), true, 7).is_ok());
}

#[test]
fn drop_does_not_remove_file_if_stolen() {
    let lock = PidFile::acquire("/run/ao.pid".into(), None, false, 7).unwrap();
    assert!(!lock.release(Some("1\n")));
    let lock = PidFile::acquire("/run/ao.pid".into(), None, false, 7).unwrap();
    assert!(!lock.release(None));
}

#[test]
fn pidfiles_are_trimmed_and_parsed() {
    assert_eq!(read_pidfile(Some(" 12 \r\n")), Some(12));
    assert_eq!(read_pidfile(Some("+12")), Some(12));
    assert_eq!(read_pidfile(Some("4294967295")), Some(u32::MAX));
    assert_eq!(read_pidfile(Some("4294967296")), None);
    assert_eq!(read_pidfile(Some("-1")), None);
    assert_eq!(read_pidfile(Some("")), None);
    assert_eq!(read_pidfile(None), None);
}

#[test]
fn is_process_alive_returns_false_for_zero() {
    assert!(!is_process_alive(0, Probe::Delivered));
}

#[test]
fn a_process_of_someone_else_is_alive() {
    assert!(is_process_alive(1, Probe::Delivered));
    assert!(is_process_alive(0x7fff_ffff, Probe::Delivered));
    assert!(!is_process_alive(0x8000_0000, Probe::Delivered));
    assert!(!is_process_alive(u32::MAX, Probe::Delivered));
    assert!(is_process_alive(1, Probe::NotPermitted));
    assert!(!is_process_alive(1, Probe::Failed));
}

#[test]
fn lock_errors_have_a_text() {
    assert_eq!(
        LockError::HeldBy { pid: 12, path: "/a".into() }.message(),
        "pidfile /a held by live process 12"
    );
    assert_eq!(LockError::Io("no space".into()).message(), "pidfile io: no space");
}

fn scm(r: Result<String, AoError>) -> String {
    match r {
        Err(AoError::Scm(s)) => s,
        other => panic!("expected an scm error, got {other:?}"),
    }
}

#[test]
fn gh_replies_are_told_apart() {
    let args: Vec<String> = vec!["pr".into(), "list".into()];
    assert_eq!(scm(run_gh(&args, &GhReply::TimedOut)), "gh pr list timed out");
    assert_eq!(
        scm(run_gh(&args, &GhReply::NotStarted("not found".into()))),
        "gh spawn failed: not found"
    );
    let failed = GhReply::Ended {
        success: false,
        stdout: b"ignored".to_vec(),
        stderr: b"  HTTP 404\n".to_vec(),
    };
    assert_eq!(scm(run_gh(&args, &failed)), "gh pr list failed: HTTP 404");
    assert_eq!(error_output(&failed), Some("  HTTP 404\n".to_string()));
    let fine = GhReply::Ended { success: true, stdout: b"[\xff]\n".to_vec(), stderr: vec![] };
    assert_eq!(run_gh(&args, &fine).unwrap(), "[\u{fffd}]\n");
    assert_eq!(error_output(&fine), None);
    assert_eq!(error_output(&GhReply::TimedOut), None);
    assert_eq!(failure_message(&vec![], " x "), "gh  failed: x");
    assert_eq!(SUBPROCESS_TIMEOUT, 30);
}

#[test]
fn gh_is_not_run_while_requests_are_limited() {
    assert!(check_cooldown(false).is_ok());
    assert_eq!(
        check_cooldown(true),
        Err(AoError::Scm(
            "GitHub rate-limit cooldown active; skipping gh subprocess".to_string()
        ))
    );
    assert_eq!(
        gh_environment(),
        vec![("GH_PAGER", "cat"), ("GH_NO_UPDATE_NOTIFIER", "1"), ("NO_COLOR", "1")]
    );
}

#[test]
fn paths_are_joined() {
    assert_eq!(path_join("/a/", "b"), "/a/b");
    assert_eq!(path_join("/a", "b"), "/a/b");
    assert_eq!(path_join("", "b"), "b");
    assert_eq!(path_join("/a", "/b"), "/b");
    assert!(is_absolute("/"));
    assert!(!is_absolute(""));
}

#[test]
fn errors_have_a_text() {
    let s = || "x".to_string();
    assert_eq!(AoError::SessionNotFound(s()).message(), "session not found: x");
    assert_eq!(AoError::Runtime(s()).message(), "runtime error: x");
    assert_eq!(AoError::Workspace(s()).message(), "workspace error: x");
    assert_eq!(AoError::Agent(s()).message(), "agent error: x");
    assert_eq!(AoError::Scm(s()).message(), "scm error: x");
    assert_eq!(AoError::Io(s()).message(), "io: x");
    assert_eq!(AoError::Yaml(s()).message(), "yaml: x");
    assert_eq!(AoError::Config(s()).message(), "x");
    assert_eq!(AoError::Other(s()).message(), "x");
}
