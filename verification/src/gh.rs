//! Running the `gh` command of GitHub.

use vstd::prelude::*;
use vstd::string::*;

use crate::decode::{lossy, lossy_text};
use crate::error::AoError;
use crate::text::{join, joined, texts, trim, trimmed};

verus! {

/// How long a command may take, in seconds.
pub const SUBPROCESS_TIMEOUT: u64 = 30;

/// How a command ended.
#[derive(Debug, PartialEq, Eq)]
pub enum GhReply {
    TimedOut,
    /// It could not be started, for the given reason.
    NotStarted(String),
    /// It ended, with success or without, after it had written these bytes.
    Ended { success: bool, stdout: Vec<u8>, stderr: Vec<u8> },
}

/// The variables that are set for a command, so that its output is plain and complete.
pub open spec fn environment() -> Seq<(Seq<char>, Seq<char>)> {
    seq![
        ("GH_PAGER"@, "cat"@),
        ("GH_NO_UPDATE_NOTIFIER"@, "1"@),
        ("NO_COLOR"@, "1"@),
    ]
}

/// The variables that are set for a command.
pub fn gh_environment() -> (r: Vec<(&'static str, &'static str)>)
    ensures
        r@.map_values(|e: (&str, &str)| (e.0@, e.1@)) == environment(),
{
    let mut out: Vec<(&'static str, &'static str)> = Vec::new();
    out.push(("GH_PAGER", "cat"));
    out.push(("GH_NO_UPDATE_NOTIFIER", "1"));
    out.push(("NO_COLOR", "1"));
    assert(out@.map_values(|e: (&str, &str)| (e.0@, e.1@)) =~= environment());
    out
}

/// Why no command is run: while requests are being limited none is.
pub fn check_cooldown(in_cooldown: bool) -> (r: Result<(), AoError>)
    ensures
        match r {
            Ok(_) => !in_cooldown,
            Err(e) => in_cooldown && (e matches AoError::Scm(s) && s@
                == "GitHub rate-limit cooldown active; skipping gh subprocess"@),
        },
{
    if in_cooldown {
        Err(
            AoError::Scm(
                "GitHub rate-limit cooldown active; skipping gh subprocess".to_string(),
            ),
        )
    } else {
        Ok(())
    }
}

/// What is said of a command that took too long.
pub open spec fn timed_out(args: Seq<Seq<char>>) -> Seq<char> {
    "gh "@ + joined(args, " "@) + " timed out"@
}

/// What is said of a command that failed after it had written `stderr`.
pub open spec fn failed(args: Seq<Seq<char>>, stderr: Seq<char>) -> Seq<char> {
    "gh "@ + joined(args, " "@) + " failed: "@ + trim(stderr)
}

/// What is said of a command that failed.
pub fn failure_message(args: &Vec<String>, stderr: &str) -> (r: String)
    ensures
        r@ == failed(texts(args@), stderr@),
{
    let mut out: String = "gh ".to_string();
    let line = join(args, " ");
    out.append(line.as_str());
    out.append(" failed: ");
    let said = trimmed(stderr);
    out.append(said.as_str());
    out
}

/// The text that a command wrote to its error output; whether it tells of limited requests is
/// for the caller to say.
pub fn error_output(reply: &GhReply) -> (r: Option<String>)
    ensures
        match reply {
            GhReply::Ended { success, stdout, stderr } => if *success {
                r is None
            } else {
                r matches Some(s) && s@ == lossy(stderr@)
            },
            _ => r is None,
        },
{
    match reply {
        GhReply::Ended { success, stdout: _, stderr } => if *success {
            None
        } else {
            Some(lossy_text(stderr))
        },
        _ => None,
    }
}

/// What comes of running `gh` with the given arguments is `r`.
pub open spec fn ran(args: Seq<Seq<char>>, reply: GhReply, r: Result<String, AoError>) -> bool {
    match reply {
        GhReply::TimedOut => r matches Err(AoError::Scm(s)) && s@ == timed_out(args),
        GhReply::NotStarted(e) => r matches Err(AoError::Scm(s)) && s@ == "gh spawn failed: "@ + e@,
        GhReply::Ended { success, stdout, stderr } => if success {
            r matches Ok(s) && s@ == lossy(stdout@)
        } else {
            r matches Err(AoError::Scm(s)) && s@ == failed(args, lossy(stderr@))
        },
    }
}

/// What comes of running `gh` with the given arguments: what it wrote, or an error that says
/// what went wrong.
pub fn run_gh(args: &Vec<String>, reply: &GhReply) -> (r: Result<String, AoError>)
    ensures
        ran(texts(args@), *reply, r),
{
    match reply {
        GhReply::TimedOut => {
            let mut out: String = "gh ".to_string();
            let line = join(args, " ");
            out.append(line.as_str());
            out.append(" timed out");
            Err(AoError::Scm(out))
        },
        GhReply::NotStarted(e) => Err(
            AoError::Scm("gh spawn failed: ".to_string().concat(e.as_str())),
        ),
        GhReply::Ended { success, stdout, stderr } => if *success {
            Ok(lossy_text(stdout))
        } else {
            let said = lossy_text(stderr);
            Err(AoError::Scm(failure_message(args, said.as_str())))
        },
    }
}

/// A command that ended with success gives what it wrote, and nothing else does. Every error is one
/// of the code host, and says with which arguments the command failed or took too long.
pub proof fn law_failed_commands_say_so(
    args: Seq<Seq<char>>,
    reply: GhReply,
    r: Result<String, AoError>,
)
    requires
        ran(args, reply, r),
    ensures
        r is Ok <==> (reply matches GhReply::Ended { success, .. } && success),
        r matches Ok(s) ==> s@ == lossy(reply->stdout@),
        r matches Err(e) ==> e is Scm,
        reply is TimedOut ==> (r matches Err(AoError::Scm(s)) && s@ == "gh "@ + joined(args, " "@)
            + " timed out"@),
        reply is Ended && r is Err ==> (r matches Err(AoError::Scm(s)) && s@ == "gh "@ + joined(
            args,
            " "@,
        ) + " failed: "@ + trim(lossy(reply->stderr@))),
        reply matches GhReply::NotStarted(e) ==> (r matches Err(AoError::Scm(s)) && s@
            == "gh spawn failed: "@ + e@),
{
}

/// Commands neither page their output, nor colour it, nor look for updates.
pub proof fn law_output_is_plain()
    ensures
        environment().contains(("GH_PAGER"@, "cat"@)),
        environment().contains(("GH_NO_UPDATE_NOTIFIER"@, "1"@)),
        environment().contains(("NO_COLOR"@, "1"@)),
{
    let e = environment();
    assert(e[0] == ("GH_PAGER"@, "cat"@));
    assert(e[1] == ("GH_NO_UPDATE_NOTIFIER"@, "1"@));
    assert(e[2] == ("NO_COLOR"@, "1"@));
}

} // verus!
