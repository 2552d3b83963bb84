//! What can go wrong.

use vstd::prelude::*;
use vstd::string::*;

verus! {

/// An error of the orchestrator. Errors of the operating system are carried as their text.
#[derive(Debug, PartialEq, Eq)]
pub enum AoError {
    SessionNotFound(String),
    Runtime(String),
    Workspace(String),
    Agent(String),
    Scm(String),
    Io(String),
    Yaml(String),
    Config(String),
    Other(String),
}

impl AoError {
    /// The text that is shown to people.
    pub open spec fn shown(self) -> Seq<char> {
        match self {
            AoError::SessionNotFound(s) => "session not found: "@ + s@,
            AoError::Runtime(s) => "runtime error: "@ + s@,
            AoError::Workspace(s) => "workspace error: "@ + s@,
            AoError::Agent(s) => "agent error: "@ + s@,
            AoError::Scm(s) => "scm error: "@ + s@,
            AoError::Io(s) => "io: "@ + s@,
            AoError::Yaml(s) => "yaml: "@ + s@,
            AoError::Config(s) => s@,
            AoError::Other(s) => s@,
        }
    }

    /// The text that is shown to people.
    pub fn message(&self) -> (r: String)
        ensures
            r@ == self.shown(),
    {
        match self {
            AoError::SessionNotFound(s) => "session not found: ".to_string().concat(s.as_str()),
            AoError::Runtime(s) => "runtime error: ".to_string().concat(s.as_str()),
            AoError::Workspace(s) => "workspace error: ".to_string().concat(s.as_str()),
            AoError::Agent(s) => "agent error: ".to_string().concat(s.as_str()),
            AoError::Scm(s) => "scm error: ".to_string().concat(s.as_str()),
            AoError::Io(s) => "io: ".to_string().concat(s.as_str()),
            AoError::Yaml(s) => "yaml: ".to_string().concat(s.as_str()),
            AoError::Config(s) => s.clone(),
            AoError::Other(s) => s.clone(),
        }
    }
}

/// An error says of what kind it is, unless its words say it themselves.
pub proof fn law_errors_name_their_kind(s: String)
    ensures
        AoError::SessionNotFound(s).shown() == "session not found: "@ + s@,
        AoError::Runtime(s).shown() == "runtime error: "@ + s@,
        AoError::Workspace(s).shown() == "workspace error: "@ + s@,
        AoError::Agent(s).shown() == "agent error: "@ + s@,
        AoError::Scm(s).shown() == "scm error: "@ + s@,
        AoError::Io(s).shown() == "io: "@ + s@,
        AoError::Yaml(s).shown() == "yaml: "@ + s@,
        AoError::Config(s).shown() == s@,
        AoError::Other(s).shown() == s@,
{
}

} // verus!
