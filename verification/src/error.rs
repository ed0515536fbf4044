//! Error taxonomy: agent-layer and provider-layer failures, and the
//! unified error surfaced by the orchestration steps. Every variant keeps
//! its structured context; nothing is reduced to a bare string upstream.

use vstd::prelude::*;
use vstd::string::StringExecFns;

use crate::text::{dec_chars, render_u64, string_from_chars};
use crate::types::{agent_name_chars, AgentName};

verus! {

/// Errors from AI agent execution.
#[derive(Debug)]
pub enum AgentError {
    /// The agent's executable is not discoverable on the search path.
    NotFound { agent: AgentName },
    /// The agent process ran and exited with a failure, or could not be
    /// driven; carries its decoded standard-error text.
    ExecutionFailed { agent: AgentName, stderr: String },
    /// The whole invocation exceeded the timeout bound, in seconds.
    Timeout { agent: AgentName, timeout_secs: u64 },
    /// The agent returned an unusable response (reserved: the response
    /// cleaner itself never fails).
    InvalidResponse { reason: String },
}

/// The rendered description of an agent error.
pub open spec fn agent_error_chars(e: AgentError) -> Seq<char> {
    match e {
        AgentError::NotFound { agent } => "agent `"@ + agent_name_chars(agent)
            + "` not found in PATH"@,
        AgentError::ExecutionFailed { agent, stderr } => "agent `"@ + agent_name_chars(agent)
            + "` execution failed: "@ + stderr@,
        AgentError::Timeout { agent, timeout_secs } => "agent `"@ + agent_name_chars(agent)
            + "` timed out after "@ + dec_chars(timeout_secs as nat) + "s"@,
        AgentError::InvalidResponse { reason } => "invalid response from agent: "@ + reason@,
    }
}

impl AgentError {
    /// Human-readable description of the failure.
    pub fn message(&self) -> (r: String)
        ensures
            r@ == agent_error_chars(*self),
    {
        match self {
            AgentError::NotFound { agent } => {
                let mut s = String::from_str("agent `");
                s.append(agent.as_str());
                s.append("` not found in PATH");
                s
            },
            AgentError::ExecutionFailed { agent, stderr } => {
                let mut s = String::from_str("agent `");
                s.append(agent.as_str());
                s.append("` execution failed: ");
                s.append(stderr.as_str());
                s
            },
            AgentError::Timeout { agent, timeout_secs } => {
                let mut s = String::from_str("agent `");
                s.append(agent.as_str());
                s.append("` timed out after ");
                let secs = string_from_chars(&render_u64(*timeout_secs));
                s.append(secs.as_str());
                s.append("s");
                s
            },
            AgentError::InvalidResponse { reason } => {
                let mut s = String::from_str("invalid response from agent: ");
                s.append(reason.as_str());
                s
            },
        }
    }
}

/// Errors from the version-control provider.
#[derive(Debug)]
pub enum GitError {
    /// Nothing is staged, so there is nothing to describe.
    NoStagedChanges,
    /// A version-control command ran and failed.
    CommandFailed { command: String, stderr: String },
    /// The repository's metadata directory could not be resolved.
    WorktreeResolution { path: String },
    /// An input/output failure while talking to version control.
    Io { message: String },
}

/// The rendered description of a provider error.
pub open spec fn git_error_chars(e: GitError) -> Seq<char> {
    match e {
        GitError::NoStagedChanges => "no staged changes found"@,
        GitError::CommandFailed { command, stderr } => "git command `"@ + command@ + "` failed: "@
            + stderr@,
        GitError::WorktreeResolution { path } => "failed to resolve git worktree directory at: "@
            + path@,
        GitError::Io { message } => "I/O error during git operation"@,
    }
}

impl GitError {
    /// Human-readable description of the failure.
    pub fn message(&self) -> (r: String)
        ensures
            r@ == git_error_chars(*self),
    {
        match self {
            GitError::NoStagedChanges => String::from_str("no staged changes found"),
            GitError::CommandFailed { command, stderr } => {
                let mut s = String::from_str("git command `");
                s.append(command.as_str());
                s.append("` failed: ");
                s.append(stderr.as_str());
                s
            },
            GitError::WorktreeResolution { path } => {
                let mut s = String::from_str("failed to resolve git worktree directory at: ");
                s.append(path.as_str());
                s
            },
            GitError::Io { message } => String::from_str("I/O error during git operation"),
        }
    }
}

/// The unified error of commit-message generation: every failure from the
/// agent layer, the provider layer, or validation, surfaced verbatim.
#[derive(Debug)]
pub enum GeneratorError {
    /// An agent-layer failure, unchanged.
    Agent(AgentError),
    /// A provider-layer failure, unchanged.
    Git(GitError),
    /// The cleaned text failed commit validation; carries the rendered
    /// validation error.
    Validation(String),
}

/// The rendered description of a generation error. Agent and provider
/// failures render transparently as themselves.
pub open spec fn generator_error_chars(e: GeneratorError) -> Seq<char> {
    match e {
        GeneratorError::Agent(a) => agent_error_chars(a),
        GeneratorError::Git(g) => git_error_chars(g),
        GeneratorError::Validation(reason) => "commit validation failed: "@ + reason@,
    }
}

impl GeneratorError {
    /// Human-readable description of the failure.
    pub fn message(&self) -> (r: String)
        ensures
            r@ == generator_error_chars(*self),
    {
        match self {
            GeneratorError::Agent(a) => a.message(),
            GeneratorError::Git(g) => g.message(),
            GeneratorError::Validation(reason) => {
                let mut s = String::from_str("commit validation failed: ");
                s.append(reason.as_str());
                s
            },
        }
    }
}

impl From<AgentError> for GeneratorError {
    fn from(e: AgentError) -> (r: GeneratorError) {
        GeneratorError::Agent(e)
    }
}

impl vstd::std_specs::convert::FromSpecImpl<AgentError> for GeneratorError {
    open spec fn obeys_from_spec() -> bool {
        true
    }

    open spec fn from_spec(e: AgentError) -> GeneratorError {
        GeneratorError::Agent(e)
    }
}

impl From<GitError> for GeneratorError {
    fn from(e: GitError) -> (r: GeneratorError) {
        GeneratorError::Git(e)
    }
}

impl vstd::std_specs::convert::FromSpecImpl<GitError> for GeneratorError {
    open spec fn obeys_from_spec() -> bool {
        true
    }

    open spec fn from_spec(e: GitError) -> GeneratorError {
        GeneratorError::Git(e)
    }
}

} // verus!
