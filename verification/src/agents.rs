//! The executable agents: invocation configuration per tool, the shared
//! timeout bound, and classification of a finished process's outcome.

use vstd::prelude::*;
use vstd::string::StringExecFns;

use crate::error::AgentError;
use crate::types::{agent_name_chars, AgentName};

verus! {

/// Timeout bound for one whole agent invocation, in seconds.
pub const AGENT_TIMEOUT_SECS: u64 = 120;

/// The Copilot tool: prompt delivered on standard input, print-and-exit
/// mode.
pub struct CopilotAgent;

/// The Codex tool: prompt delivered on standard input, exec mode without
/// repository checks.
pub struct CodexAgent;

/// The Gemini tool: prompt delivered as a command-line argument.
pub struct GeminiAgent;

/// Closed set of executable agents, dispatched by exhaustive matching.
pub enum Agent {
    Copilot(CopilotAgent),
    Codex(CodexAgent),
    Gemini(GeminiAgent),
}

/// The identity of an agent value.
pub open spec fn agent_identity(a: &Agent) -> AgentName {
    match a {
        Agent::Copilot(_) => AgentName::Copilot,
        Agent::Codex(_) => AgentName::Codex,
        Agent::Gemini(_) => AgentName::Gemini,
    }
}

impl Agent {
    /// The identity of this agent.
    pub fn name(&self) -> (r: AgentName)
        ensures
            r == agent_identity(self),
    {
        match self {
            Agent::Copilot(_) => AgentName::Copilot,
            Agent::Codex(_) => AgentName::Codex,
            Agent::Gemini(_) => AgentName::Gemini,
        }
    }
}

impl From<AgentName> for Agent {
    fn from(name: AgentName) -> (r: Agent) {
        match name {
            AgentName::Copilot => Agent::Copilot(CopilotAgent),
            AgentName::Codex => Agent::Codex(CodexAgent),
            AgentName::Gemini => Agent::Gemini(GeminiAgent),
        }
    }
}

impl vstd::std_specs::convert::FromSpecImpl<AgentName> for Agent {
    open spec fn obeys_from_spec() -> bool {
        true
    }

    open spec fn from_spec(name: AgentName) -> Agent {
        match name {
            AgentName::Copilot => Agent::Copilot(CopilotAgent),
            AgentName::Codex => Agent::Codex(CodexAgent),
            AgentName::Gemini => Agent::Gemini(GeminiAgent),
        }
    }
}

/// The fixed command-line arguments of each tool, before any prompt
/// argument.
pub open spec fn fixed_args(a: AgentName) -> Seq<Seq<char>> {
    match a {
        AgentName::Copilot => seq!["--print"@],
        AgentName::Codex => seq!["exec"@, "--skip-git-repo-check"@],
        AgentName::Gemini => seq!["-p"@],
    }
}

/// Whether the tool takes the prompt on standard input. Gemini takes it
/// as a command-line argument instead; this is per-agent configuration,
/// not a constant of all tools.
pub open spec fn takes_prompt_on_stdin(a: AgentName) -> bool {
    a != AgentName::Gemini
}

/// One fully-determined process invocation: the program to spawn, its
/// arguments, and what to write to its standard input, if anything.
pub struct AgentInvocation {
    /// The executable name to resolve and spawn.
    pub program: String,
    /// The command-line arguments, in order.
    pub args: Vec<String>,
    /// Text to deliver on standard input, then flushed and closed; when
    /// absent there is no standard-input interaction.
    pub stdin_input: Option<String>,
}

/// Build the invocation for one agent and prompt, preserving each tool's
/// input-delivery convention: the prompt goes to standard input for
/// tools that read it there, and is appended as the final argument for
/// tools that take it on the command line.
pub fn agent_invocation(agent: AgentName, prompt: &str) -> (r: AgentInvocation)
    ensures
        r.program@ == agent_name_chars(agent),
        takes_prompt_on_stdin(agent) ==> {
            &&& r.args@.len() == fixed_args(agent).len()
            &&& forall|i: int| 0 <= i < r.args@.len() ==> r.args@[i]@ == fixed_args(agent)[i]
            &&& r.stdin_input matches Some(s) && s@ == prompt@
        },
        !takes_prompt_on_stdin(agent) ==> {
            &&& r.args@.len() == fixed_args(agent).len() + 1
            &&& forall|i: int|
                0 <= i < fixed_args(agent).len() ==> r.args@[i]@ == fixed_args(agent)[i]
            &&& r.args@.last()@ == prompt@
            &&& r.stdin_input is None
        },
{
    let program = String::from_str(agent.as_str());
    let mut args: Vec<String> = Vec::new();
    match agent {
        AgentName::Copilot => {
            args.push(String::from_str("--print"));
            AgentInvocation { program, args, stdin_input: Some(String::from_str(prompt)) }
        },
        AgentName::Codex => {
            args.push(String::from_str("exec"));
            args.push(String::from_str("--skip-git-repo-check"));
            AgentInvocation { program, args, stdin_input: Some(String::from_str(prompt)) }
        },
        AgentName::Gemini => {
            args.push(String::from_str("-p"));
            args.push(String::from_str(prompt));
            AgentInvocation { program, args, stdin_input: None }
        },
    }
}

/// Classify the outcome of a finished agent process: a successful exit
/// yields the captured standard output verbatim; any failing exit is an
/// execution failure carrying the captured standard-error text.
pub fn classify_agent_outcome(
    agent: AgentName,
    exit_success: bool,
    stdout: String,
    stderr: String,
) -> (r: Result<String, AgentError>)
    ensures
        exit_success ==> (r matches Ok(out) && out == stdout),
        !exit_success ==> (r matches Err(e) && e == (AgentError::ExecutionFailed {
            agent,
            stderr,
        })),
{
    if exit_success {
        Ok(stdout)
    } else {
        Err(AgentError::ExecutionFailed { agent, stderr })
    }
}

/// The error reported when an invocation exceeds the timeout bound: it
/// names the agent and the configured bound.
pub fn timeout_error(agent: AgentName) -> (r: AgentError)
    ensures
        r == (AgentError::Timeout { agent, timeout_secs: AGENT_TIMEOUT_SECS }),
{
    AgentError::Timeout { agent, timeout_secs: AGENT_TIMEOUT_SECS }
}

} // verus!
