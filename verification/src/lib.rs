//! Generation pipeline for AI-assisted conventional commit messages.
//!
//! The library covers the verified core of the tool: the response-cleaning
//! pipeline, the conventional-commit validator, the prompt builder with its
//! diff truncation, the agent invocation configuration and outcome
//! classification, the hook-manager selection rules, and the orchestration
//! steps that tie them together. Process spawning, the git calls and the
//! file writers live outside the library and only hand plain values in.

use vstd::prelude::*;

pub mod agents;
pub mod cleaning;
pub mod error;
pub mod git;
pub mod hooks;
pub mod prompt;
pub mod text;
pub mod types;

pub use agents::{
    agent_invocation, classify_agent_outcome, timeout_error, Agent, AgentInvocation, CopilotAgent,
    CodexAgent, GeminiAgent, AGENT_TIMEOUT_SECS,
};
pub use cleaning::clean_ai_response;
pub use error::{AgentError, GeneratorError, GitError};
pub use git::GitProvider;
pub use hooks::{
    husky_hook_script, lefthook_has_hook, lefthook_run_script, plain_git_hook_script,
    select_hook_manager, simple_git_hooks_command, HookManager, HookManagerParseError,
};
pub use prompt::{build_prompt, parse_change_summary, truncate_diff};
pub use types::{
    AgentName, AgentNameParseError, CommitValidationError, ConventionalCommit, StagedDiff,
};

use crate::cleaning::clean_chars;
use crate::text::trim_chars;
use crate::types::{empty_commit_text, invalid_format_text, valid_commit_start};

verus! {

/// Gate the pipeline on staged changes being present: with nothing
/// staged, generation fails before any prompt is built or agent invoked.
pub fn require_staged_changes(has_changes: bool) -> (r: Result<(), GeneratorError>)
    ensures
        has_changes ==> r is Ok,
        !has_changes ==> (r matches Err(e) && e == GeneratorError::Git(
            GitError::NoStagedChanges,
        )),
{
    if has_changes {
        Ok(())
    } else {
        Err(GeneratorError::Git(GitError::NoStagedChanges))
    }
}

/// The text handed to validation: the cleaned response, with the
/// signature appended after two newlines when one was supplied.
pub open spec fn final_message_chars(raw: Seq<char>, signature: Option<Seq<char>>) -> Seq<char> {
    match signature {
        Some(sig) => clean_chars(raw) + "\n\n"@ + sig,
        None => clean_chars(raw),
    }
}

/// Finish a generation attempt from the agent's outcome: an agent
/// failure propagates unchanged; a raw response is cleaned, the optional
/// signature appended, and the result validated, with a validation
/// failure folded into the unified error. Nothing is retried.
pub fn complete_generation(outcome: Result<String, AgentError>, signature: Option<&str>) -> (r:
    Result<ConventionalCommit, GeneratorError>)
    ensures
        outcome matches Err(e) ==> (r matches Err(g) && g == GeneratorError::Agent(e)),
        outcome matches Ok(raw) ==> {
            let t = trim_chars(
                final_message_chars(
                    raw@,
                    match signature {
                        Some(s) => Some(s@),
                        None => None,
                    },
                ),
            );
            &&& t.len() > 0 && valid_commit_start(t) ==> (r matches Ok(c) && c@ == t)
            &&& t.len() == 0 ==> (r matches Err(g) && g matches GeneratorError::Validation(m)
                && m@ == empty_commit_text())
            &&& t.len() > 0 && !valid_commit_start(t) ==> (r matches Err(g) && g matches
                GeneratorError::Validation(m) && m@ == invalid_format_text(t))
        },
{
    match outcome {
        Err(e) => Err(GeneratorError::Agent(e)),
        Ok(raw) => {
            let cleaned = clean_ai_response(raw.as_str());
            let final_msg = match signature {
                Some(sig) => {
                    let mut m = cleaned;
                    m.append("\n\n");
                    m.append(sig);
                    m
                },
                None => cleaned,
            };
            match ConventionalCommit::validate(final_msg.as_str()) {
                Ok(c) => Ok(c),
                Err(e) => Err(GeneratorError::Validation(e.message())),
            }
        },
    }
}

} // verus!
