use commitment_rs::{AgentError, AgentName, GeneratorError, GitError};

#[test]
fn agent_error_not_found_display() {
    let err = AgentError::NotFound {
        agent: AgentName::Copilot,
    };
    let msg = err.message();
    assert!(msg.contains("copilot"));
    assert!(msg.contains("not found"));
    assert!(msg.contains("PATH"));
}

#[test]
fn agent_error_execution_failed_display() {
    let err = AgentError::ExecutionFailed {
        agent: AgentName::Codex,
        stderr: "permission denied".to_string(),
    };
    let msg = err.message();
    assert!(msg.contains("codex"));
    assert!(msg.contains("execution failed"));
    assert!(msg.contains("permission denied"));
}

#[test]
fn agent_error_timeout_display() {
    let err = AgentError::Timeout {
        agent: AgentName::Gemini,
        timeout_secs: 120,
    };
    let msg = err.message();
    assert!(msg.contains("gemini"));
    assert!(msg.contains("timed out"));
    assert!(msg.contains("120"));
}

#[test]
fn agent_error_invalid_response_display() {
    let err = AgentError::InvalidResponse {
        reason: "empty response".to_string(),
    };
    let msg = err.message();
    assert!(msg.contains("invalid response"));
    assert!(msg.contains("empty response"));
}

#[test]
fn git_error_no_staged_changes_display() {
    let err = GitError::NoStagedChanges;
    let msg = err.message();
    assert!(msg.contains("no staged changes"));
}

#[test]
fn git_error_command_failed_display() {
    let err = GitError::CommandFailed {
        command: "git diff".to_string(),
        stderr: "not a git repository".to_string(),
    };
    let msg = err.message();
    assert!(msg.contains("git diff"));
    assert!(msg.contains("failed"));
    assert!(msg.contains("not a git repository"));
}

#[test]
fn git_error_worktree_resolution_display() {
    let err = GitError::WorktreeResolution {
        path: "/path/to/worktree".to_string(),
    };
    let msg = err.message();
    assert!(msg.contains("worktree"));
    assert!(msg.contains("/path/to/worktree"));
}

#[test]
fn generator_error_from_agent_error() {
    let agent_err = AgentError::NotFound {
        agent: AgentName::Copilot,
    };
    let gen_err: GeneratorError = agent_err.into();
    assert!(matches!(gen_err, GeneratorError::Agent(_)));
    assert!(gen_err.message().contains("copilot"));
}

#[test]
fn generator_error_from_git_error() {
    let git_err = GitError::NoStagedChanges;
    let gen_err: GeneratorError = git_err.into();
    assert!(matches!(gen_err, GeneratorError::Git(_)));
    assert!(gen_err.message().contains("no staged changes"));
}

#[test]
fn generator_error_validation_display() {
    let err = GeneratorError::Validation("invalid format".to_string());
    let msg = err.message();
    assert!(msg.contains("validation failed"));
    assert!(msg.contains("invalid format"));
}

#[test]
fn error_types_implement_debug() {
    let agent_err = AgentError::NotFound {
        agent: AgentName::Copilot,
    };
    assert!(format!("{:?}", agent_err).contains("NotFound"));

    let git_err = GitError::NoStagedChanges;
    assert!(format!("{:?}", git_err).contains("NoStagedChanges"));

    let gen_err = GeneratorError::Validation("test".to_string());
    assert!(format!("{:?}", gen_err).contains("Validation"));
}

#[test]
fn git_error_io_display() {
    let err = GitError::Io {
        message: "broken pipe".to_string(),
    };
    assert_eq!(err.message(), "I/O error during git operation");
}
