use commitment_rs::{
    agent_invocation, build_prompt, classify_agent_outcome, clean_ai_response, complete_generation,
    require_staged_changes, timeout_error, Agent, AgentError, AgentName, CopilotAgent,
    ConventionalCommit, GeneratorError, GitError, GitProvider, StagedDiff, AGENT_TIMEOUT_SECS,
};

struct MockGitProvider {
    staged_diff: Option<StagedDiff>,
    has_changes: bool,
}

impl MockGitProvider {
    fn new() -> Self {
        Self {
            staged_diff: Some(StagedDiff {
                stat: "1 file changed, 10 insertions(+)".to_string(),
                name_status: "A\tsrc/test.rs".to_string(),
                diff: "@@ -0,0 +1,10 @@\n+fn test() {}".to_string(),
            }),
            has_changes: true,
        }
    }

    fn with_no_changes() -> Self {
        Self {
            staged_diff: None,
            has_changes: false,
        }
    }
}

impl GitProvider for MockGitProvider {
    fn get_staged_diff(&self) -> Result<StagedDiff, GitError> {
        if !self.has_changes {
            return Err(GitError::NoStagedChanges);
        }
        self.staged_diff.clone().ok_or(GitError::NoStagedChanges)
    }

    fn has_staged_changes(&self) -> Result<bool, GitError> {
        Ok(self.has_changes)
    }

    fn commit(&self, _message: &str) -> Result<(), GitError> {
        Ok(())
    }
}

#[test]
fn returns_error_when_no_staged_changes() {
    let git = MockGitProvider::with_no_changes();

    let has_changes = git.has_staged_changes().unwrap();
    assert!(!has_changes);

    let diff_result = git.get_staged_diff();
    assert!(matches!(diff_result, Err(GitError::NoStagedChanges)));

    let gate = require_staged_changes(has_changes);
    assert!(matches!(
        gate,
        Err(GeneratorError::Git(GitError::NoStagedChanges))
    ));
}

#[test]
fn orchestration_flow_test() {
    let git = MockGitProvider::new();

    let has_changes = git.has_staged_changes().unwrap();
    assert!(has_changes);
    assert!(require_staged_changes(has_changes).is_ok());

    let diff = git.get_staged_diff().unwrap();
    assert!(!diff.stat.is_empty());

    let prompt = build_prompt(&diff);
    assert!(prompt.contains("conventional commit"));
    assert!(prompt.contains(&diff.stat));

    let raw_response = "Here is the commit message:\n```\nfeat: add test function\n```";

    let cleaned = clean_ai_response(raw_response);
    assert_eq!(cleaned, "feat: add test function");

    let with_signature = format!("{}\n\n{}", cleaned, "Co-Authored-By: Test <test@example.com>");
    assert!(with_signature.contains("Co-Authored-By:"));

    let commit = ConventionalCommit::validate(&cleaned).unwrap();
    assert_eq!(commit.as_str(), "feat: add test function");
}

#[test]
fn signature_appending_test() {
    let base_message = "feat: add feature";
    let signature = "Co-Authored-By: AI <ai@example.com>";
    let expected = format!("{}\n\n{}", base_message, signature);

    let result = ConventionalCommit::validate(&expected);
    assert!(result.is_ok());

    let commit = result.unwrap();
    assert!(commit.as_str().contains("Co-Authored-By:"));
    assert!(commit.as_str().starts_with("feat: add feature"));

    let generated = complete_generation(Ok(base_message.to_string()), Some(signature));
    assert_eq!(generated.unwrap().as_str(), expected);
}

#[test]
fn validation_error_propagation() {
    let invalid_messages = vec![
        "",
        "just a description",
        "FEAT: description",
        "feat description",
        "invalid: description",
    ];

    for msg in invalid_messages {
        let result = ConventionalCommit::validate(msg);
        assert!(result.is_err(), "Should reject: '{}'", msg);
    }
}

#[test]
fn git_error_propagation() {
    let git = MockGitProvider::with_no_changes();

    let diff_result = git.get_staged_diff();
    assert!(matches!(diff_result, Err(GitError::NoStagedChanges)));

    let gen_error: GeneratorError = GitError::NoStagedChanges.into();
    assert!(matches!(gen_error, GeneratorError::Git(_)));
}

#[test]
fn lib_response_cleaning_integration() {
    let test_cases = vec![
        (
            "<<<COMMIT_MESSAGE_START>>>feat: add feature<<<COMMIT_MESSAGE_END>>>",
            "feat: add feature",
        ),
        ("```\nfeat: add feature\n```", "feat: add feature"),
        (
            "Here is the commit message:\nfeat: add feature",
            "feat: add feature",
        ),
        (
            "<thinking>Analyzing diff...</thinking>\nfeat: add feature",
            "feat: add feature",
        ),
        (
            "feat: add feature\n\n\n\nBody text",
            "feat: add feature\n\nBody text",
        ),
    ];

    for (input, expected) in test_cases {
        let cleaned = clean_ai_response(input);
        assert_eq!(cleaned, expected, "Failed to clean: {}", input);
    }
}

#[test]
fn lib_empty_diff_handling() {
    let diff = StagedDiff::default();
    let prompt = build_prompt(&diff);

    assert!(prompt.contains("=== FILE STATISTICS ==="));
    assert!(prompt.contains("(no changes)"));
}

#[test]
fn realistic_diff_flow() {
    let diff = StagedDiff {
        stat: " src/lib.rs | 50 ++++++++++++++++++++++++++++++++++++++++++++++++++\n 1 file changed, 50 insertions(+)".to_string(),
        name_status: "M\tsrc/lib.rs".to_string(),
        diff: "@@ -1,8 +1,58 @@\n+pub async fn generate_commit_message() {}".to_string(),
    };

    assert!(diff.stat.contains("50 insertions"));
    assert!(diff.name_status.contains("M\tsrc/lib.rs"));

    let prompt = build_prompt(&diff);
    assert!(prompt.contains("=== FILE STATISTICS ==="));
    assert!(prompt.contains("50 insertions"));
    assert!(prompt.contains("=== FULL DIFF ==="));
    assert!(prompt.contains("generate_commit_message"));

    let ai_response_with_markers = "\n<thinking>\nThis adds the core orchestration function.\n</thinking>\n\n<<<COMMIT_MESSAGE_START>>>\nfeat(core): add generate_commit_message orchestration\n\nImplements the main function that orchestrates the full flow.\n<<<COMMIT_MESSAGE_END>>>\n";

    let cleaned = clean_ai_response(ai_response_with_markers);
    assert!(cleaned.starts_with("feat"));
    assert!(cleaned.contains("orchestration"));
    assert!(!cleaned.contains("<thinking>"));
    assert!(!cleaned.contains("<<<COMMIT_MESSAGE"));

    let commit = ConventionalCommit::validate(&cleaned).unwrap();
    assert!(commit.as_str().contains("orchestration"));
}

#[test]
fn marked_response_cleans_and_validates() {
    let input = "Here is the commit message:\n\n<<<COMMIT_MESSAGE_START>>>feat: add x<<<COMMIT_MESSAGE_END>>>";
    let cleaned = clean_ai_response(input);
    assert_eq!(cleaned, "feat: add x");
    let commit = ConventionalCommit::validate(&cleaned).unwrap();
    assert!(commit.as_str().starts_with("feat"));
}

#[test]
fn missing_agent_surfaces_not_found() {
    let outcome: Result<String, AgentError> = Err(AgentError::NotFound {
        agent: AgentName::Copilot,
    });
    match complete_generation(outcome, None) {
        Err(GeneratorError::Agent(AgentError::NotFound { agent })) => {
            assert_eq!(agent, AgentName::Copilot);
        }
        other => panic!("expected NotFound to propagate, got {:?}", other),
    }
}

#[test]
fn timed_out_agent_surfaces_timeout() {
    let outcome: Result<String, AgentError> = Err(timeout_error(AgentName::Gemini));
    match complete_generation(outcome, None) {
        Err(GeneratorError::Agent(AgentError::Timeout {
            agent,
            timeout_secs,
        })) => {
            assert_eq!(agent, AgentName::Gemini);
            assert_eq!(timeout_secs, 120);
            assert_eq!(timeout_secs, AGENT_TIMEOUT_SECS);
        }
        other => panic!("expected Timeout to propagate, got {:?}", other),
    }
}

#[test]
fn malformed_cleaned_text_fails_validation() {
    match complete_generation(Ok("FEAT: oops".to_string()), None) {
        Err(GeneratorError::Validation(msg)) => {
            assert!(msg.contains("FEAT: oops"));
        }
        other => panic!("expected a validation failure, got {:?}", other),
    }
}

#[test]
fn failed_process_outcome_carries_stderr() {
    let r = classify_agent_outcome(
        AgentName::Codex,
        false,
        String::new(),
        "boom".to_string(),
    );
    match r {
        Err(AgentError::ExecutionFailed { agent, stderr }) => {
            assert_eq!(agent, AgentName::Codex);
            assert_eq!(stderr, "boom");
        }
        other => panic!("expected ExecutionFailed, got {:?}", other),
    }
    let ok = classify_agent_outcome(
        AgentName::Codex,
        true,
        "raw output".to_string(),
        String::new(),
    );
    assert_eq!(ok.unwrap(), "raw output");
}

#[test]
fn invocations_follow_each_tools_convention() {
    let c = agent_invocation(AgentName::Copilot, "the prompt");
    assert_eq!(c.program, "copilot");
    assert_eq!(c.args, vec!["--print".to_string()]);
    assert_eq!(c.stdin_input.as_deref(), Some("the prompt"));

    let x = agent_invocation(AgentName::Codex, "the prompt");
    assert_eq!(x.program, "codex");
    assert_eq!(
        x.args,
        vec!["exec".to_string(), "--skip-git-repo-check".to_string()]
    );
    assert_eq!(x.stdin_input.as_deref(), Some("the prompt"));

    let g = agent_invocation(AgentName::Gemini, "the prompt");
    assert_eq!(g.program, "gemini");
    assert_eq!(g.args, vec!["-p".to_string(), "the prompt".to_string()]);
    assert!(g.stdin_input.is_none());
}

#[test]
fn agent_name_returns_correct_variant_copilot() {
    let agent = Agent::Copilot(CopilotAgent);
    assert_eq!(agent.name(), AgentName::Copilot);
}

#[test]
fn agent_name_returns_correct_variant_codex() {
    let agent = Agent::Codex(commitment_rs::CodexAgent);
    assert_eq!(agent.name(), AgentName::Codex);
}

#[test]
fn agent_name_returns_correct_variant_gemini() {
    let agent = Agent::Gemini(commitment_rs::GeminiAgent);
    assert_eq!(agent.name(), AgentName::Gemini);
}

#[test]
fn agent_from_agent_name_copilot() {
    let agent = Agent::from(AgentName::Copilot);
    assert_eq!(agent.name(), AgentName::Copilot);
}

#[test]
fn agent_from_agent_name_codex() {
    let agent = Agent::from(AgentName::Codex);
    assert_eq!(agent.name(), AgentName::Codex);
}

#[test]
fn agent_from_agent_name_gemini() {
    let agent = Agent::from(AgentName::Gemini);
    assert_eq!(agent.name(), AgentName::Gemini);
}

#[test]
fn agent_timeout_constant() {
    assert_eq!(AGENT_TIMEOUT_SECS, 120);
}

#[test]
fn public_api_exports() {
    let _: AgentName = AgentName::Copilot;
    let _: StagedDiff = StagedDiff::default();

    let diff = StagedDiff::default();
    let _ = build_prompt(&diff);
    let _ = clean_ai_response("test");

    let provider = MockGitProvider::new();
    let _: &dyn Fn(&MockGitProvider) -> Result<bool, GitError> =
        &|g: &MockGitProvider| g.has_staged_changes();
    let _ = provider.has_staged_changes();

    let _: Result<(), AgentError> = Ok(());
    let _: Result<(), GitError> = Ok(());
    let _: Result<(), GeneratorError> = Ok(());
}
