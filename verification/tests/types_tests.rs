use commitment_rs::{AgentName, CommitValidationError, ConventionalCommit, StagedDiff};

#[test]
fn parses_copilot_agent_name() {
    assert_eq!("copilot".parse::<AgentName>().unwrap(), AgentName::Copilot);
    assert_eq!("Copilot".parse::<AgentName>().unwrap(), AgentName::Copilot);
    assert_eq!("COPILOT".parse::<AgentName>().unwrap(), AgentName::Copilot);
}

#[test]
fn parses_codex_agent_name() {
    assert_eq!("codex".parse::<AgentName>().unwrap(), AgentName::Codex);
    assert_eq!("Codex".parse::<AgentName>().unwrap(), AgentName::Codex);
}

#[test]
fn parses_gemini_agent_name() {
    assert_eq!("gemini".parse::<AgentName>().unwrap(), AgentName::Gemini);
    assert_eq!("Gemini".parse::<AgentName>().unwrap(), AgentName::Gemini);
}

#[test]
fn rejects_invalid_agent_name() {
    let result = "invalid".parse::<AgentName>();
    assert!(result.is_err());
    let err = result.unwrap_err();
    assert!(err.message().contains("invalid"));
    assert!(err.message().contains("copilot, codex, gemini"));
}

#[test]
fn rejects_empty_agent_name() {
    assert!("".parse::<AgentName>().is_err());
}

#[test]
fn agent_name_display() {
    assert_eq!(AgentName::Copilot.as_str(), "copilot");
    assert_eq!(AgentName::Codex.as_str(), "codex");
    assert_eq!(AgentName::Gemini.as_str(), "gemini");
}

#[test]
fn validates_feat_commit() {
    let result = ConventionalCommit::validate("feat: add new feature");
    assert!(result.is_ok());
    assert_eq!(result.unwrap().as_str(), "feat: add new feature");
}

#[test]
fn validates_fix_commit() {
    let result = ConventionalCommit::validate("fix: resolve bug");
    assert!(result.is_ok());
}

#[test]
fn validates_commit_with_scope() {
    let result = ConventionalCommit::validate("feat(api): add endpoint");
    assert!(result.is_ok());
    assert_eq!(result.unwrap().as_str(), "feat(api): add endpoint");
}

#[test]
fn validates_commit_with_hyphenated_scope() {
    let result = ConventionalCommit::validate("fix(error-handling): improve validation");
    assert!(result.is_ok());
}

#[test]
fn validates_all_conventional_types() {
    let types = vec![
        "feat", "fix", "docs", "style", "refactor", "test", "chore", "perf", "build", "ci",
        "revert",
    ];
    for type_ in types {
        let msg = format!("{}: test description", type_);
        assert!(
            ConventionalCommit::validate(&msg).is_ok(),
            "Failed to validate type: {}",
            type_
        );
    }
}

#[test]
fn rejects_empty_commit() {
    let result = ConventionalCommit::validate("");
    assert!(matches!(result, Err(CommitValidationError::Empty)));
}

#[test]
fn rejects_whitespace_only_commit() {
    let result = ConventionalCommit::validate("   \n  ");
    assert!(matches!(result, Err(CommitValidationError::Empty)));
}

#[test]
fn rejects_commit_without_type() {
    let result = ConventionalCommit::validate("just a description");
    assert!(matches!(
        result,
        Err(CommitValidationError::InvalidFormat { .. })
    ));
}

#[test]
fn rejects_commit_without_colon() {
    let result = ConventionalCommit::validate("feat add feature");
    assert!(matches!(
        result,
        Err(CommitValidationError::InvalidFormat { .. })
    ));
}

#[test]
fn rejects_commit_without_description() {
    let result = ConventionalCommit::validate("feat:");
    assert!(matches!(
        result,
        Err(CommitValidationError::InvalidFormat { .. })
    ));
}

#[test]
fn rejects_invalid_type() {
    let result = ConventionalCommit::validate("invalid: description");
    assert!(matches!(
        result,
        Err(CommitValidationError::InvalidFormat { .. })
    ));
}

#[test]
fn rejects_uppercase_type() {
    let result = ConventionalCommit::validate("FEAT: description");
    assert!(matches!(
        result,
        Err(CommitValidationError::InvalidFormat { .. })
    ));
}

#[test]
fn rejects_uppercase_scope() {
    let result = ConventionalCommit::validate("feat(API): description");
    assert!(matches!(
        result,
        Err(CommitValidationError::InvalidFormat { .. })
    ));
}

#[test]
fn trims_whitespace() {
    let result = ConventionalCommit::validate("  feat: test  \n");
    assert!(result.is_ok());
    assert_eq!(result.unwrap().as_str(), "feat: test");
}

#[test]
fn rejects_other_leading_tokens_and_accepts_only_defined_tags() {
    for bad in [
        "feature: x",
        "Feat: x",
        "fixx: x",
        "testing: x",
        "cii: x",
        "feat(): x",
        "feat(Api): x",
        "feat(a_b): x",
        "feat:no space",
        "feat: \ndescription on next line only",
    ] {
        assert!(
            ConventionalCommit::validate(bad).is_err(),
            "should reject: {:?}",
            bad
        );
    }
    for good in [
        "feat: x",
        "ci: wire pipeline",
        "revert: undo change",
        "perf(core-2): faster path",
        "fix(api): resolve bug\n\nbody line\nfooter",
    ] {
        assert!(
            ConventionalCommit::validate(good).is_ok(),
            "should accept: {:?}",
            good
        );
    }
}

#[test]
fn validated_text_equals_trimmed_input() {
    for input in [
        "feat: x",
        "  feat: x\t\n",
        "\n\nfix(scope): y\nbody\n\n",
    ] {
        let commit = ConventionalCommit::validate(input).unwrap();
        assert_eq!(commit.as_str(), input.trim());
    }
}

#[test]
fn invalid_format_carries_trimmed_text() {
    match ConventionalCommit::validate("  FEAT: oops  ") {
        Err(CommitValidationError::InvalidFormat { message }) => {
            assert_eq!(message, "FEAT: oops");
        }
        other => panic!("expected InvalidFormat, got {:?}", other),
    }
}

#[test]
fn conventional_commit_deref_works() {
    let commit = ConventionalCommit::validate("feat: add feature").unwrap();

    assert_eq!(commit.len(), 17);
    assert!(commit.contains("feat"));
    assert!(commit.starts_with("feat:"));
    assert_eq!(&commit[0..4], "feat");
}

#[test]
fn conventional_commit_as_ref_works() {
    let commit = ConventionalCommit::validate("fix: resolve bug").unwrap();

    assert_eq!(process_string(&commit), 16);
    assert_eq!(process_string(commit.as_ref()), 16);
}

fn process_string(s: impl AsRef<str>) -> usize {
    s.as_ref().len()
}

#[test]
fn conventional_commit_trait_implementations() {
    let commit = ConventionalCommit::validate("chore: update deps").unwrap();

    let s1: &str = commit.as_str();
    assert_eq!(s1, "chore: update deps");

    let s2: &str = commit.as_ref();
    assert_eq!(s2, "chore: update deps");

    let s3: &str = &*commit;
    assert_eq!(s3, "chore: update deps");

    assert_eq!(s1, s2);
    assert_eq!(s2, s3);
}

#[test]
fn staged_diff_default() {
    let diff = StagedDiff::default();
    assert_eq!(diff.stat, "");
    assert_eq!(diff.name_status, "");
    assert_eq!(diff.diff, "");
}

#[test]
fn staged_diff_construction() {
    let diff = StagedDiff {
        stat: "1 file changed, 10 insertions(+)".to_string(),
        name_status: "A\tsrc/test.rs".to_string(),
        diff: "@@ -0,0 +1,10 @@".to_string(),
    };
    assert_eq!(diff.stat, "1 file changed, 10 insertions(+)");
    assert_eq!(diff.name_status, "A\tsrc/test.rs");
    assert_eq!(diff.diff, "@@ -0,0 +1,10 @@");
}

#[test]
fn staged_diff_clone() {
    let diff1 = StagedDiff {
        stat: "test".to_string(),
        name_status: "test".to_string(),
        diff: "test".to_string(),
    };
    let diff2 = diff1.clone();
    assert_eq!(diff1, diff2);
}

#[test]
fn agent_name_display_name_copilot() {
    assert_eq!(AgentName::Copilot.display_name(), "Copilot");
}

#[test]
fn agent_name_display_name_codex() {
    assert_eq!(AgentName::Codex.display_name(), "Codex");
}

#[test]
fn agent_name_display_name_gemini() {
    assert_eq!(AgentName::Gemini.display_name(), "Gemini");
}

#[test]
fn agent_name_install_url_copilot() {
    let url = AgentName::Copilot.install_url();
    assert_eq!(url, "https://docs.github.com/en/copilot");
    assert!(url.contains("github.com"));
}

#[test]
fn agent_name_install_url_codex() {
    let url = AgentName::Codex.install_url();
    assert_eq!(url, "https://github.com/phughk/codex");
    assert!(url.contains("github.com"));
}

#[test]
fn agent_name_install_url_gemini() {
    let url = AgentName::Gemini.install_url();
    assert_eq!(url, "https://github.com/google/generative-ai-cli");
    assert!(url.contains("github.com"));
}

#[test]
fn agent_name_display_name_all_variants() {
    let agents = vec![AgentName::Copilot, AgentName::Codex, AgentName::Gemini];
    for agent in agents {
        assert!(!agent.display_name().is_empty());
    }
}

#[test]
fn agent_name_install_url_all_variants() {
    let agents = vec![AgentName::Copilot, AgentName::Codex, AgentName::Gemini];
    for agent in agents {
        let url = agent.install_url();
        assert!(url.starts_with("https://"));
        assert!(!url.is_empty());
    }
}
