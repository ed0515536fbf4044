use commitment_rs::{
    husky_hook_script, lefthook_has_hook, lefthook_run_script, plain_git_hook_script,
    select_hook_manager, simple_git_hooks_command, AgentName, HookManager,
};

#[test]
fn hook_manager_from_str_lefthook() {
    assert_eq!(
        "lefthook".parse::<HookManager>().unwrap(),
        HookManager::Lefthook
    );
    assert_eq!(
        "Lefthook".parse::<HookManager>().unwrap(),
        HookManager::Lefthook
    );
    assert_eq!(
        "LEFTHOOK".parse::<HookManager>().unwrap(),
        HookManager::Lefthook
    );
}

#[test]
fn hook_manager_from_str_husky() {
    assert_eq!("husky".parse::<HookManager>().unwrap(), HookManager::Husky);
    assert_eq!("Husky".parse::<HookManager>().unwrap(), HookManager::Husky);
}

#[test]
fn hook_manager_from_str_simple_git_hooks() {
    assert_eq!(
        "simple-git-hooks".parse::<HookManager>().unwrap(),
        HookManager::SimpleGitHooks
    );
}

#[test]
fn hook_manager_from_str_plain_git() {
    assert_eq!(
        "plain".parse::<HookManager>().unwrap(),
        HookManager::PlainGit
    );
    assert_eq!("git".parse::<HookManager>().unwrap(), HookManager::PlainGit);
    assert_eq!(
        "plaingit".parse::<HookManager>().unwrap(),
        HookManager::PlainGit
    );
}

#[test]
fn hook_manager_from_str_invalid() {
    let result = "invalid".parse::<HookManager>();
    assert!(result.is_err());
    let err = result.unwrap_err();
    assert!(err.message().contains("invalid"));
    assert!(err.message().contains("lefthook"));
}

#[test]
fn hook_manager_display() {
    assert_eq!(HookManager::Lefthook.as_str(), "lefthook");
    assert_eq!(HookManager::Husky.as_str(), "husky");
    assert_eq!(HookManager::SimpleGitHooks.as_str(), "simple-git-hooks");
    assert_eq!(HookManager::PlainGit.as_str(), "plain git hooks");
}

#[test]
fn selection_prefers_lefthook_then_husky_then_simple_git_hooks() {
    assert_eq!(
        select_hook_manager(true, true, true),
        Some(HookManager::Lefthook)
    );
    assert_eq!(
        select_hook_manager(false, true, true),
        Some(HookManager::Husky)
    );
    assert_eq!(
        select_hook_manager(false, false, true),
        Some(HookManager::SimpleGitHooks)
    );
    assert_eq!(select_hook_manager(false, false, false), None);
}

#[test]
fn lefthook_hook_presence_is_detected() {
    assert!(lefthook_has_hook(
        "\nprepare-commit-msg:\n  commands:\n    custom:\n      run: echo \"existing hook\"\n"
    ));
    assert!(!lefthook_has_hook(
        "\npre-commit:\n  commands:\n    lint:\n      run: npm run lint\n"
    ));
}

#[test]
fn husky_script_invokes_the_chosen_agent() {
    let script = husky_hook_script(AgentName::Gemini);
    assert!(script.starts_with("#!/usr/bin/env sh"));
    assert!(script.contains("commitment --agent gemini --message-only"));
}

#[test]
fn plain_git_script_invokes_the_chosen_agent() {
    let script = plain_git_hook_script(AgentName::Copilot);
    assert!(script.starts_with("#!/usr/bin/env sh"));
    assert!(script.contains("commitment --agent copilot --message-only"));
}

#[test]
fn simple_git_hooks_entry_invokes_the_chosen_agent() {
    assert_eq!(
        simple_git_hooks_command(AgentName::Copilot),
        "commitment --agent copilot --message-only"
    );
}

#[test]
fn lefthook_script_guards_on_commit_source_placeholders() {
    let script = lefthook_run_script(AgentName::Codex);
    assert!(script.contains("--agent codex"));
    assert!(script.contains("--message-only"));
    assert!(script.contains("{1}"));
    assert!(script.contains("{2}"));
    assert!(script.contains("case"));
    assert!(script.contains("esac"));
}
