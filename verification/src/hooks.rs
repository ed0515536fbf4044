//! Hook managers: which one a repository uses, and the exact hook text
//! each installer writes. The file detection and writing themselves live
//! outside the library; they hand in plain flags and take text back.

use vstd::prelude::*;
use vstd::string::StringExecFns;

use crate::text::{chars_of, eq_ci, find_in, has_sub, lemma_find_from, lower_seq, string_from_chars};
use crate::types::{agent_name_chars, AgentName};

verus! {

/// Supported hook managers, in detection priority order.
#[derive(Debug, Clone, Copy, PartialEq, Eq, Structural)]
pub enum HookManager {
    Lefthook,
    Husky,
    SimpleGitHooks,
    PlainGit,
}

/// The display label of a hook manager.
pub open spec fn hook_manager_chars(m: HookManager) -> Seq<char> {
    match m {
        HookManager::Lefthook => "lefthook"@,
        HookManager::Husky => "husky"@,
        HookManager::SimpleGitHooks => "simple-git-hooks"@,
        HookManager::PlainGit => "plain git hooks"@,
    }
}

/// The names accepted for a hook manager, compared in ASCII lowercase.
pub open spec fn hook_manager_accepts(m: HookManager, w: Seq<char>) -> bool {
    match m {
        HookManager::Lefthook => w == "lefthook"@,
        HookManager::Husky => w == "husky"@,
        HookManager::SimpleGitHooks => w == "simple-git-hooks"@,
        HookManager::PlainGit => w == "plain"@ || w == "git"@ || w == "plaingit"@,
    }
}

/// Error when parsing a hook manager name from a string.
#[derive(Debug, Clone, PartialEq, Eq)]
pub struct HookManagerParseError {
    invalid: String,
}

impl View for HookManagerParseError {
    type V = Seq<char>;

    closed spec fn view(&self) -> Seq<char> {
        self.invalid@
    }
}

impl HookManagerParseError {
    /// Human-readable description, naming the rejected input and the
    /// accepted names.
    pub fn message(&self) -> (r: String)
        ensures
            r@ == "invalid hook manager '"@ + self@
                + "' (expected: lefthook, husky, simple-git-hooks, plain)"@,
    {
        let mut s = String::from_str("invalid hook manager '");
        s.append(self.invalid.as_str());
        s.append("' (expected: lefthook, husky, simple-git-hooks, plain)");
        s
    }
}

impl HookManager {
    /// The display label of this hook manager.
    pub fn as_str(&self) -> (r: &'static str)
        ensures
            r@ == hook_manager_chars(*self),
    {
        match self {
            HookManager::Lefthook => "lefthook",
            HookManager::Husky => "husky",
            HookManager::SimpleGitHooks => "simple-git-hooks",
            HookManager::PlainGit => "plain git hooks",
        }
    }

    /// Parse a hook manager name, ignoring ASCII case.
    pub fn parse_name(s: &str) -> (r: Result<HookManager, HookManagerParseError>)
        ensures
            r matches Ok(m) ==> hook_manager_accepts(m, lower_seq(s@)),
            r matches Err(e) ==> e@ == s@ && forall|m: HookManager|
                !hook_manager_accepts(m, lower_seq(s@)),
    {
        let v = chars_of(s);
        if eq_ci(&v, "lefthook") {
            Ok(HookManager::Lefthook)
        } else if eq_ci(&v, "husky") {
            Ok(HookManager::Husky)
        } else if eq_ci(&v, "simple-git-hooks") {
            Ok(HookManager::SimpleGitHooks)
        } else if eq_ci(&v, "plain") || eq_ci(&v, "git") || eq_ci(&v, "plaingit") {
            Ok(HookManager::PlainGit)
        } else {
            Err(HookManagerParseError { invalid: string_from_chars(&v) })
        }
    }
}

impl core::str::FromStr for HookManager {
    type Err = HookManagerParseError;

    fn from_str(s: &str) -> Result<HookManager, HookManagerParseError> {
        HookManager::parse_name(s)
    }
}

/// Which manager the marker files present select, in priority order:
/// a lefthook configuration wins over a husky directory, which wins over
/// a simple-git-hooks entry; with none of them, nothing is selected and
/// the caller falls back to plain git hooks.
pub fn select_hook_manager(lefthook_config: bool, husky_dir: bool, simple_git_hooks_entry: bool)
    -> (r: Option<HookManager>)
    ensures
        lefthook_config ==> r == Some(HookManager::Lefthook),
        !lefthook_config && husky_dir ==> r == Some(HookManager::Husky),
        !lefthook_config && !husky_dir && simple_git_hooks_entry ==> r == Some(
            HookManager::SimpleGitHooks,
        ),
        !lefthook_config && !husky_dir && !simple_git_hooks_entry ==> r is None,
{
    if lefthook_config {
        Some(HookManager::Lefthook)
    } else if husky_dir {
        Some(HookManager::Husky)
    } else if simple_git_hooks_entry {
        Some(HookManager::SimpleGitHooks)
    } else {
        None
    }
}

/// Does a lefthook configuration text already declare the hook? When it
/// does, installation is skipped and the file left untouched.
pub fn lefthook_has_hook(content: &str) -> (b: bool)
    ensures
        b == has_sub(content@, "prepare-commit-msg:"@),
{
    let v = chars_of(content);
    let pat = chars_of("prepare-commit-msg:");
    proof {
        reveal_strlit("prepare-commit-msg:");
    }
    match find_in(&v, &pat, 0) {
        Some(i) => {
            assert(crate::text::contains_at(content@, "prepare-commit-msg:"@, i as int));
            true
        },
        None => {
            proof {
                lemma_find_from(v@, pat@, 0);
            }
            false
        },
    }
}

/// The command line a hook runs to write the generated message.
pub open spec fn hook_command_chars(a: AgentName) -> Seq<char> {
    "commitment --agent "@ + agent_name_chars(a) + " --message-only"@
}

/// The command a simple-git-hooks entry runs on prepare-commit-msg.
pub fn simple_git_hooks_command(agent: AgentName) -> (r: String)
    ensures
        r@ == hook_command_chars(agent),
{
    let mut s = String::from_str("commitment --agent ");
    s.append(agent.as_str());
    s.append(" --message-only");
    s
}

/// The script text of a husky prepare-commit-msg hook.
pub fn husky_hook_script(agent: AgentName) -> (r: String)
    ensures
        r@ == "#!/usr/bin/env sh\n. \"$(dirname -- \"$0\")/_/husky.sh\"\n\n"@ + hook_command_chars(
            agent,
        ) + "\n"@,
{
    let mut s = String::from_str("#!/usr/bin/env sh\n. \"$(dirname -- \"$0\")/_/husky.sh\"\n\n");
    s.append("commitment --agent ");
    s.append(agent.as_str());
    s.append(" --message-only");
    s.append("\n");
    proof {
        assert(s@ =~= "#!/usr/bin/env sh\n. \"$(dirname -- \"$0\")/_/husky.sh\"\n\n"@
            + hook_command_chars(agent) + "\n"@);
    }
    s
}

/// The script text of a plain git prepare-commit-msg hook.
pub fn plain_git_hook_script(agent: AgentName) -> (r: String)
    ensures
        r@ == "#!/usr/bin/env sh\n# commitment hook\n\n"@ + hook_command_chars(agent) + "\n"@,
{
    let mut s = String::from_str("#!/usr/bin/env sh\n# commitment hook\n\n");
    s.append("commitment --agent ");
    s.append(agent.as_str());
    s.append(" --message-only");
    s.append("\n");
    proof {
        assert(s@ =~= "#!/usr/bin/env sh\n# commitment hook\n\n"@ + hook_command_chars(agent)
            + "\n"@);
    }
    s
}

/// The shell snippet a lefthook command entry runs: it writes a message
/// only for regular commits, where the commit-source placeholder is left
/// unsubstituted.
pub fn lefthook_run_script(agent: AgentName) -> (r: String)
    ensures
        r@ == "case \"{2}\" in\n  *\"{\"*)\n    echo \"\u{1f916} Generating commit message...\" > /dev/tty 2>/dev/null || true\n    "@
            + hook_command_chars(agent) + " > \"{1}\"\n    ;;\nesac"@,
{
    let mut s = String::from_str(
        "case \"{2}\" in\n  *\"{\"*)\n    echo \"\u{1f916} Generating commit message...\" > /dev/tty 2>/dev/null || true\n    ",
    );
    s.append("commitment --agent ");
    s.append(agent.as_str());
    s.append(" --message-only");
    s.append(" > \"{1}\"\n    ;;\nesac");
    proof {
        assert(s@ =~= "case \"{2}\" in\n  *\"{\"*)\n    echo \"\u{1f916} Generating commit message...\" > /dev/tty 2>/dev/null || true\n    "@
            + hook_command_chars(agent) + " > \"{1}\"\n    ;;\nesac"@);
    }
    s
}

} // verus!
