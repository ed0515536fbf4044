//! Core data types: agent identities, the conventional-commit validator,
//! and the staged-diff payload.

use vstd::prelude::*;
use vstd::string::StringExecFns;

use crate::text::{
    chars_of, digit_char, eq_ci, is_digit, is_lower_alpha, lemma_trim_chars_shape,
    lower_alpha_char, lower_seq, string_from_chars, subvec, trim_chars, trim_vec,
};

verus! {

broadcast use vstd::string::group_string_axioms;

/// Closed set of supported AI command-line agents.
#[derive(Debug, Clone, Copy, PartialEq, Eq, Structural)]
pub enum AgentName {
    Copilot,
    Codex,
    Gemini,
}

/// Canonical lowercase name of an agent, as a character sequence.
pub open spec fn agent_name_chars(a: AgentName) -> Seq<char> {
    match a {
        AgentName::Copilot => "copilot"@,
        AgentName::Codex => "codex"@,
        AgentName::Gemini => "gemini"@,
    }
}

impl AgentName {
    /// Canonical lowercase name, used for CLI flags and display.
    /// It is also the name of the executable the agent is invoked by.
    pub fn as_str(&self) -> (r: &'static str)
        ensures
            r@ == agent_name_chars(*self),
    {
        match self {
            AgentName::Copilot => "copilot",
            AgentName::Codex => "codex",
            AgentName::Gemini => "gemini",
        }
    }

    /// Capitalized name for user-facing text such as commit signatures.
    pub fn display_name(&self) -> (r: &'static str)
        ensures
            *self == AgentName::Copilot ==> r@ == "Copilot"@,
            *self == AgentName::Codex ==> r@ == "Codex"@,
            *self == AgentName::Gemini ==> r@ == "Gemini"@,
    {
        match self {
            AgentName::Copilot => "Copilot",
            AgentName::Codex => "Codex",
            AgentName::Gemini => "Gemini",
        }
    }

    /// Installation documentation URL, shown when the agent is not found.
    pub fn install_url(&self) -> (r: &'static str)
        ensures
            *self == AgentName::Copilot ==> r@ == "https://docs.github.com/en/copilot"@,
            *self == AgentName::Codex ==> r@ == "https://github.com/phughk/codex"@,
            *self == AgentName::Gemini ==> r@ == "https://github.com/google/generative-ai-cli"@,
    {
        match self {
            AgentName::Copilot => "https://docs.github.com/en/copilot",
            AgentName::Codex => "https://github.com/phughk/codex",
            AgentName::Gemini => "https://github.com/google/generative-ai-cli",
        }
    }
}

/// Error when parsing an agent name from a string.
#[derive(Debug, Clone, PartialEq, Eq)]
pub struct AgentNameParseError {
    invalid: String,
}

impl View for AgentNameParseError {
    type V = Seq<char>;

    closed spec fn view(&self) -> Seq<char> {
        self.invalid@
    }
}

/// The rendered text of an agent-name parse error.
pub open spec fn agent_parse_error_chars(invalid: Seq<char>) -> Seq<char> {
    "invalid agent name '"@ + invalid + "' (expected: copilot, codex, gemini)"@
}

impl AgentNameParseError {
    /// Human-readable description, naming the rejected input and the
    /// accepted names.
    pub fn message(&self) -> (r: String)
        ensures
            r@ == agent_parse_error_chars(self@),
    {
        let mut s = String::from_str("invalid agent name '");
        s.append(self.invalid.as_str());
        s.append("' (expected: copilot, codex, gemini)");
        s
    }
}

impl AgentName {
    /// Parse an agent name, ignoring ASCII case. Exactly the strings whose
    /// ASCII-lowercase form is one of the three canonical names are
    /// accepted; anything else is returned in the error.
    pub fn parse_name(s: &str) -> (r: Result<AgentName, AgentNameParseError>)
        ensures
            r matches Ok(a) ==> lower_seq(s@) == agent_name_chars(a),
            r matches Err(e) ==> e@ == s@ && lower_seq(s@) != "copilot"@ && lower_seq(s@)
                != "codex"@ && lower_seq(s@) != "gemini"@,
    {
        let v = chars_of(s);
        if eq_ci(&v, "copilot") {
            Ok(AgentName::Copilot)
        } else if eq_ci(&v, "codex") {
            Ok(AgentName::Codex)
        } else if eq_ci(&v, "gemini") {
            Ok(AgentName::Gemini)
        } else {
            Err(AgentNameParseError { invalid: string_from_chars(&v) })
        }
    }
}

impl core::str::FromStr for AgentName {
    type Err = AgentNameParseError;

    fn from_str(s: &str) -> Result<AgentName, AgentNameParseError> {
        AgentName::parse_name(s)
    }
}

/// One of the eleven accepted commit type tags.
pub open spec fn is_commit_type(w: Seq<char>) -> bool {
    w == "feat"@ || w == "fix"@ || w == "docs"@ || w == "style"@ || w == "refactor"@ || w
        == "test"@ || w == "chore"@ || w == "perf"@ || w == "build"@ || w == "ci"@ || w
        == "revert"@
}

/// A character allowed in a scope: lowercase letters, digits and hyphens.
pub open spec fn is_scope_char(c: char) -> bool {
    is_lower_alpha(c) || is_digit(c) || c == '-'
}

/// The remainder after type and optional scope: a colon, one space, and a
/// description that starts with a character other than a newline.
pub open spec fn valid_colon_desc(r: Seq<char>) -> bool {
    r.len() >= 3 && r[0] == ':' && r[1] == ' ' && r[2] != '\n'
}

/// The remainder after the type tag: either the colon form directly, or a
/// parenthesized non-empty scope of scope characters followed by it.
pub open spec fn valid_after_type(r: Seq<char>) -> bool {
    valid_colon_desc(r) || (r.len() > 0 && r[0] == '(' && exists|j: int|
        2 <= j < r.len() && #[trigger] r[j] == ')' && (forall|k: int|
            1 <= k < j ==> is_scope_char(#[trigger] r[k])) && valid_colon_desc(
            r.subrange(j + 1, r.len() as int),
        ))
}

/// The start of a well-formed conventional commit message:
/// `type[(scope)]: description`, with one of the eleven type tags.
/// Lines after the first are unconstrained.
pub open spec fn valid_commit_start(s: Seq<char>) -> bool {
    exists|w: Seq<char>|
        #[trigger] is_commit_type(w) && w.len() <= s.len() && s.subrange(0, w.len() as int) == w
            && valid_after_type(s.subrange(w.len() as int, s.len() as int))
}

/// Is `c` a scope character?
fn scope_char(c: char) -> (b: bool)
    ensures
        b == is_scope_char(c),
{
    lower_alpha_char(c) || digit_char(c) || c == '-'
}

/// Does the remainder starting at `p` have the `: description` shape?
fn colon_desc_at(v: &Vec<char>, p: usize) -> (b: bool)
    requires
        p <= v@.len(),
    ensures
        b == valid_colon_desc(v@.subrange(p as int, v@.len() as int)),
{
    let n: usize = v.len();
    let b = n - p >= 3 && v[p] == ':' && v[p + 1] == ' ' && v[p + 2] != '\n';
    proof {
        let r = v@.subrange(p as int, v@.len() as int);
        if p + 3 <= n {
            assert(r[0] == v@[p as int] && r[1] == v@[p as int + 1] && r[2] == v@[p as int + 2]);
        }
    }
    b
}

/// Does the remainder starting at `p` have the optional-scope-plus-colon
/// shape?
fn after_type_at(v: &Vec<char>, p: usize) -> (b: bool)
    requires
        p <= v@.len(),
    ensures
        b == valid_after_type(v@.subrange(p as int, v@.len() as int)),
{
    let n: usize = v.len();
    let ghost r = v@.subrange(p as int, v@.len() as int);
    if colon_desc_at(v, p) {
        return true;
    }
    if p >= n || v[p] != '(' {
        assert(!valid_after_type(r)) by {
            if p < n {
                assert(r[0] == v@[p as int]);
            }
        }
        return false;
    }
    assert(r[0] == '(');
    let mut j: usize = p + 1;
    while j < n && scope_char(v[j])
        invariant
            p + 1 <= j <= n,
            n == v@.len(),
            forall|m: int| p + 1 <= m < j ==> is_scope_char(#[trigger] v@[m]),
        decreases n - j,
    {
        j += 1;
    }
    if j < n && v[j] == ')' && j >= p + 2 {
        let b = colon_desc_at(v, j + 1);
        proof {
            let jr = j - p;
            assert(r[jr] == ')');
            assert(forall|k: int| 1 <= k < jr ==> is_scope_char(#[trigger] r[k]));
            assert(r.subrange(jr + 1, r.len() as int) =~= v@.subrange(j + 1, v@.len() as int));
            if b {
                assert(valid_after_type(r));
            } else {
                assert forall|j2: int|
                    2 <= j2 < r.len() && #[trigger] r[j2] == ')' && (forall|k: int|
                        1 <= k < j2 ==> is_scope_char(#[trigger] r[k])) implies !valid_colon_desc(
                    r.subrange(j2 + 1, r.len() as int),
                ) by {
                    if j2 < jr {
                        assert(is_scope_char(r[j2]));
                        assert(false);
                    } else if j2 > jr {
                        assert(is_scope_char(r[jr]));
                        assert(false);
                    }
                }
            }
        }
        b
    } else {
        proof {
            let jr = j - p;
            assert forall|j2: int|
                2 <= j2 < r.len() && #[trigger] r[j2] == ')' && (forall|k: int|
                    1 <= k < j2 ==> is_scope_char(#[trigger] r[k])) implies false by {
                if j2 < jr {
                    assert(is_scope_char(r[j2]));
                } else {
                    if j < n {
                        assert(!is_scope_char(v@[j as int]) || v@[j as int] == ')');
                        if v@[j as int] == ')' {
                            assert(jr < 2);
                            assert(is_scope_char(r[1]));
                        } else {
                            assert(j2 > jr ==> is_scope_char(r[jr]));
                            assert(j2 == jr ==> r[j2] != ')');
                        }
                    } else {
                        assert(j2 < r.len() && r.len() == n - p);
                        assert(false);
                    }
                }
            }
            assert(!valid_after_type(r));
        }
        false
    }
}

/// Does `v` start as a well-formed conventional commit message?
fn commit_start_ok(v: &Vec<char>) -> (b: bool)
    ensures
        b == valid_commit_start(v@),
{
    let words: [&'static str; 11] = [
        "feat",
        "fix",
        "docs",
        "style",
        "refactor",
        "test",
        "chore",
        "perf",
        "build",
        "ci",
        "revert",
    ];
    proof {
        reveal_strlit("feat");
        reveal_strlit("fix");
        reveal_strlit("docs");
        reveal_strlit("style");
        reveal_strlit("refactor");
        reveal_strlit("test");
        reveal_strlit("chore");
        reveal_strlit("perf");
        reveal_strlit("build");
        reveal_strlit("ci");
        reveal_strlit("revert");
    }
    let mut idx: usize = 0;
    while idx < 11
        invariant
            0 <= idx <= 11,
            forall|m: int|
                0 <= m < idx ==> !(is_commit_type(#[trigger] words@[m]@) && words@[m]@.len()
                    <= v@.len() && v@.subrange(0, words@[m]@.len() as int) == words@[m]@
                    && valid_after_type(
                    v@.subrange(words@[m]@.len() as int, v@.len() as int),
                )),
            is_commit_type("feat"@) && words@[0]@ == "feat"@,
            words@[1]@ == "fix"@,
            words@[2]@ == "docs"@,
            words@[3]@ == "style"@,
            words@[4]@ == "refactor"@,
            words@[5]@ == "test"@,
            words@[6]@ == "chore"@,
            words@[7]@ == "perf"@,
            words@[8]@ == "build"@,
            words@[9]@ == "ci"@,
            words@[10]@ == "revert"@,
        decreases 11 - idx,
    {
        let w = chars_of(words[idx]);
        if w.len() <= v.len() {
            let pre = subvec(v, 0, w.len());
            if vec_eq(&pre, &w) {
                if after_type_at(v, w.len()) {
                    proof {
                        assert(is_commit_type(w@));
                        assert(valid_commit_start(v@));
                    }
                    return true;
                }
            }
        }
        idx += 1;
    }
    proof {
        assert forall|w: Seq<char>|
            is_commit_type(w) && w.len() <= v@.len() && v@.subrange(0, w.len() as int) == w
                && valid_after_type(
                v@.subrange(w.len() as int, v@.len() as int),
            ) implies false by {
            if w == "feat"@ {
                assert(words@[0]@ == w);
            } else if w == "fix"@ {
                assert(words@[1]@ == w);
            } else if w == "docs"@ {
                assert(words@[2]@ == w);
            } else if w == "style"@ {
                assert(words@[3]@ == w);
            } else if w == "refactor"@ {
                assert(words@[4]@ == w);
            } else if w == "test"@ {
                assert(words@[5]@ == w);
            } else if w == "chore"@ {
                assert(words@[6]@ == w);
            } else if w == "perf"@ {
                assert(words@[7]@ == w);
            } else if w == "build"@ {
                assert(words@[8]@ == w);
            } else if w == "ci"@ {
                assert(words@[9]@ == w);
            } else {
                assert(words@[10]@ == w);
            }
        }
    }
    false
}

/// Are two character vectors equal?
fn vec_eq(a: &Vec<char>, b: &Vec<char>) -> (r: bool)
    ensures
        r == (a@ == b@),
{
    if a.len() != b.len() {
        return false;
    }
    let n: usize = a.len();
    let mut k: usize = 0;
    while k < n
        invariant
            0 <= k <= n,
            n == a@.len() == b@.len(),
            forall|m: int| 0 <= m < k ==> a@[m] == b@[m],
        decreases n - k,
    {
        if a[k] != b[k] {
            return false;
        }
        k += 1;
    }
    assert(a@ =~= b@);
    true
}

/// Error when validating a commit message.
#[derive(Debug, Clone, PartialEq, Eq)]
pub enum CommitValidationError {
    Empty,
    InvalidFormat { message: String },
}

/// The rendered text of a commit validation error.
pub open spec fn commit_validation_error_chars(e: CommitValidationError) -> Seq<char> {
    match e {
        CommitValidationError::Empty => empty_commit_text(),
        CommitValidationError::InvalidFormat { message } => invalid_format_text(message@),
    }
}

/// The rendered text of the empty-message rejection.
pub open spec fn empty_commit_text() -> Seq<char> {
    "commit message is empty"@
}

/// The rendered text of the malformed-message rejection, carrying the
/// offending trimmed text.
pub open spec fn invalid_format_text(t: Seq<char>) -> Seq<char> {
    "invalid conventional commit format: '"@ + t + "'\nExpected: <type>(<scope>): <description>"@
}

impl CommitValidationError {
    /// Human-readable description of the validation failure.
    pub fn message(&self) -> (r: String)
        ensures
            r@ == commit_validation_error_chars(*self),
    {
        match self {
            CommitValidationError::Empty => String::from_str("commit message is empty"),
            CommitValidationError::InvalidFormat { message } => {
                let mut s = String::from_str("invalid conventional commit format: '");
                s.append(message.as_str());
                s.append("'\nExpected: <type>(<scope>): <description>");
                s
            },
        }
    }
}

/// A validated conventional commit message.
///
/// A value of this type can only be built through `validate`, so its text
/// always starts as `type[(scope)]: description` after trimming.
#[derive(Debug, Clone, PartialEq, Eq)]
pub struct ConventionalCommit {
    raw: String,
}

impl View for ConventionalCommit {
    type V = Seq<char>;

    closed spec fn view(&self) -> Seq<char> {
        self.raw@
    }
}

impl ConventionalCommit {
    /// The contained text is trimmed and matches the commit grammar.
    pub open spec fn wf(&self) -> bool {
        valid_commit_start(self@) && trim_chars(self@) == self@
    }

    /// Validate and construct a conventional commit message.
    ///
    /// The input is trimmed first. Empty-after-trim input is rejected as
    /// `Empty`; input whose first line does not match
    /// `type[(scope)]: description` with one of the eleven type tags is
    /// rejected as `InvalidFormat`, carrying the trimmed text; anything
    /// else is accepted verbatim (trimmed, never rewritten).
    pub fn validate(msg: &str) -> (r: Result<ConventionalCommit, CommitValidationError>)
        ensures
            trim_chars(msg@).len() == 0 ==> r == Err::<ConventionalCommit, CommitValidationError>(
                CommitValidationError::Empty,
            ),
            trim_chars(msg@).len() > 0 && valid_commit_start(trim_chars(msg@)) ==> (r matches Ok(c)
                && c@ == trim_chars(msg@) && c.wf()),
            trim_chars(msg@).len() > 0 && !valid_commit_start(trim_chars(msg@)) ==> (r matches Err(
                e,
            ) && (e matches CommitValidationError::InvalidFormat { message } && message@
                == trim_chars(msg@))),
    {
        let v = chars_of(msg);
        let t = trim_vec(&v);
        if t.len() == 0 {
            return Err(CommitValidationError::Empty);
        }
        if !commit_start_ok(&t) {
            return Err(
                CommitValidationError::InvalidFormat { message: string_from_chars(&t) },
            );
        }
        proof {
            lemma_trim_chars_shape(msg@);
        }
        Ok(ConventionalCommit { raw: string_from_chars(&t) })
    }

    /// The validated message text.
    pub fn as_str(&self) -> (r: &str)
        ensures
            r@ == self@,
    {
        self.raw.as_str()
    }
}

/// Lets `&commit` stand where `&str` is expected.
impl AsRef<str> for ConventionalCommit {
    fn as_ref(&self) -> &str {
        self.as_str()
    }
}

/// Lets string operations apply to the message directly.
impl core::ops::Deref for ConventionalCommit {
    type Target = str;

    fn deref(&self) -> &str {
        self.as_str()
    }
}

/// Staged change set: the three text blocks read from version control.
#[derive(Debug, Clone, PartialEq, Eq)]
pub struct StagedDiff {
    /// Summary of files and line counts changed.
    pub stat: String,
    /// Per-file status listing, one entry per changed file.
    pub name_status: String,
    /// Full unified diff text.
    pub diff: String,
}

impl Default for StagedDiff {
    /// An empty change set.
    fn default() -> (r: Self)
        ensures
            r.stat@ == Seq::<char>::empty(),
            r.name_status@ == Seq::<char>::empty(),
            r.diff@ == Seq::<char>::empty(),
    {
        StagedDiff { stat: String::new(), name_status: String::new(), diff: String::new() }
    }
}

} // verus!
