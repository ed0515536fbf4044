//! Prompt construction: a fixed instruction header, a derived change
//! summary, and the three diff sections, with the full diff text truncated
//! to a byte budget at a character boundary.

use vstd::prelude::*;
use vstd::string::StringExecFns;
use vstd::utf8::{encode_scalar, encode_utf8};

use crate::text::{
    chars_of, contains_at, dec_chars, digit_char, digit_val, digits_val, find_from, find_in,
    is_digit, lemma_find_from, match_at, render_u64, string_from_chars, subvec,
};
use crate::types::StagedDiff;

verus! {

/// Byte budget for the full diff section.
pub const MAX_DIFF_LENGTH: usize = 8000;

/// The marker appended when the diff was cut.
pub open spec fn trunc_marker() -> Seq<char> {
    "\n... (diff truncated)"@
}

/// Number of bytes in the UTF-8 encoding of one character.
pub open spec fn char_utf8_len(c: char) -> nat {
    let u = c as u32;
    if u < 0x80 {
        1
    } else if u < 0x800 {
        2
    } else if u < 0x10000 {
        3
    } else {
        4
    }
}

/// Number of bytes in the UTF-8 encoding of a character sequence.
pub open spec fn str_utf8_len(s: Seq<char>) -> nat
    decreases s.len(),
{
    if s.len() == 0 {
        0
    } else {
        char_utf8_len(s[0]) + str_utf8_len(s.drop_first())
    }
}

/// `str_utf8_len` is the length of the UTF-8 encoding.
pub proof fn lemma_str_utf8_len_is_encoding_len(s: Seq<char>)
    ensures
        str_utf8_len(s) == encode_utf8(s).len(),
    decreases s.len(),
{
    if s.len() > 0 {
        vstd::utf8::char_is_scalar(s[0]);
        assert(encode_scalar(s[0] as u32).len() == char_utf8_len(s[0]));
        lemma_str_utf8_len_is_encoding_len(s.drop_first());
    }
}

/// Byte length adds over concatenation.
pub proof fn lemma_str_utf8_len_concat(a: Seq<char>, b: Seq<char>)
    ensures
        str_utf8_len(a + b) == str_utf8_len(a) + str_utf8_len(b),
    decreases a.len(),
{
    if a.len() == 0 {
        assert(a + b =~= b);
    } else {
        assert((a + b).drop_first() =~= a.drop_first() + b);
        assert((a + b)[0] == a[0]);
        lemma_str_utf8_len_concat(a.drop_first(), b);
    }
}

proof fn lemma_str_utf8_len_push(s: Seq<char>, c: char)
    ensures
        str_utf8_len(s.push(c)) == str_utf8_len(s) + char_utf8_len(c),
{
    assert(s.push(c) =~= s + seq![c]);
    lemma_str_utf8_len_concat(s, seq![c]);
    lemma_str_utf8_len_single(c);
}

proof fn lemma_str_utf8_len_single(c: char)
    ensures
        str_utf8_len(seq![c]) == char_utf8_len(c),
{
    assert(seq![c].drop_first() =~= Seq::<char>::empty());
    assert(str_utf8_len(Seq::<char>::empty()) == 0);
    assert(seq![c][0] == c);
    assert(str_utf8_len(seq![c]) == char_utf8_len(c) + str_utf8_len(seq![c].drop_first()));
}

/// Character count of the longest prefix of `s` whose UTF-8 encoding fits
/// in `budget` bytes.
pub open spec fn fit_within(s: Seq<char>, budget: nat) -> int
    decreases s.len(),
{
    if s.len() == 0 {
        0
    } else if char_utf8_len(s[0]) <= budget {
        1 + fit_within(s.drop_first(), (budget - char_utf8_len(s[0])) as nat)
    } else {
        0
    }
}

/// A cut position whose prefix fits and whose next character does not
/// pins down `fit_within`.
proof fn lemma_fit_within_is(s: Seq<char>, budget: nat, k: int)
    requires
        0 <= k <= s.len(),
        str_utf8_len(s.subrange(0, k)) <= budget,
        k < s.len() ==> str_utf8_len(s.subrange(0, k + 1)) > budget,
    ensures
        fit_within(s, budget) == k,
    decreases s.len(),
{
    if s.len() == 0 {
    } else if k == 0 {
        if 0 < s.len() {
            assert(s.subrange(0, 1) =~= seq![s[0]]);
            lemma_str_utf8_len_single(s[0]);
            assert(char_utf8_len(s[0]) > budget);
        }
    } else {
        let t = s.drop_first();
        assert(s.subrange(0, k)[0] == s[0]);
        assert(s.subrange(0, k).drop_first() =~= t.subrange(0, k - 1));
        assert(str_utf8_len(t.subrange(0, k - 1)) + char_utf8_len(s[0]) == str_utf8_len(
            s.subrange(0, k),
        ));
        if k < s.len() {
            assert(s.subrange(0, k + 1)[0] == s[0]);
            assert(s.subrange(0, k + 1).drop_first() =~= t.subrange(0, k));
        }
        lemma_fit_within_is(t, (budget - char_utf8_len(s[0])) as nat, k - 1);
    }
}

/// The truncated form of the diff text: unchanged when its UTF-8 encoding
/// fits the budget, otherwise the longest fitting character prefix with
/// the truncation marker appended.
pub open spec fn truncated_diff(s: Seq<char>) -> Seq<char> {
    if str_utf8_len(s) <= MAX_DIFF_LENGTH {
        s
    } else {
        s.subrange(0, fit_within(s, MAX_DIFF_LENGTH as nat)) + trunc_marker()
    }
}

/// Number of bytes in the UTF-8 encoding of `c`.
fn char_utf8_len_exec(c: char) -> (l: usize)
    ensures
        l == char_utf8_len(c),
{
    let u = c as u32;
    if u < 0x80 {
        1
    } else if u < 0x800 {
        2
    } else if u < 0x10000 {
        3
    } else {
        4
    }
}

/// Truncate diff text to the byte budget, cutting only at a character
/// boundary and appending a visible marker when cut. The output's UTF-8
/// encoding never exceeds the budget plus the marker's length.
pub fn truncate_diff(diff: &str) -> (r: String)
    ensures
        r@ == truncated_diff(diff@),
        str_utf8_len(r@) <= MAX_DIFF_LENGTH + str_utf8_len(trunc_marker()),
        encode_utf8(r@).len() <= MAX_DIFF_LENGTH + encode_utf8(trunc_marker()).len(),
{
    let v = chars_of(diff);
    let n: usize = v.len();
    let mut bl: usize = 0;
    let mut i: usize = 0;
    while i < n
        invariant
            0 <= i <= n,
            n == v@.len(),
            v@ == diff@,
            bl == str_utf8_len(v@.subrange(0, i as int)),
            bl <= MAX_DIFF_LENGTH,
        decreases n - i,
    {
        let l = char_utf8_len_exec(v[i]);
        proof {
            assert(v@.subrange(0, i + 1) =~= v@.subrange(0, i as int).push(v@[i as int]));
            lemma_str_utf8_len_push(v@.subrange(0, i as int), v@[i as int]);
        }
        if bl + l > MAX_DIFF_LENGTH {
            proof {
                lemma_fit_within_is(v@, MAX_DIFF_LENGTH as nat, i as int);
                lemma_prefix_utf8_len_le(v@, i + 1);
                assert(str_utf8_len(v@) > MAX_DIFF_LENGTH);
            }
            let mut out = subvec(&v, 0, i);
            let marker = chars_of("\n... (diff truncated)");
            crate::text::append_vec(&mut out, &marker);
            proof {
                let pre = v@.subrange(0, i as int);
                assert(marker@ == trunc_marker());
                assert(i as int == fit_within(v@, MAX_DIFF_LENGTH as nat));
                assert(str_utf8_len(diff@) > MAX_DIFF_LENGTH);
                assert(truncated_diff(diff@) =~= pre + trunc_marker());
                assert(out@ =~= pre + trunc_marker());
                lemma_str_utf8_len_concat(pre, trunc_marker());
                lemma_str_utf8_len_is_encoding_len(out@);
                lemma_str_utf8_len_is_encoding_len(trunc_marker());
            }
            return string_from_chars(&out);
        }
        bl = bl + l;
        i += 1;
    }
    proof {
        assert(v@.subrange(0, n as int) =~= v@);
        lemma_str_utf8_len_is_encoding_len(v@);
        lemma_str_utf8_len_is_encoding_len(trunc_marker());
    }
    string_from_chars(&v)
}

/// A prefix never has more encoded bytes than the whole sequence.
proof fn lemma_prefix_utf8_len_le(s: Seq<char>, k: int)
    requires
        0 <= k <= s.len(),
    ensures
        str_utf8_len(s.subrange(0, k)) <= str_utf8_len(s),
{
    assert(s =~= s.subrange(0, k) + s.subrange(k, s.len() as int));
    lemma_str_utf8_len_concat(s.subrange(0, k), s.subrange(k, s.len() as int));
}

/// A line counts when it is non-empty after dropping one trailing
/// carriage return, as `str::lines` strips line endings.
pub open spec fn line_counts(line: Seq<char>) -> nat {
    let stripped = if line.len() > 0 && line.last() == '\r' {
        line.drop_last()
    } else {
        line
    };
    if stripped.len() > 0 {
        1nat
    } else {
        0nat
    }
}

/// Number of non-empty lines in the per-file status listing: one per
/// changed file.
pub open spec fn file_count(s: Seq<char>) -> nat
    decreases s.len(),
{
    if s.len() == 0 {
        0
    } else {
        let i = find_from(s, seq!['\n'], 0);
        if 0 <= i < s.len() {
            line_counts(s.subrange(0, i)) + file_count(s.subrange(i + 1, s.len() as int))
        } else {
            1
        }
    }
}

/// End of the digit run starting at `from`.
pub open spec fn digit_run_end(s: Seq<char>, from: int) -> int
    decreases s.len() - from,
    when 0 <= from <= s.len()
{
    if from < s.len() && is_digit(s[from]) {
        digit_run_end(s, from + 1)
    } else {
        from
    }
}

/// A digit run starting at `i` immediately followed by `word` and then
/// either its plural-plus-sign form or the plain sign form.
pub open spec fn stat_match_at(
    s: Seq<char>,
    i: int,
    word: Seq<char>,
    plural: Seq<char>,
    plain: Seq<char>,
) -> bool {
    0 <= i < s.len() && is_digit(s[i]) && {
        let e = digit_run_end(s, i);
        contains_at(s, word, e) && (contains_at(s, plural, e + word.len()) || contains_at(
            s,
            plain,
            e + word.len(),
        ))
    }
}

/// Position of the leftmost stat match, or -1 when there is none.
pub open spec fn first_stat_match(
    s: Seq<char>,
    from: int,
    word: Seq<char>,
    plural: Seq<char>,
    plain: Seq<char>,
) -> int
    decreases s.len() - from,
    when 0 <= from <= s.len()
{
    if from >= s.len() {
        -1
    } else if stat_match_at(s, from, word, plural, plain) {
        from
    } else {
        first_stat_match(s, from + 1, word, plural, plain)
    }
}

/// The number read from the leftmost stat match: its digit run in base
/// ten, zero when there is no match or the value does not fit `usize`.
pub open spec fn stat_count(
    s: Seq<char>,
    word: Seq<char>,
    plural: Seq<char>,
    plain: Seq<char>,
) -> nat {
    let i = first_stat_match(s, 0, word, plural, plain);
    if i >= 0 {
        let digits = s.subrange(i, digit_run_end(s, i));
        if digits_val(digits) <= usize::MAX {
            digits_val(digits)
        } else {
            0
        }
    } else {
        0
    }
}

/// Lines added, read from the stat summary's `N insertion(s)(+)` form.
pub open spec fn insertions_count(stat: Seq<char>) -> nat {
    stat_count(stat, " insertion"@, "s(+)"@, "(+)"@)
}

/// Lines removed, read from the stat summary's `N deletion(s)(-)` form.
pub open spec fn deletions_count(stat: Seq<char>) -> nat {
    stat_count(stat, " deletion"@, "s(-)"@, "(-)"@)
}

/// The derived change summary: file count from the status listing, line
/// counts from the stat summary, each defaulting to zero when absent.
pub open spec fn summary_chars(stat: Seq<char>, ns: Seq<char>) -> Seq<char> {
    "Files changed: "@ + dec_chars(file_count(ns)) + "\nLines added: "@ + dec_chars(
        insertions_count(stat),
    ) + "\nLines removed: "@ + dec_chars(deletions_count(stat))
}

/// A stop position where every character before it since `from` is a
/// digit pins down `digit_run_end`.
proof fn lemma_digit_run_end_is(s: Seq<char>, from: int, e: int)
    requires
        0 <= from <= e <= s.len(),
        forall|m: int| from <= m < e ==> is_digit(s[m]),
        e < s.len() ==> !is_digit(s[e]),
    ensures
        digit_run_end(s, from) == e,
    decreases e - from,
{
    if from < e {
        lemma_digit_run_end_is(s, from + 1, e);
    }
}

/// A position characterized as the leftmost stat match (or -1 for none)
/// is what `first_stat_match` returns.
proof fn lemma_first_stat_match_is(
    s: Seq<char>,
    from: int,
    r: int,
    word: Seq<char>,
    plural: Seq<char>,
    plain: Seq<char>,
)
    requires
        0 <= from <= s.len(),
        r == -1 ==> forall|m: int| from <= m ==> !stat_match_at(s, m, word, plural, plain),
        r != -1 ==> from <= r && stat_match_at(s, r, word, plural, plain) && forall|m: int|
            from <= m < r ==> !stat_match_at(s, m, word, plural, plain),
    ensures
        first_stat_match(s, from, word, plural, plain) == r,
    decreases s.len() - from,
{
    if from >= s.len() {
    } else if r == from {
    } else {
        lemma_first_stat_match_is(s, from + 1, r, word, plural, plain);
    }
}

/// A digit-sequence prefix never reads as a larger number than the whole.
proof fn lemma_digits_val_prefix_le(t: Seq<char>, j: int)
    requires
        0 <= j <= t.len(),
    ensures
        digits_val(t.subrange(0, j)) <= digits_val(t),
    decreases t.len() - j,
{
    if j == t.len() {
        assert(t.subrange(0, j) =~= t);
    } else {
        assert(t.subrange(0, j + 1).drop_last() =~= t.subrange(0, j));
        assert(digits_val(t.subrange(0, j + 1)) == digits_val(t.subrange(0, j)) * 10 + digit_val(
            t.subrange(0, j + 1).last(),
        ));
        lemma_digits_val_prefix_le(t, j + 1);
    }
}

/// Read the digit run `v[start..end]` in base ten, returning zero when
/// the value does not fit `usize`.
fn parse_digits_capped(v: &Vec<char>, start: usize, end: usize) -> (r: usize)
    requires
        start <= end <= v@.len(),
        forall|m: int| start <= m < end ==> is_digit(v@[m]),
    ensures
        digits_val(v@.subrange(start as int, end as int)) <= usize::MAX ==> r as nat == digits_val(
            v@.subrange(start as int, end as int),
        ),
        digits_val(v@.subrange(start as int, end as int)) > usize::MAX ==> r == 0,
{
    let mut acc: usize = 0;
    let mut k: usize = start;
    while k < end
        invariant
            start <= k <= end <= v@.len(),
            forall|m: int| start <= m < end ==> is_digit(v@[m]),
            acc as nat == digits_val(v@.subrange(start as int, k as int)),
        decreases end - k,
    {
        let d: u32 = (v[k] as u32) - 0x30;
        let du: usize = d as usize;
        proof {
            assert(v@.subrange(start as int, k + 1).drop_last() =~= v@.subrange(
                start as int,
                k as int,
            ));
            assert(v@.subrange(start as int, k + 1).last() == v@[k as int]);
            assert(du < 10);
            vstd::arithmetic::div_mod::lemma_fundamental_div_mod(
                usize::MAX as int - du as int,
                10,
            );
        }
        if acc > (usize::MAX - du) / 10 {
            proof {
                assert(10 * acc as int + du as int > usize::MAX as int);
                assert(digits_val(v@.subrange(start as int, k + 1)) > usize::MAX);
                lemma_digits_val_prefix_le(
                    v@.subrange(start as int, end as int),
                    k + 1 - start,
                );
                assert(v@.subrange(start as int, end as int).subrange(0, k + 1 - start) =~= v@
                    .subrange(start as int, k + 1));
            }
            return 0;
        }
        proof {
            assert(10 * acc as int + du as int <= usize::MAX as int);
        }
        acc = acc * 10 + du;
        k += 1;
    }
    proof {
        assert(v@.subrange(start as int, k as int) =~= v@.subrange(start as int, end as int));
    }
    acc
}

/// Count the non-empty lines of `v`.
fn count_lines_vec(v: &Vec<char>) -> (r: usize)
    ensures
        r as nat == file_count(v@),
        r <= v@.len(),
    decreases v@.len(),
{
    let n: usize = v.len();
    if n == 0 {
        return 0;
    }
    let nl = chars_of("\n");
    proof {
        reveal_strlit("\n");
        assert(nl@ =~= seq!['\n']);
    }
    match find_in(v, &nl, 0) {
        None => 1,
        Some(i) => {
            proof {
                assert(v@.subrange(i as int, i + 1)[0] == v@[i as int]);
                assert(v@[i as int] == '\n');
            }
            let line_c: usize = if i == 0 || (i == 1 && v[0] == '\r') {
                0
            } else {
                1
            };
            proof {
                let line = v@.subrange(0, i as int);
                if i > 0 {
                    assert(line.last() == v@[i - 1]);
                }
                assert(line_c as nat == line_counts(line));
            }
            let rest = subvec(v, i + 1, n);
            let rc = count_lines_vec(&rest);
            line_c + rc
        },
    }
}

/// Find the value of the leftmost `N word(plural|plain)` pattern in `v`,
/// zero when absent.
fn stat_count_vec(v: &Vec<char>, word: &Vec<char>, plural: &Vec<char>, plain: &Vec<char>) -> (r:
    usize)
    ensures
        r as nat == stat_count(v@, word@, plural@, plain@),
{
    let n: usize = v.len();
    let mut i: usize = 0;
    while i < n
        invariant
            0 <= i <= n,
            n == v@.len(),
            forall|m: int| 0 <= m < i ==> !stat_match_at(v@, m, word@, plural@, plain@),
        decreases n - i,
    {
        if digit_char(v[i]) {
            let mut e: usize = i;
            while e < n && digit_char(v[e])
                invariant
                    i <= e <= n,
                    n == v@.len(),
                    forall|m: int| i <= m < e ==> is_digit(v@[m]),
                decreases n - e,
            {
                e += 1;
            }
            proof {
                lemma_digit_run_end_is(v@, i as int, e as int);
            }
            let mut ok: bool = false;
            if word.len() <= n - e && match_at(v, word, e) {
                let q = e + word.len();
                if plural.len() <= n - q && match_at(v, plural, q) {
                    ok = true;
                } else if plain.len() <= n - q && match_at(v, plain, q) {
                    ok = true;
                }
            }
            if ok {
                proof {
                    assert(stat_match_at(v@, i as int, word@, plural@, plain@));
                    lemma_first_stat_match_is(v@, 0, i as int, word@, plural@, plain@);
                }
                return parse_digits_capped(v, i, e);
            }
            proof {
                assert forall|m: int|
                    i <= m <= e && m < n implies !stat_match_at(
                    v@,
                    m,
                    word@,
                    plural@,
                    plain@,
                ) by {
                    if m < e {
                        lemma_digit_run_end_is(v@, m, e as int);
                        assert(digit_run_end(v@, m) == e);
                    } else {
                        assert(m == e);
                        if e < n {
                            assert(!is_digit(v@[m]));
                        } else {
                            lemma_digit_run_end_is(v@, m, e as int);
                        }
                    }
                }
            }
            if e < n {
                i = e + 1;
            } else {
                i = n;
            }
        } else {
            i += 1;
        }
    }
    proof {
        lemma_first_stat_match_is(v@, 0, -1, word@, plural@, plain@);
    }
    0
}

/// Build the derived change summary: file count from the per-file
/// listing, and added/removed line counts parsed from the stat summary,
/// zero when absent.
pub fn parse_change_summary(stat: &str, name_status: &str) -> (r: String)
    ensures
        r@ == summary_chars(stat@, name_status@),
{
    let sv = chars_of(stat);
    let nv = chars_of(name_status);
    let files = count_lines_vec(&nv);
    let w_ins = chars_of(" insertion");
    let pl_ins = chars_of("s(+)");
    let pn_ins = chars_of("(+)");
    let ins = stat_count_vec(&sv, &w_ins, &pl_ins, &pn_ins);
    let w_del = chars_of(" deletion");
    let pl_del = chars_of("s(-)");
    let pn_del = chars_of("(-)");
    let del = stat_count_vec(&sv, &w_del, &pl_del, &pn_del);
    let mut out = String::from_str("Files changed: ");
    let fs = string_from_chars(&render_u64(files as u64));
    out.append(fs.as_str());
    out.append("\nLines added: ");
    let is_ = string_from_chars(&render_u64(ins as u64));
    out.append(is_.as_str());
    out.append("\nLines removed: ");
    let ds = string_from_chars(&render_u64(del as u64));
    out.append(ds.as_str());
    proof {
        assert(out@ =~= summary_chars(stat@, name_status@));
    }
    out
}

/// The fixed instruction header of every prompt: format rules, an
/// example, and the extraction-marker convention.
pub open spec fn prompt_header() -> Seq<char> {
    "Generate a professional commit message based on the actual code changes.\n\n"@
        + "Requirements:\n"@
        + "1. ANALYZE THE ACTUAL CODE CHANGES - don't guess based on file names\n"@
        + "2. Clear, descriptive title (50 chars or less) following conventional commits\n"@
        + "   - Start with type: feat, fix, docs, style, refactor, test, chore, perf, build, ci, revert\n"@
        + "   - Optional scope in parentheses: type(scope): description\n"@
        + "3. Be CONCISE - match detail level to scope of changes:\n"@
        + "   - Single file/method: 2-4 bullet points max\n"@
        + "   - Multiple files: 4-6 bullet points max\n"@
        + "   - Major refactor: 6+ bullet points as needed\n"@
        + "4. Use imperative mood (\"Add feature\" not \"Added feature\")\n"@
        + "5. Format: Title + blank line + bullet point details (use - prefix)\n"@
        + "6. Focus on the most important changes from the diff:\n"@
        + "   - Key functionality added/modified/removed\n"@
        + "   - Significant logic or behavior changes\n"@
        + "   - Important architectural changes\n"@
        + "7. Avoid over-describing implementation details for small changes\n"@
        + "8. DO NOT write preamble like \"Looking at the changes\"\n"@
        + "9. Start directly with the action (\"Add\", \"Fix\", \"Update\", etc.)\n"@
        + "10. Quality over quantity - fewer, more meaningful bullet points\n\n"@
        + "Example format:\n"@ + "feat: add user authentication system\n\n"@
        + "- Implement JWT-based authentication flow\n"@
        + "- Add login/logout endpoints in auth routes\n"@
        + "- Create user session management middleware\n\n"@
        + "Return ONLY the commit message content between these markers:\n"@
        + "<<<COMMIT_MESSAGE_START>>>\n"@ + "(commit message goes here)\n"@
        + "<<<COMMIT_MESSAGE_END>>>\n\n"@
}

/// A raw section body: the content followed by a newline, or a literal
/// placeholder when the content is empty.
pub open spec fn section_body(content: Seq<char>) -> Seq<char> {
    if content.len() == 0 {
        "(no changes)\n"@
    } else {
        content + "\n"@
    }
}

/// The full-diff section body: truncated content, or the placeholder.
pub open spec fn diff_section_body(d: Seq<char>) -> Seq<char> {
    if d.len() == 0 {
        "(no changes)\n"@
    } else {
        truncated_diff(d) + "\n"@
    }
}

/// The whole prompt built from the three diff components.
pub open spec fn prompt_chars(stat: Seq<char>, ns: Seq<char>, d: Seq<char>) -> Seq<char> {
    prompt_header() + "=== CHANGE SUMMARY ===\n"@ + summary_chars(stat, ns) + "\n\n"@
        + "=== FILE STATISTICS ===\n"@ + section_body(stat) + "\n"@ + "=== FILE STATUS ===\n"@
        + section_body(ns) + "\n"@ + "=== FULL DIFF ===\n"@ + diff_section_body(d)
}

/// Build the agent prompt: the fixed instruction header, the derived
/// change summary, and the three clearly delimited diff sections, with
/// the full diff truncated to the byte budget and empty sections rendered
/// as a placeholder.
#[verifier::rlimit(30)]
pub fn build_prompt(diff: &StagedDiff) -> (r: String)
    ensures
        r@ == prompt_chars(diff.stat@, diff.name_status@, diff.diff@),
{
    let mut p = String::from_str(
        "Generate a professional commit message based on the actual code changes.\n\n",
    );
    p.append("Requirements:\n");
    p.append("1. ANALYZE THE ACTUAL CODE CHANGES - don't guess based on file names\n");
    p.append("2. Clear, descriptive title (50 chars or less) following conventional commits\n");
    p.append(
        "   - Start with type: feat, fix, docs, style, refactor, test, chore, perf, build, ci, revert\n",
    );
    p.append("   - Optional scope in parentheses: type(scope): description\n");
    p.append("3. Be CONCISE - match detail level to scope of changes:\n");
    p.append("   - Single file/method: 2-4 bullet points max\n");
    p.append("   - Multiple files: 4-6 bullet points max\n");
    p.append("   - Major refactor: 6+ bullet points as needed\n");
    p.append("4. Use imperative mood (\"Add feature\" not \"Added feature\")\n");
    p.append("5. Format: Title + blank line + bullet point details (use - prefix)\n");
    p.append("6. Focus on the most important changes from the diff:\n");
    p.append("   - Key functionality added/modified/removed\n");
    p.append("   - Significant logic or behavior changes\n");
    p.append("   - Important architectural changes\n");
    p.append("7. Avoid over-describing implementation details for small changes\n");
    p.append("8. DO NOT write preamble like \"Looking at the changes\"\n");
    p.append("9. Start directly with the action (\"Add\", \"Fix\", \"Update\", etc.)\n");
    p.append("10. Quality over quantity - fewer, more meaningful bullet points\n\n");
    p.append("Example format:\n");
    p.append("feat: add user authentication system\n\n");
    p.append("- Implement JWT-based authentication flow\n");
    p.append("- Add login/logout endpoints in auth routes\n");
    p.append("- Create user session management middleware\n\n");
    p.append("Return ONLY the commit message content between these markers:\n");
    p.append("<<<COMMIT_MESSAGE_START>>>\n");
    p.append("(commit message goes here)\n");
    p.append("<<<COMMIT_MESSAGE_END>>>\n\n");
    assert(p@ == prompt_header());
    p.append("=== CHANGE SUMMARY ===\n");
    let summary = parse_change_summary(diff.stat.as_str(), diff.name_status.as_str());
    p.append(summary.as_str());
    p.append("\n\n");
    p.append("=== FILE STATISTICS ===\n");
    if diff.stat.as_str().is_empty() {
        p.append("(no changes)\n");
    } else {
        p.append(diff.stat.as_str());
        p.append("\n");
    }
    p.append("\n");
    p.append("=== FILE STATUS ===\n");
    if diff.name_status.as_str().is_empty() {
        p.append("(no changes)\n");
    } else {
        p.append(diff.name_status.as_str());
        p.append("\n");
    }
    p.append("\n");
    p.append("=== FULL DIFF ===\n");
    if diff.diff.as_str().is_empty() {
        p.append("(no changes)\n");
    } else {
        let t = truncate_diff(diff.diff.as_str());
        p.append(t.as_str());
        p.append("\n");
    }
    proof {
        assert(p@ =~= prompt_chars(diff.stat@, diff.name_status@, diff.diff@));
    }
    p
}

} // verus!
