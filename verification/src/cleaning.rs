//! Response cleaning: an ordered pipeline of text transforms that strips
//! agent-output artifacts down to the plausible commit-message text.
//!
//! The stages run in a fixed, load-bearing order: marker extraction, fenced
//! block unwrapping, preamble stripping, thinking-block removal, newline
//! collapsing, and a final trim.

use vstd::prelude::*;

use crate::text::{
    append_vec, chars_of, contains_at, find_from, find_in, is_lower_alpha, is_ws,
    lemma_find_from, lemma_find_from_is, lower_alpha_char, no_triple_newline,
    run_end_lower_alpha, starts_with_ci, starts_with_ci_vec, string_from_chars, subvec,
    trim_chars, trim_vec, ws_char,
};

verus! {

/// The opening extraction marker the prompt instructs agents to emit.
pub open spec fn marker_start() -> Seq<char> {
    "<<<COMMIT_MESSAGE_START>>>"@
}

/// The closing extraction marker.
pub open spec fn marker_end() -> Seq<char> {
    "<<<COMMIT_MESSAGE_END>>>"@
}

/// A triple-backtick fence delimiter.
pub open spec fn fence_pat() -> Seq<char> {
    "```"@
}

/// The opening tag of a thinking block.
pub open spec fn think_open() -> Seq<char> {
    "<thinking>"@
}

/// The closing tag of a thinking block.
pub open spec fn think_close() -> Seq<char> {
    "</thinking>"@
}

/// The text holds a start marker with an end marker somewhere after it.
pub open spec fn has_marker_pair(s: Seq<char>) -> bool {
    let i = find_from(s, marker_start(), 0);
    i >= 0 && find_from(s, marker_end(), i + marker_start().len()) >= 0
}

/// The text between the first start marker and the first end marker after it.
pub open spec fn marker_inner(s: Seq<char>) -> Seq<char>
    recommends
        has_marker_pair(s),
{
    let i = find_from(s, marker_start(), 0);
    let j = find_from(s, marker_end(), i + marker_start().len());
    s.subrange(i + marker_start().len(), j)
}

/// Stage one: when both extraction markers are present, the whole text is
/// replaced by what stands between them; otherwise it is left unchanged.
pub open spec fn extract_marker(s: Seq<char>) -> Seq<char> {
    if has_marker_pair(s) {
        marker_inner(s)
    } else {
        s
    }
}

/// Where the content of a fence opened at `i` starts: after the three
/// backticks, skipping an optional language tag that ends in a newline.
pub open spec fn fence_content_start(s: Seq<char>, i: int) -> int {
    let e = run_end_lower_alpha(s, i + fence_pat().len());
    if e < s.len() && s[e] == '\n' {
        e + 1
    } else {
        i + fence_pat().len()
    }
}

/// Stage two: every paired triple-backtick fence is replaced by its inner
/// content, with an optional language tag on the opening fence dropped.
pub open spec fn unwrap_fences(s: Seq<char>) -> Seq<char>
    decreases s.len(),
{
    let i = find_from(s, fence_pat(), 0);
    if i >= 0 {
        let cs = fence_content_start(s, i);
        if 0 <= cs <= s.len() {
            let j = find_from(s, fence_pat(), cs);
            let cut = j + fence_pat().len();
            if j >= cs && 0 < cut <= s.len() {
                s.subrange(0, i) + s.subrange(cs, j) + unwrap_fences(
                    s.subrange(cut, s.len() as int),
                )
            } else {
                s
            }
        } else {
            s
        }
    } else {
        s
    }
}

/// Length of the preamble lead-in at the start of `s`, or -1 when none of
/// the recognized phrases is there.
pub open spec fn preamble_prefix_len(s: Seq<char>) -> int {
    if starts_with_ci(s, "here is"@) {
        "here is"@.len() as int
    } else if starts_with_ci(s, "here's"@) {
        "here's"@.len() as int
    } else if starts_with_ci(s, "the commit message"@) {
        "the commit message"@.len() as int
    } else if starts_with_ci(s, "commit message"@) {
        "commit message"@.len() as int
    } else {
        -1
    }
}

/// First colon at or after `from` on the same line: -1 when a newline or
/// the end of the text comes first.
pub open spec fn colon_scan(s: Seq<char>, from: int) -> int
    decreases s.len() - from,
    when 0 <= from <= s.len()
{
    if from >= s.len() {
        -1
    } else if s[from] == ':' {
        from
    } else if s[from] == '\n' {
        -1
    } else {
        colon_scan(s, from + 1)
    }
}

/// End of the whitespace run starting at `from`.
pub open spec fn ws_run_end(s: Seq<char>, from: int) -> int
    decreases s.len() - from,
    when 0 <= from <= s.len()
{
    if from < s.len() && is_ws(s[from]) {
        ws_run_end(s, from + 1)
    } else {
        from
    }
}

/// The text starts with a recognized preamble phrase followed by a colon
/// on the same line.
pub open spec fn has_preamble(s: Seq<char>) -> bool {
    let p = preamble_prefix_len(s);
    p >= 0 && colon_scan(s, p) >= 0
}

/// Stage three: a leading "here is the commit message:"-style sentence,
/// through its colon and the whitespace after it, is removed.
pub open spec fn strip_preamble(s: Seq<char>) -> Seq<char> {
    let p = preamble_prefix_len(s);
    if p >= 0 {
        let k = colon_scan(s, p);
        if k >= 0 {
            let e = ws_run_end(s, k + 1);
            if 0 <= e <= s.len() {
                s.subrange(e, s.len() as int)
            } else {
                s
            }
        } else {
            s
        }
    } else {
        s
    }
}

/// Stage four: every `<thinking>`...`</thinking>` span is removed.
pub open spec fn strip_thinking(s: Seq<char>) -> Seq<char>
    decreases s.len(),
{
    let i = find_from(s, think_open(), 0);
    if i >= 0 {
        let j = find_from(s, think_close(), i + think_open().len());
        let cut = j + think_close().len();
        if j >= 0 && 0 < cut <= s.len() {
            s.subrange(0, i) + strip_thinking(s.subrange(cut, s.len() as int))
        } else {
            s
        }
    } else {
        s
    }
}

/// Extract the text between the markers, when both are present.
fn extract_marker_vec(v: &Vec<char>) -> (r: Vec<char>)
    ensures
        r@ == extract_marker(v@),
{
    let n: usize = v.len();
    let start_pat = chars_of("<<<COMMIT_MESSAGE_START>>>");
    let end_pat = chars_of("<<<COMMIT_MESSAGE_END>>>");
    proof {
        reveal_strlit("<<<COMMIT_MESSAGE_START>>>");
        reveal_strlit("<<<COMMIT_MESSAGE_END>>>");
    }
    match find_in(v, &start_pat, 0) {
        None => subvec(v, 0, n),
        Some(i) => {
            let after = i + start_pat.len();
            match find_in(v, &end_pat, after) {
                None => subvec(v, 0, n),
                Some(j) => subvec(v, after, j),
            }
        },
    }
}

/// Three consecutive newlines, the shortest run that stage five rewrites.
pub open spec fn nl3() -> Seq<char> {
    seq!['\n', '\n', '\n']
}

/// End of the newline run starting at `from`.
pub open spec fn nl_run_end(s: Seq<char>, from: int) -> int
    decreases s.len() - from,
    when 0 <= from <= s.len()
{
    if from < s.len() && s[from] == '\n' {
        nl_run_end(s, from + 1)
    } else {
        from
    }
}

/// Stage five: every run of three or more newlines is collapsed to
/// exactly two.
pub open spec fn collapse_newlines(s: Seq<char>) -> Seq<char>
    decreases s.len(),
{
    let i = find_from(s, nl3(), 0);
    if i >= 0 {
        let e = nl_run_end(s, i);
        if i + 3 <= e <= s.len() {
            s.subrange(0, i) + seq!['\n', '\n'] + collapse_newlines(s.subrange(e, s.len() as int))
        } else {
            s
        }
    } else {
        s
    }
}

/// The whole cleaning pipeline, in its fixed stage order.
pub open spec fn clean_chars(s: Seq<char>) -> Seq<char> {
    trim_chars(collapse_newlines(strip_thinking(strip_preamble(unwrap_fences(extract_marker(s))))))
}

/// A stop position where every character before it since `from` is a
/// lowercase letter pins down `run_end_lower_alpha`.
proof fn lemma_run_end_lower_alpha_is(s: Seq<char>, from: int, e: int)
    requires
        0 <= from <= e <= s.len(),
        forall|m: int| from <= m < e ==> is_lower_alpha(s[m]),
        e < s.len() ==> !is_lower_alpha(s[e]),
    ensures
        run_end_lower_alpha(s, from) == e,
    decreases e - from,
{
    if from < e {
        lemma_run_end_lower_alpha_is(s, from + 1, e);
    }
}

/// A stop position with no colon or newline before it pins down
/// `colon_scan`.
proof fn lemma_colon_scan_is(s: Seq<char>, from: int, e: int, found: bool)
    requires
        0 <= from <= e <= s.len(),
        forall|m: int| from <= m < e ==> s[m] != ':' && s[m] != '\n',
        found ==> e < s.len() && s[e] == ':',
        !found ==> e == s.len() || s[e] == '\n',
    ensures
        colon_scan(s, from) == if found {
            e
        } else {
            -1
        },
    decreases e - from,
{
    if from < e {
        lemma_colon_scan_is(s, from + 1, e, found);
    }
}

/// A stop position where every character before it since `from` is
/// whitespace pins down `ws_run_end`.
proof fn lemma_ws_run_end_is(s: Seq<char>, from: int, e: int)
    requires
        0 <= from <= e <= s.len(),
        forall|m: int| from <= m < e ==> is_ws(s[m]),
        e < s.len() ==> !is_ws(s[e]),
    ensures
        ws_run_end(s, from) == e,
    decreases e - from,
{
    if from < e {
        lemma_ws_run_end_is(s, from + 1, e);
    }
}

/// Unwrap every paired fence.
fn unwrap_fences_vec(v: &Vec<char>) -> (r: Vec<char>)
    ensures
        r@ == unwrap_fences(v@),
    decreases v@.len(),
{
    let n: usize = v.len();
    let pat = chars_of("```");
    proof {
        reveal_strlit("```");
    }
    match find_in(v, &pat, 0) {
        None => subvec(v, 0, n),
        Some(i) => {
            let mut e: usize = i + 3;
            while e < n && lower_alpha_char(v[e])
                invariant
                    i + 3 <= e <= n,
                    n == v@.len(),
                    forall|m: int| i + 3 <= m < e ==> is_lower_alpha(v@[m]),
                decreases n - e,
            {
                e += 1;
            }
            proof {
                lemma_run_end_lower_alpha_is(v@, i + 3, e as int);
            }
            let cs: usize = if e < n && v[e] == '\n' {
                e + 1
            } else {
                i + 3
            };
            assert(cs as int == fence_content_start(v@, i as int));
            match find_in(v, &pat, cs) {
                None => subvec(v, 0, n),
                Some(j) => {
                    let mut out = subvec(v, 0, i);
                    let mid = subvec(v, cs, j);
                    append_vec(&mut out, &mid);
                    let rest = subvec(v, j + 3, n);
                    let tail = unwrap_fences_vec(&rest);
                    append_vec(&mut out, &tail);
                    out
                },
            }
        },
    }
}

/// Find the first colon at or after `from` on the same line.
fn scan_colon(v: &Vec<char>, from: usize) -> (r: Option<usize>)
    requires
        from <= v@.len(),
    ensures
        match r {
            Some(k) => k as int == colon_scan(v@, from as int) && from <= k < v@.len()
                && v@[k as int] == ':',
            None => colon_scan(v@, from as int) == -1,
        },
{
    let n: usize = v.len();
    let mut k: usize = from;
    while k < n
        invariant
            from <= k <= n,
            n == v@.len(),
            forall|m: int| from <= m < k ==> v@[m] != ':' && v@[m] != '\n',
        decreases n - k,
    {
        if v[k] == ':' {
            proof {
                lemma_colon_scan_is(v@, from as int, k as int, true);
            }
            return Some(k);
        }
        if v[k] == '\n' {
            proof {
                lemma_colon_scan_is(v@, from as int, k as int, false);
            }
            return None;
        }
        k += 1;
    }
    proof {
        lemma_colon_scan_is(v@, from as int, n as int, false);
    }
    None
}

/// Strip a leading preamble sentence.
fn strip_preamble_vec(v: &Vec<char>) -> (r: Vec<char>)
    ensures
        r@ == strip_preamble(v@),
{
    let n: usize = v.len();
    let p1 = chars_of("here is");
    let p2 = chars_of("here's");
    let p3 = chars_of("the commit message");
    let p4 = chars_of("commit message");
    proof {
        reveal_strlit("here is");
        reveal_strlit("here's");
        reveal_strlit("the commit message");
        reveal_strlit("commit message");
    }
    let plen: usize = if starts_with_ci_vec(v, &p1) {
        p1.len()
    } else if starts_with_ci_vec(v, &p2) {
        p2.len()
    } else if starts_with_ci_vec(v, &p3) {
        p3.len()
    } else if starts_with_ci_vec(v, &p4) {
        p4.len()
    } else {
        proof {
            assert(preamble_prefix_len(v@) == -1);
        }
        return subvec(v, 0, n);
    };
    assert(plen as int == preamble_prefix_len(v@));
    assert(plen <= n);
    let k: usize = match scan_colon(v, plen) {
        None => {
            return subvec(v, 0, n);
        },
        Some(k) => k,
    };
    let mut e: usize = k + 1;
    while e < n && ws_char(v[e])
        invariant
            k + 1 <= e <= n,
            n == v@.len(),
            forall|m: int| k + 1 <= m < e ==> is_ws(v@[m]),
        decreases n - e,
    {
        e += 1;
    }
    proof {
        lemma_ws_run_end_is(v@, k + 1, e as int);
    }
    subvec(v, e, n)
}

/// Remove every paired thinking block.
fn strip_thinking_vec(v: &Vec<char>) -> (r: Vec<char>)
    ensures
        r@ == strip_thinking(v@),
    decreases v@.len(),
{
    let n: usize = v.len();
    let open_pat = chars_of("<thinking>");
    let close_pat = chars_of("</thinking>");
    proof {
        reveal_strlit("<thinking>");
        reveal_strlit("</thinking>");
    }
    match find_in(v, &open_pat, 0) {
        None => subvec(v, 0, n),
        Some(i) => {
            let after = i + open_pat.len();
            match find_in(v, &close_pat, after) {
                None => subvec(v, 0, n),
                Some(j) => {
                    let mut out = subvec(v, 0, i);
                    let rest = subvec(v, j + close_pat.len(), n);
                    let tail = strip_thinking_vec(&rest);
                    append_vec(&mut out, &tail);
                    out
                },
            }
        },
    }
}

/// A stop position where every character before it since `from` is a
/// newline pins down `nl_run_end`.
proof fn lemma_nl_run_end_is(s: Seq<char>, from: int, e: int)
    requires
        0 <= from <= e <= s.len(),
        forall|m: int| from <= m < e ==> s[m] == '\n',
        e < s.len() ==> s[e] != '\n',
    ensures
        nl_run_end(s, from) == e,
    decreases e - from,
{
    if from < e {
        lemma_nl_run_end_is(s, from + 1, e);
    }
}

/// Collapse every long newline run.
fn collapse_newlines_vec(v: &Vec<char>) -> (r: Vec<char>)
    ensures
        r@ == collapse_newlines(v@),
    decreases v@.len(),
{
    let n: usize = v.len();
    let pat = chars_of("\n\n\n");
    proof {
        reveal_strlit("\n\n\n");
        assert(pat@ =~= nl3());
    }
    match find_in(v, &pat, 0) {
        None => subvec(v, 0, n),
        Some(i) => {
            assert(forall|m: int|
                i <= m < i + 3 ==> v@[m] == '\n') by {
                assert(forall|k: int|
                    0 <= k < 3 ==> v@.subrange(i as int, i + 3)[k] == #[trigger] nl3()[k]);
            }
            let mut e: usize = i + 3;
            while e < n && v[e] == '\n'
                invariant
                    i + 3 <= e <= n,
                    n == v@.len(),
                    forall|m: int| i + 3 <= m < e ==> v@[m] == '\n',
                decreases n - e,
            {
                e += 1;
            }
            proof {
                lemma_nl_run_end_is(v@, i as int, e as int);
            }
            let mut out = subvec(v, 0, i);
            let two = chars_of("\n\n");
            proof {
                reveal_strlit("\n\n");
                assert(two@ =~= seq!['\n', '\n']);
            }
            append_vec(&mut out, &two);
            let rest = subvec(v, e, n);
            let tail = collapse_newlines_vec(&rest);
            append_vec(&mut out, &tail);
            out
        },
    }
}

/// Clean a raw agent response: extract the marked span, unwrap fences,
/// strip a preamble, drop thinking blocks, collapse newline runs and trim.
/// Total: it never fails, and empty or whitespace-only input cleans to
/// the empty string.
pub fn clean_ai_response(raw: &str) -> (r: String)
    ensures
        r@ == clean_chars(raw@),
        no_triple_newline(r@),
{
    let v0 = chars_of(raw);
    let v1 = extract_marker_vec(&v0);
    let v2 = unwrap_fences_vec(&v1);
    let v3 = strip_preamble_vec(&v2);
    let v4 = strip_thinking_vec(&v3);
    let v5 = collapse_newlines_vec(&v4);
    let v6 = trim_vec(&v5);
    proof {
        lemma_collapse_no_triple(v4@);
        crate::text::lemma_no_triple_trim(v5@);
    }
    string_from_chars(&v6)
}

/// The text holds a complete fence: an opening triple backtick with a
/// closing one after its content start.
pub open spec fn has_fence_pair(s: Seq<char>) -> bool {
    let i = find_from(s, fence_pat(), 0);
    i >= 0 && {
        let cs = fence_content_start(s, i);
        0 <= cs <= s.len() && {
            let j = find_from(s, fence_pat(), cs);
            j >= cs && 0 < j + fence_pat().len() <= s.len()
        }
    }
}

/// The text holds a complete thinking block.
pub open spec fn has_thinking_pair(s: Seq<char>) -> bool {
    let i = find_from(s, think_open(), 0);
    i >= 0 && {
        let j = find_from(s, think_close(), i + think_open().len());
        j >= 0 && 0 < j + think_close().len() <= s.len()
    }
}

/// None of the four rewriting stages has anything left to do on `s`.
pub open spec fn is_settled(s: Seq<char>) -> bool {
    !has_marker_pair(s) && !has_fence_pair(s) && !has_preamble(s) && !has_thinking_pair(s)
}

/// Stage two leaves a text without a complete fence unchanged.
pub proof fn lemma_unwrap_fences_id(s: Seq<char>)
    requires
        !has_fence_pair(s),
    ensures
        unwrap_fences(s) == s,
{
}

/// Stage four leaves a text without a complete thinking block unchanged.
pub proof fn lemma_strip_thinking_id(s: Seq<char>)
    requires
        !has_thinking_pair(s),
    ensures
        strip_thinking(s) == s,
{
}

/// Occurrences of three newlines and windows of three newline characters
/// are the same thing.
proof fn lemma_nl3_at(s: Seq<char>, p: int)
    ensures
        contains_at(s, nl3(), p) <==> (0 <= p && p + 3 <= s.len() && s[p] == '\n' && s[p + 1]
            == '\n' && s[p + 2] == '\n'),
{
    if contains_at(s, nl3(), p) {
        assert(s.subrange(p, p + 3)[0] == s[p]);
        assert(s.subrange(p, p + 3)[1] == s[p + 1]);
        assert(s.subrange(p, p + 3)[2] == s[p + 2]);
    }
    if 0 <= p && p + 3 <= s.len() && s[p] == '\n' && s[p + 1] == '\n' && s[p + 2] == '\n' {
        assert(s.subrange(p, p + 3) =~= nl3());
    }
}

/// Shape of a newline run: all newlines up to the end index, which is
/// either the end of the text or a non-newline character.
proof fn lemma_nl_run_end_props(s: Seq<char>, from: int)
    requires
        0 <= from <= s.len(),
    ensures
        from <= nl_run_end(s, from) <= s.len(),
        forall|m: int| from <= m < nl_run_end(s, from) ==> s[m] == '\n',
        nl_run_end(s, from) < s.len() ==> s[nl_run_end(s, from)] != '\n',
    decreases s.len() - from,
{
    if from < s.len() && s[from] == '\n' {
        lemma_nl_run_end_props(s, from + 1);
    }
}

/// Collapsing preserves a non-newline first character.
proof fn lemma_collapse_first(s: Seq<char>)
    requires
        s.len() > 0,
        s[0] != '\n',
    ensures
        collapse_newlines(s).len() > 0,
        collapse_newlines(s)[0] == s[0],
    decreases s.len(),
{
    let i = find_from(s, nl3(), 0);
    lemma_find_from(s, nl3(), 0);
    if i >= 0 {
        lemma_nl3_at(s, i);
        assert(i >= 1);
        let e = nl_run_end(s, i);
        lemma_nl_run_end_props(s, i);
        assert(i + 3 <= e) by {
            if e < i + 3 {
                assert(s[e] == '\n');
            }
        }
        let out = s.subrange(0, i) + seq!['\n', '\n'] + collapse_newlines(
            s.subrange(e, s.len() as int),
        );
        assert(collapse_newlines(s) == out);
        assert(out[0] == s.subrange(0, i)[0]);
    }
}

/// Stage five output never holds three consecutive newlines.
pub proof fn lemma_collapse_no_triple(s: Seq<char>)
    ensures
        no_triple_newline(collapse_newlines(s)),
    decreases s.len(),
{
    let i = find_from(s, nl3(), 0);
    lemma_find_from(s, nl3(), 0);
    if i >= 0 {
        lemma_nl3_at(s, i);
        let e = nl_run_end(s, i);
        lemma_nl_run_end_props(s, i);
        assert(i + 3 <= e) by {
            if e < i + 3 {
                assert(s[e] == '\n');
            }
        }
        let pre = s.subrange(0, i);
        let tail0 = s.subrange(e, s.len() as int);
        let tail = collapse_newlines(tail0);
        lemma_collapse_no_triple(tail0);
        let out = pre + seq!['\n', '\n'] + tail;
        assert(collapse_newlines(s) == out);
        if i > 0 {
            assert(s[i - 1] != '\n') by {
                if s[i - 1] == '\n' {
                    lemma_nl3_at(s, i - 1);
                    assert(contains_at(s, nl3(), i - 1));
                }
            }
        }
        if tail0.len() > 0 {
            assert(tail0[0] == s[e]);
            assert(tail0[0] != '\n');
            lemma_collapse_first(tail0);
            assert(tail.len() > 0 && tail[0] != '\n');
        }
        assert forall|w: int|
            0 <= w && w + 3 <= out.len() implies !(#[trigger] out[w] == '\n' && out[w + 1] == '\n'
            && out[w + 2] == '\n') by {
            if w + 3 <= i {
                assert(out[w] == s[w] && out[w + 1] == s[w + 1] && out[w + 2] == s[w + 2]);
                if out[w] == '\n' && out[w + 1] == '\n' && out[w + 2] == '\n' {
                    lemma_nl3_at(s, w);
                    assert(contains_at(s, nl3(), w));
                }
            } else if w < i {
                assert(i >= 1);
                assert(out[i - 1] == s[i - 1]);
                assert(out[i - 1] != '\n');
            } else if w == i {
                assert(tail.len() >= 1);
                assert(out[i + 2] == tail[0]);
                assert(tail0.len() > 0) by {
                    if tail0.len() == 0 {
                        assert(tail.len() == 0);
                    }
                }
            } else if w == i + 1 {
                assert(tail.len() >= 2);
                assert(out[w + 1] == tail[0]);
                assert(tail0.len() > 0) by {
                    if tail0.len() == 0 {
                        assert(tail.len() == 0);
                    }
                }
            } else {
                let t = w - (i + 2);
                assert(out[w] == tail[t] && out[w + 1] == tail[t + 1] && out[w + 2] == tail[t + 2]);
            }
        }
    } else {
        assert forall|w: int|
            0 <= w && w + 3 <= s.len() implies !(#[trigger] s[w] == '\n' && s[w + 1] == '\n' && s[w
            + 2] == '\n') by {
            if s[w] == '\n' && s[w + 1] == '\n' && s[w + 2] == '\n' {
                lemma_nl3_at(s, w);
                assert(contains_at(s, nl3(), w));
            }
        }
    }
}

/// Stage five leaves a text with no long newline run unchanged.
pub proof fn lemma_collapse_id(s: Seq<char>)
    requires
        no_triple_newline(s),
    ensures
        collapse_newlines(s) == s,
{
    assert forall|p: int| 0 <= p implies !contains_at(s, nl3(), p) by {
        lemma_nl3_at(s, p);
    }
    lemma_find_from_is(s, nl3(), 0, -1);
}

/// Bounds of a lowercase-letter run: it starts at `from` and stays
/// within the text.
proof fn lemma_run_end_lower_alpha_bounds(s: Seq<char>, from: int)
    requires
        0 <= from <= s.len(),
    ensures
        from <= run_end_lower_alpha(s, from) <= s.len(),
    decreases s.len() - from,
{
    if from < s.len() && is_lower_alpha(s[from]) {
        lemma_run_end_lower_alpha_bounds(s, from + 1);
    }
}

/// Bounds of a whitespace run: it starts at `from` and stays within the
/// text.
proof fn lemma_ws_run_end_bounds(s: Seq<char>, from: int)
    requires
        0 <= from <= s.len(),
    ensures
        from <= ws_run_end(s, from) <= s.len(),
    decreases s.len() - from,
{
    if from < s.len() && is_ws(s[from]) {
        lemma_ws_run_end_bounds(s, from + 1);
    }
}

/// A found colon lies at or after the scan's start, within the text.
proof fn lemma_colon_scan_bounds(s: Seq<char>, from: int)
    requires
        0 <= from <= s.len(),
    ensures
        colon_scan(s, from) == -1 || from <= colon_scan(s, from) < s.len(),
    decreases s.len() - from,
{
    if from < s.len() && s[from] != ':' && s[from] != '\n' {
        lemma_colon_scan_bounds(s, from + 1);
    }
}

/// Stage one never lengthens the text, and strictly shortens it when a
/// marker pair is present.
proof fn lemma_extract_marker_len(s: Seq<char>)
    ensures
        extract_marker(s).len() <= s.len(),
        has_marker_pair(s) ==> extract_marker(s).len() < s.len(),
{
    if has_marker_pair(s) {
        reveal_strlit("<<<COMMIT_MESSAGE_START>>>");
        reveal_strlit("<<<COMMIT_MESSAGE_END>>>");
        let i = find_from(s, marker_start(), 0);
        lemma_find_from(s, marker_start(), 0);
        let j = find_from(s, marker_end(), i + marker_start().len());
        lemma_find_from(s, marker_end(), i + marker_start().len());
    }
}

/// Stage two never lengthens the text, and strictly shortens it when a
/// complete fence is present.
proof fn lemma_unwrap_fences_len(s: Seq<char>)
    ensures
        unwrap_fences(s).len() <= s.len(),
        has_fence_pair(s) ==> unwrap_fences(s).len() < s.len(),
    decreases s.len(),
{
    reveal_strlit("```");
    let i = find_from(s, fence_pat(), 0);
    lemma_find_from(s, fence_pat(), 0);
    if i >= 0 {
        let cs = fence_content_start(s, i);
        lemma_run_end_lower_alpha_bounds(s, i + fence_pat().len());
        if 0 <= cs <= s.len() {
            let j = find_from(s, fence_pat(), cs);
            lemma_find_from(s, fence_pat(), cs);
            let cut = j + fence_pat().len();
            if j >= cs && 0 < cut <= s.len() {
                lemma_unwrap_fences_len(s.subrange(cut, s.len() as int));
                assert(cs >= i + 3);
            }
        }
    }
}

/// Stage three never lengthens the text, and strictly shortens it when a
/// preamble phrase is present.
proof fn lemma_strip_preamble_len(s: Seq<char>)
    ensures
        strip_preamble(s).len() <= s.len(),
        has_preamble(s) ==> strip_preamble(s).len() < s.len(),
{
    let p = preamble_prefix_len(s);
    if p >= 0 {
        let k = colon_scan(s, p);
        lemma_colon_scan_bounds(s, p);
        if k >= 0 {
            lemma_ws_run_end_bounds(s, k + 1);
        }
    }
}

/// Stage four never lengthens the text, and strictly shortens it when a
/// complete thinking block is present.
proof fn lemma_strip_thinking_len(s: Seq<char>)
    ensures
        strip_thinking(s).len() <= s.len(),
        has_thinking_pair(s) ==> strip_thinking(s).len() < s.len(),
    decreases s.len(),
{
    reveal_strlit("<thinking>");
    reveal_strlit("</thinking>");
    let i = find_from(s, think_open(), 0);
    lemma_find_from(s, think_open(), 0);
    if i >= 0 {
        let j = find_from(s, think_close(), i + think_open().len());
        lemma_find_from(s, think_close(), i + think_open().len());
        let cut = j + think_close().len();
        if j >= 0 && 0 < cut <= s.len() {
            lemma_strip_thinking_len(s.subrange(cut, s.len() as int));
        }
    }
}

/// Stage five never lengthens the text.
proof fn lemma_collapse_len(s: Seq<char>)
    ensures
        collapse_newlines(s).len() <= s.len(),
    decreases s.len(),
{
    let i = find_from(s, nl3(), 0);
    lemma_find_from(s, nl3(), 0);
    if i >= 0 {
        let e = nl_run_end(s, i);
        lemma_nl_run_end_props(s, i);
        if i + 3 <= e <= s.len() {
            lemma_collapse_len(s.subrange(e, s.len() as int));
        }
    }
}

/// The final trim never lengthens the text.
proof fn lemma_trim_len(s: Seq<char>)
    ensures
        trim_chars(s).len() <= s.len(),
{
    crate::text::lemma_trim_front_shape(s);
    crate::text::lemma_trim_back_shape(crate::text::trim_front(s));
}

/// On a text that is not settled, one full cleaning pass strictly
/// shortens it: whichever of the four rewriting stages still applies
/// removes characters, and no stage ever adds any.
pub proof fn lemma_clean_rewrites_unsettled(s: Seq<char>)
    requires
        !is_settled(s),
    ensures
        clean_chars(s).len() < s.len(),
        clean_chars(s) != s,
{
    let x1 = extract_marker(s);
    let x2 = unwrap_fences(x1);
    let x3 = strip_preamble(x2);
    let x4 = strip_thinking(x3);
    lemma_extract_marker_len(s);
    lemma_unwrap_fences_len(x1);
    lemma_strip_preamble_len(x2);
    lemma_strip_thinking_len(x3);
    lemma_collapse_len(x4);
    lemma_trim_len(collapse_newlines(x4));
    if has_marker_pair(s) {
    } else {
        assert(x1 == s);
        if has_fence_pair(s) {
        } else {
            lemma_unwrap_fences_id(s);
            assert(x2 == s);
            if has_preamble(s) {
            } else {
                assert(x3 == s);
                lemma_strip_thinking_len(s);
            }
        }
    }
}

/// Cleaning is idempotent on every input whose cleaned form is settled:
/// cleaning the cleaned text again changes nothing. (When the cleaned
/// text still holds a marker pair, a fence, a preamble phrase or a
/// thinking block -- which deletions can splice together -- a second
/// pass would rewrite it further, so exactly those inputs are left out;
/// `lemma_clean_idempotent_iff` shows the split is exact.)
pub proof fn lemma_clean_idempotent(s: Seq<char>)
    requires
        is_settled(clean_chars(s)),
    ensures
        clean_chars(clean_chars(s)) == clean_chars(s),
{
    let c4 = strip_thinking(strip_preamble(unwrap_fences(extract_marker(s))));
    let c5 = collapse_newlines(c4);
    let y = trim_chars(c5);
    assert(y == clean_chars(s));
    assert(extract_marker(y) == y);
    lemma_unwrap_fences_id(y);
    assert(strip_preamble(y) == y);
    lemma_strip_thinking_id(y);
    lemma_collapse_no_triple(c4);
    crate::text::lemma_no_triple_trim(c5);
    lemma_collapse_id(y);
    crate::text::lemma_trim_chars_shape(c5);
}

/// The exact boundary of idempotence: cleaning a second time changes
/// nothing precisely when the first pass left a settled text.
pub proof fn lemma_clean_idempotent_iff(s: Seq<char>)
    ensures
        clean_chars(clean_chars(s)) == clean_chars(s) <==> is_settled(clean_chars(s)),
{
    if is_settled(clean_chars(s)) {
        lemma_clean_idempotent(s);
    } else {
        lemma_clean_rewrites_unsettled(clean_chars(s));
    }
}

/// When the extraction markers are present, cleaning the whole text is
/// cleaning the text between the first start marker and the first end
/// marker after it: what stands before or after the markers is dropped.
pub proof fn lemma_clean_uses_marker_inner(s: Seq<char>)
    requires
        has_marker_pair(s),
    ensures
        clean_chars(s) == clean_chars(marker_inner(s)),
        !has_marker_pair(marker_inner(s)),
{
    reveal_strlit("<<<COMMIT_MESSAGE_START>>>");
    reveal_strlit("<<<COMMIT_MESSAGE_END>>>");
    let i = find_from(s, marker_start(), 0);
    let j = find_from(s, marker_end(), i + marker_start().len());
    lemma_find_from(s, marker_start(), 0);
    assert(i + marker_start().len() <= s.len());
    lemma_find_from(s, marker_end(), i + marker_start().len());
    let inner = marker_inner(s);
    let base = i + marker_start().len();
    assert(forall|p: int| !contains_at(inner, marker_end(), p)) by {
        assert forall|p: int| contains_at(inner, marker_end(), p) implies false by {
            assert(contains_at(s, marker_end(), base + p)) by {
                assert forall|k: int|
                    0 <= k < marker_end().len() implies s.subrange(
                    base + p,
                    base + p + marker_end().len(),
                )[k] == marker_end()[k] by {
                    assert(inner.subrange(p, p + marker_end().len())[k] == marker_end()[k]);
                    assert(inner[p + k] == s[base + p + k]);
                }
                assert(s.subrange(base + p, base + p + marker_end().len()) =~= marker_end());
            }
            assert(base <= base + p < j);
        }
    }
    assert(!has_marker_pair(inner)) by {
        let i2 = find_from(inner, marker_start(), 0);
        lemma_find_from(inner, marker_start(), 0);
        if i2 >= 0 {
            assert(i2 + marker_start().len() <= inner.len());
            lemma_find_from(inner, marker_end(), i2 + marker_start().len());
            if find_from(inner, marker_end(), i2 + marker_start().len()) >= 0 {
                assert(contains_at(
                    inner,
                    marker_end(),
                    find_from(inner, marker_end(), i2 + marker_start().len()),
                ));
            }
        }
    }
    assert(extract_marker(s) == inner);
    assert(extract_marker(inner) == inner);
}

/// When the extraction markers are present and what stands between them
/// needs no further rewriting, cleaning returns exactly the inner text,
/// trimmed.
pub proof fn lemma_clean_extracts_marker_inner(s: Seq<char>)
    requires
        has_marker_pair(s),
        !has_fence_pair(marker_inner(s)),
        !has_preamble(marker_inner(s)),
        !has_thinking_pair(marker_inner(s)),
        no_triple_newline(marker_inner(s)),
    ensures
        clean_chars(s) == trim_chars(marker_inner(s)),
{
    lemma_clean_uses_marker_inner(s);
    let inner = marker_inner(s);
    assert(extract_marker(inner) == inner);
    lemma_unwrap_fences_id(inner);
    assert(strip_preamble(inner) == inner);
    lemma_strip_thinking_id(inner);
    lemma_collapse_id(inner);
}

} // verus!
