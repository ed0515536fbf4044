//! Character-sequence utilities: substring search, trimming, case folding,
//! digit parsing and decimal rendering.
//!
//! The library models all text as `Seq<char>` (the view of `str` and
//! `String`); the executable code works on `Vec<char>` and is proved against
//! those models.

use vstd::prelude::*;

verus! {

/// The pattern `pat` occurs in `s` starting at index `i`.
pub open spec fn contains_at(s: Seq<char>, pat: Seq<char>, i: int) -> bool {
    0 <= i && i + pat.len() <= s.len() && s.subrange(i, i + pat.len()) == pat
}

/// The pattern `pat` occurs somewhere in `s`.
pub open spec fn has_sub(s: Seq<char>, pat: Seq<char>) -> bool {
    exists|i: int| contains_at(s, pat, i)
}

/// Index of the first occurrence of `pat` in `s` at or after `from`,
/// or -1 when there is none.
pub open spec fn find_from(s: Seq<char>, pat: Seq<char>, from: int) -> int
    decreases s.len() - from,
    when 0 <= from <= s.len()
{
    if from < 0 || from + pat.len() > s.len() {
        -1
    } else if pat.len() == 0 {
        from
    } else if contains_at(s, pat, from) {
        from
    } else {
        find_from(s, pat, from + 1)
    }
}

/// What `find_from` returns: the first occurrence at or after `from`,
/// or -1 exactly when there is none.
pub proof fn lemma_find_from(s: Seq<char>, pat: Seq<char>, from: int)
    requires
        0 <= from <= s.len(),
    ensures
        find_from(s, pat, from) == -1 || find_from(s, pat, from) >= from,
        find_from(s, pat, from) == -1 ==> forall|i: int| from <= i ==> !contains_at(s, pat, i),
        find_from(s, pat, from) >= 0 ==> from <= find_from(s, pat, from) && contains_at(
            s,
            pat,
            find_from(s, pat, from),
        ) && forall|i: int| from <= i < find_from(s, pat, from) ==> !contains_at(s, pat, i),
    decreases s.len() - from,
{
    if from + pat.len() > s.len() {
        assert(forall|i: int| from <= i ==> !contains_at(s, pat, i));
    } else if pat.len() == 0 {
        assert(s.subrange(from, from) =~= pat);
        assert(contains_at(s, pat, from));
    } else if contains_at(s, pat, from) {
    } else {
        lemma_find_from(s, pat, from + 1);
    }
}

/// A position characterized as the first occurrence (or -1 for none)
/// is what `find_from` returns.
pub proof fn lemma_find_from_is(s: Seq<char>, pat: Seq<char>, from: int, r: int)
    requires
        0 <= from <= s.len(),
        r == -1 ==> forall|i: int| from <= i ==> !contains_at(s, pat, i),
        r != -1 ==> from <= r && contains_at(s, pat, r) && forall|i: int|
            from <= i < r ==> !contains_at(s, pat, i),
    ensures
        find_from(s, pat, from) == r,
    decreases s.len() - from,
{
    if r == -1 {
        if from + pat.len() > s.len() {
        } else if pat.len() == 0 {
            assert(s.subrange(from, from) =~= pat);
            assert(contains_at(s, pat, from));
        } else {
            assert(!contains_at(s, pat, from));
            lemma_find_from_is(s, pat, from + 1, r);
        }
    } else if r == from {
        assert(contains_at(s, pat, from));
    } else {
        assert(!contains_at(s, pat, from));
        assert(from + pat.len() <= s.len()) by {
            assert(contains_at(s, pat, r));
        }
        assert(pat.len() != 0) by {
            if pat.len() == 0 {
                assert(s.subrange(from, from) =~= pat);
                assert(contains_at(s, pat, from));
            }
        }
        lemma_find_from_is(s, pat, from + 1, r);
    }
}

/// Does `pat` occur in `v` exactly at index `i`?
pub fn match_at(v: &Vec<char>, pat: &Vec<char>, i: usize) -> (b: bool)
    requires
        i + pat@.len() <= v@.len(),
    ensures
        b == contains_at(v@, pat@, i as int),
{
    let n: usize = pat.len();
    let vn: usize = v.len();
    let mut k: usize = 0;
    while k < n
        invariant
            i + n <= vn,
            vn == v@.len(),
            n == pat@.len(),
            0 <= k <= n,
            forall|m: int| 0 <= m < k ==> v@[i + m] == pat@[m],
        decreases n - k,
    {
        if v[i + k] != pat[k] {
            assert(v@.subrange(i as int, i + pat@.len()) != pat@) by {
                assert(v@.subrange(i as int, i + pat@.len())[k as int] != pat@[k as int]);
            }
            return false;
        }
        k += 1;
    }
    assert(v@.subrange(i as int, i + pat@.len()) =~= pat@);
    true
}

/// First occurrence of `pat` in `v` at or after `from`.
pub fn find_in(v: &Vec<char>, pat: &Vec<char>, from: usize) -> (r: Option<usize>)
    requires
        from <= v@.len(),
        pat@.len() >= 1,
    ensures
        match r {
            Some(i) => i as int == find_from(v@, pat@, from as int) && from <= i && contains_at(
                v@,
                pat@,
                i as int,
            ),
            None => find_from(v@, pat@, from as int) == -1,
        },
{
    if pat.len() > v.len() {
        proof {
            lemma_find_from_is(v@, pat@, from as int, -1);
        }
        return None;
    }
    let bound: usize = v.len() - pat.len();
    if from > bound {
        proof {
            lemma_find_from_is(v@, pat@, from as int, -1);
        }
        return None;
    }
    let mut i: usize = from;
    while i <= bound
        invariant
            from <= i,
            1 <= pat@.len() <= v@.len(),
            v@.len() <= usize::MAX,
            bound == v@.len() - pat@.len(),
            i <= bound + 1,
            forall|j: int| from <= j < i ==> !contains_at(v@, pat@, j),
        decreases bound + 1 - i,
    {
        if match_at(v, pat, i) {
            proof {
                lemma_find_from_is(v@, pat@, from as int, i as int);
            }
            return Some(i);
        }
        i += 1;
    }
    proof {
        lemma_find_from_is(v@, pat@, from as int, -1);
    }
    None
}

/// Copy of `v[i..j]`.
pub fn subvec(v: &Vec<char>, i: usize, j: usize) -> (r: Vec<char>)
    requires
        i <= j <= v@.len(),
    ensures
        r@ == v@.subrange(i as int, j as int),
{
    let mut r: Vec<char> = Vec::new();
    let mut k: usize = i;
    while k < j
        invariant
            i <= k <= j <= v@.len(),
            r@ =~= v@.subrange(i as int, k as int),
        decreases j - k,
    {
        r.push(v[k]);
        assert(r@ =~= v@.subrange(i as int, k + 1));
        k += 1;
    }
    r
}

/// Append all of `src` to `dst`.
pub fn append_vec(dst: &mut Vec<char>, src: &Vec<char>)
    ensures
        final(dst)@ == old(dst)@ + src@,
{
    let n: usize = src.len();
    let mut k: usize = 0;
    while k < n
        invariant
            n == src@.len(),
            0 <= k <= n,
            dst@ =~= old(dst)@ + src@.subrange(0, k as int),
        decreases n - k,
    {
        dst.push(src[k]);
        assert(dst@ =~= old(dst)@ + src@.subrange(0, k + 1));
        k += 1;
    }
    assert(dst@ =~= old(dst)@ + src@);
}

/// The Unicode whitespace characters, the set that `str::trim` removes.
pub open spec fn is_ws(c: char) -> bool {
    let u = c as u32;
    u == 0x20 || (0x9 <= u && u <= 0xD) || u == 0x85 || u == 0xA0 || u == 0x1680 || (0x2000 <= u
        && u <= 0x200A) || u == 0x2028 || u == 0x2029 || u == 0x202F || u == 0x205F || u == 0x3000
}

/// Is `c` a whitespace character?
pub fn ws_char(c: char) -> (b: bool)
    ensures
        b == is_ws(c),
{
    let u = c as u32;
    u == 0x20 || (0x9 <= u && u <= 0xD) || u == 0x85 || u == 0xA0 || u == 0x1680 || (0x2000 <= u
        && u <= 0x200A) || u == 0x2028 || u == 0x2029 || u == 0x202F || u == 0x205F || u == 0x3000
}

/// `s` with leading whitespace removed.
pub open spec fn trim_front(s: Seq<char>) -> Seq<char>
    decreases s.len(),
{
    if s.len() > 0 && is_ws(s[0]) {
        trim_front(s.drop_first())
    } else {
        s
    }
}

/// `s` with trailing whitespace removed.
pub open spec fn trim_back(s: Seq<char>) -> Seq<char>
    decreases s.len(),
{
    if s.len() > 0 && is_ws(s.last()) {
        trim_back(s.drop_last())
    } else {
        s
    }
}

/// `s` with leading and trailing whitespace removed, as `str::trim` does.
pub open spec fn trim_chars(s: Seq<char>) -> Seq<char> {
    trim_back(trim_front(s))
}

/// `trim_front` keeps exactly the part after the leading whitespace run.
pub proof fn lemma_trim_front_is(s: Seq<char>, a: int)
    requires
        0 <= a <= s.len(),
        forall|i: int| 0 <= i < a ==> is_ws(s[i]),
        a < s.len() ==> !is_ws(s[a]),
    ensures
        trim_front(s) == s.subrange(a, s.len() as int),
    decreases a,
{
    if a == 0 {
        assert(s.subrange(0, s.len() as int) =~= s);
    } else {
        assert(is_ws(s[0]));
        let t = s.drop_first();
        lemma_trim_front_is(t, a - 1);
        assert(t.subrange(a - 1, t.len() as int) =~= s.subrange(a, s.len() as int));
    }
}

/// `trim_back` keeps exactly the part before the trailing whitespace run.
pub proof fn lemma_trim_back_is(s: Seq<char>, b: int)
    requires
        0 <= b <= s.len(),
        forall|i: int| b <= i < s.len() ==> is_ws(s[i]),
        b > 0 ==> !is_ws(s[b - 1]),
    ensures
        trim_back(s) == s.subrange(0, b),
    decreases s.len() - b,
{
    if b == s.len() {
        assert(s.subrange(0, s.len() as int) =~= s);
    } else {
        assert(is_ws(s.last()));
        let t = s.drop_last();
        lemma_trim_back_is(t, b);
        assert(t.subrange(0, b) =~= s.subrange(0, b));
    }
}

/// A trimmed sequence is empty or bounded by non-whitespace characters.
pub proof fn lemma_trim_chars_shape(s: Seq<char>)
    ensures
        trim_chars(s).len() > 0 ==> !is_ws(trim_chars(s)[0]) && !is_ws(trim_chars(s).last()),
        trim_chars(trim_chars(s)) == trim_chars(s),
    decreases s.len(),
{
    lemma_trim_front_shape(s);
    let f = trim_front(s);
    lemma_trim_back_shape(f);
    let t = trim_back(f);
    if t.len() > 0 {
        assert(!is_ws(t[0]) && !is_ws(t.last()));
        lemma_trim_front_is(t, 0);
        lemma_trim_back_is(t, t.len() as int);
    } else {
        assert(trim_front(t) == t);
        assert(trim_back(t) == t);
    }
}

/// Trimming the front keeps a suffix of `s`, and what is left starts
/// with a non-whitespace character.
pub proof fn lemma_trim_front_shape(s: Seq<char>)
    ensures
        trim_front(s).len() > 0 ==> !is_ws(trim_front(s)[0]),
        forall|i: int|
            0 <= i < trim_front(s).len() ==> trim_front(s)[i] == s[s.len() - trim_front(s).len()
                + i],
        trim_front(s).len() <= s.len(),
    decreases s.len(),
{
    if s.len() > 0 && is_ws(s[0]) {
        lemma_trim_front_shape(s.drop_first());
    }
}

/// Trimming the back keeps a prefix of `s`, and what is left ends with
/// a non-whitespace character.
pub proof fn lemma_trim_back_shape(s: Seq<char>)
    ensures
        trim_back(s).len() > 0 ==> !is_ws(trim_back(s).last()),
        forall|i: int| 0 <= i < trim_back(s).len() ==> trim_back(s)[i] == s[i],
        trim_back(s).len() <= s.len(),
        trim_back(s).len() > 0 ==> trim_back(s)[0] == s[0],
    decreases s.len(),
{
    if s.len() > 0 && is_ws(s.last()) {
        let t = s.drop_last();
        lemma_trim_back_shape(t);
        assert(forall|i: int| 0 <= i < t.len() ==> t[i] == s[i]);
        assert(trim_back(s) == trim_back(t));
    }
}

/// Copy of `v` with leading and trailing whitespace removed.
pub fn trim_vec(v: &Vec<char>) -> (r: Vec<char>)
    ensures
        r@ == trim_chars(v@),
{
    let n: usize = v.len();
    let mut a: usize = 0;
    while a < n && ws_char(v[a])
        invariant
            0 <= a <= n,
            n == v@.len(),
            forall|i: int| 0 <= i < a ==> is_ws(v@[i]),
        decreases n - a,
    {
        a += 1;
    }
    proof {
        lemma_trim_front_is(v@, a as int);
    }
    let mut b: usize = n;
    while b > a && ws_char(v[b - 1])
        invariant
            a <= b <= n,
            n == v@.len(),
            a < n ==> !is_ws(v@[a as int]),
            forall|i: int| b <= i < n ==> is_ws(v@[i]),
        decreases b,
    {
        b -= 1;
    }
    proof {
        let f = v@.subrange(a as int, n as int);
        lemma_trim_back_is(f, b - a);
        assert(f.subrange(0, b - a) =~= v@.subrange(a as int, b as int));
    }
    subvec(v, a, b)
}

/// No run of three or more consecutive newline characters occurs in `s`.
pub open spec fn no_triple_newline(s: Seq<char>) -> bool {
    forall|i: int|
        0 <= i && i + 3 <= s.len() ==> !(#[trigger] s[i] == '\n' && s[i + 1] == '\n' && s[i + 2]
            == '\n')
}

/// Trimming cannot create a newline run: `trim_chars` keeps a
/// contiguous slice of its input.
pub proof fn lemma_no_triple_trim(s: Seq<char>)
    requires
        no_triple_newline(s),
    ensures
        no_triple_newline(trim_chars(s)),
{
    lemma_trim_front_shape(s);
    let tf = trim_front(s);
    let d = s.len() - tf.len();
    assert(no_triple_newline(tf)) by {
        assert forall|w: int|
            0 <= w && w + 3 <= tf.len() implies !(#[trigger] tf[w] == '\n' && tf[w + 1] == '\n'
            && tf[w + 2] == '\n') by {
            assert(tf[w] == s[d + w] && tf[w + 1] == s[d + w + 1] && tf[w + 2] == s[d + w + 2]);
        }
    }
    lemma_trim_back_shape(tf);
    let tb = trim_back(tf);
    assert forall|w: int|
        0 <= w && w + 3 <= tb.len() implies !(#[trigger] tb[w] == '\n' && tb[w + 1] == '\n' && tb[w
        + 2] == '\n') by {
        assert(tb[w] == tf[w] && tb[w + 1] == tf[w + 1] && tb[w + 2] == tf[w + 2]);
    }
}

/// A lowercase ASCII letter, as allowed in a fence language tag.
pub open spec fn is_lower_alpha(c: char) -> bool {
    0x61 <= c as u32 && c as u32 <= 0x7A
}

/// End of the run of lowercase ASCII letters starting at `from`.
pub open spec fn run_end_lower_alpha(s: Seq<char>, from: int) -> int
    decreases s.len() - from,
    when 0 <= from <= s.len()
{
    if from < s.len() && is_lower_alpha(s[from]) {
        run_end_lower_alpha(s, from + 1)
    } else {
        from
    }
}


/// ASCII lowercase folding of one character.
pub open spec fn lower_char(c: char) -> char {
    if 0x41 <= c as u32 && c as u32 <= 0x5A {
        (((c as u32) + 0x20) as u8) as char
    } else {
        c
    }
}

/// ASCII lowercase folding of a sequence.
pub open spec fn lower_seq(s: Seq<char>) -> Seq<char> {
    Seq::new(s.len(), |i: int| lower_char(s[i]))
}

/// `s` begins with `pat` up to ASCII case.
pub open spec fn starts_with_ci(s: Seq<char>, pat: Seq<char>) -> bool {
    pat.len() <= s.len() && lower_seq(s).subrange(0, pat.len() as int) == pat
}


/// Is `c` a lowercase ASCII letter?
pub fn lower_alpha_char(c: char) -> (b: bool)
    ensures
        b == is_lower_alpha(c),
{
    let u = c as u32;
    0x61 <= u && u <= 0x7A
}


/// ASCII lowercase folding of one character.
pub fn to_lower_char(c: char) -> (r: char)
    ensures
        r == lower_char(c),
{
    let u = c as u32;
    if 0x41 <= u && u <= 0x5A {
        ((u + 0x20) as u8) as char
    } else {
        c
    }
}

/// Does `v` begin with `pat`, up to ASCII case?
pub fn starts_with_ci_vec(v: &Vec<char>, pat: &Vec<char>) -> (b: bool)
    ensures
        b == starts_with_ci(v@, pat@),
{
    let np: usize = pat.len();
    if np > v.len() {
        return false;
    }
    let mut k: usize = 0;
    while k < np
        invariant
            0 <= k <= np,
            np == pat@.len(),
            np <= v@.len(),
            forall|m: int| 0 <= m < k ==> lower_char(v@[m]) == pat@[m],
        decreases np - k,
    {
        if to_lower_char(v[k]) != pat[k] {
            assert(lower_seq(v@).subrange(0, np as int)[k as int] != pat@[k as int]);
            return false;
        }
        k += 1;
    }
    assert(lower_seq(v@).subrange(0, np as int) =~= pat@);
    true
}

/// Does `v` equal `pat` up to ASCII case?
pub fn eq_ci(v: &Vec<char>, pat: &str) -> (b: bool)
    ensures
        b == (lower_seq(v@) == pat@),
{
    let p = chars_of(pat);
    if v.len() != p.len() {
        assert(lower_seq(v@).len() == v@.len());
        return false;
    }
    let b = starts_with_ci_vec(v, &p);
    proof {
        if starts_with_ci(v@, p@) {
            assert(lower_seq(v@).subrange(0, p@.len() as int) =~= lower_seq(v@));
        } else {
            assert(lower_seq(v@).subrange(0, p@.len() as int) =~= lower_seq(v@));
        }
    }
    b
}

/// The ASCII decimal digits.
pub open spec fn is_digit(c: char) -> bool {
    0x30 <= c as u32 && c as u32 <= 0x39
}

/// Numeric value of an ASCII digit.
pub open spec fn digit_val(c: char) -> nat
    recommends
        is_digit(c),
{
    (c as u32 - 0x30) as nat
}

/// Is `c` an ASCII decimal digit?
pub fn digit_char(c: char) -> (b: bool)
    ensures
        b == is_digit(c),
{
    let u = c as u32;
    0x30 <= u && u <= 0x39
}

/// Value of a digit sequence read in base ten.
pub open spec fn digits_val(s: Seq<char>) -> nat
    decreases s.len(),
{
    if s.len() == 0 {
        0
    } else {
        digits_val(s.drop_last()) * 10 + digit_val(s.last())
    }
}

/// The decimal digit character for `d`.
pub open spec fn dec_digit(d: nat) -> char
    recommends
        d < 10,
{
    ((0x30 + d) as u8) as char
}

/// Decimal rendering of `n`, most significant digit first, no leading zeros.
pub open spec fn dec_chars(n: nat) -> Seq<char>
    decreases n,
{
    if n < 10 {
        seq![dec_digit(n)]
    } else {
        dec_chars(n / 10) + seq![dec_digit(n % 10)]
    }
}

/// Render `n` in decimal.
pub fn render_u64(n: u64) -> (r: Vec<char>)
    ensures
        r@ == dec_chars(n as nat),
    decreases n,
{
    if n < 10 {
        let d: u8 = 0x30 + (n as u8);
        let mut r: Vec<char> = Vec::new();
        r.push(d as char);
        assert(r@ =~= seq![dec_digit(n as nat)]);
        r
    } else {
        let mut r = render_u64(n / 10);
        let d: u8 = 0x30 + ((n % 10) as u8);
        r.push(d as char);
        assert(r@ =~= dec_chars((n / 10) as nat) + seq![dec_digit((n % 10) as nat)]);
        r
    }
}

/// Relies on str::chars: iterating a string slice yields exactly the
/// characters of its view, in order.
#[verifier::external_body]
pub fn chars_of(s: &str) -> (r: Vec<char>)
    ensures
        r@ == s@,
{
    s.chars().collect()
}

/// Relies on String's FromIterator over char: collecting a character
/// sequence builds the string whose view is exactly that sequence.
#[verifier::external_body]
pub fn string_from_chars(v: &Vec<char>) -> (r: String)
    ensures
        r@ == v@,
{
    v.iter().collect()
}

} // verus!
