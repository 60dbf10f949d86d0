//! Verified text utilities: substring search, placeholder replacement,
//! whitespace handling and decimal parsing/formatting. All of the engine's
//! display strings are assembled through these functions.

use vstd::prelude::*;

verus! {

/// `p` occurs in `s` starting at index `i`.
pub open spec fn matches_at(s: Seq<char>, p: Seq<char>, i: int) -> bool {
    0 <= i && i + p.len() <= s.len() && s.subrange(i, i + p.len()) == p
}

/// `p` occurs somewhere in `s`.
pub open spec fn contains_seq(s: Seq<char>, p: Seq<char>) -> bool {
    exists|i: int| matches_at(s, p, i)
}

/// Whether `p` occurs in `s` starting at index `i`.
pub fn str_matches_at(s: &str, p: &str, i: usize) -> (b: bool)
    requires
        i + p@.len() <= s@.len(),
    ensures
        b == matches_at(s@, p@, i as int),
{
    let s_len: usize = s.unicode_len();
    let p_len: usize = p.unicode_len();
    let mut j: usize = 0;
    while j < p_len
        invariant
            i + p_len <= s_len,
            s_len == s@.len(),
            p_len == p@.len(),
            0 <= j <= p_len,
            forall|k: int| 0 <= k < j ==> s@[i + k] == p@[k],
        decreases p_len - j,
    {
        if s.get_char(i + j) != p.get_char(j) {
            assert(s@.subrange(i as int, i + p@.len())[j as int] != p@[j as int]);
            return false;
        }
        j += 1;
    }
    assert(s@.subrange(i as int, i + p@.len()) =~= p@);
    true
}

/// Substring search, the engine's test for whether a template holds a
/// placeholder token.
pub fn str_contains(s: &str, p: &str) -> (b: bool)
    ensures
        b == contains_seq(s@, p@),
{
    let s_len: usize = s.unicode_len();
    let p_len: usize = p.unicode_len();
    if p_len == 0 {
        assert(matches_at(s@, p@, 0)) by {
            assert(s@.subrange(0, 0) =~= p@);
        }
        return true;
    }
    if p_len > s_len {
        assert(!contains_seq(s@, p@)) by {
            assert forall|i: int| !matches_at(s@, p@, i) by {}
        }
        return false;
    }
    let mut i: usize = 0;
    while i <= s_len - p_len
        invariant
            1 <= p_len <= s_len,
            s_len == s@.len(),
            p_len == p@.len(),
            0 <= i <= s_len - p_len + 1,
            forall|k: int| 0 <= k < i ==> !matches_at(s@, p@, k),
        decreases s_len - i,
    {
        if str_matches_at(s, p, i) {
            return true;
        }
        i += 1;
    }
    assert forall|k: int| !matches_at(s@, p@, k) by {
        if 0 <= k && k + p@.len() <= s@.len() {
            assert(k < i);
        }
    }
    false
}

/// `s` with every occurrence of `from` replaced by `to`, scanning left to
/// right and never rescanning replaced text.
pub open spec fn replace_seq(s: Seq<char>, from: Seq<char>, to: Seq<char>) -> Seq<char>
    decreases s.len(),
{
    if from.len() == 0 || s.len() < from.len() {
        s
    } else if s.take(from.len() as int) == from {
        to + replace_seq(s.skip(from.len() as int), from, to)
    } else {
        seq![s[0]] + replace_seq(s.drop_first(), from, to)
    }
}

/// Placeholder substitution: every occurrence of `from` in `s` becomes `to`.
#[verifier::rlimit(60)]
pub fn str_replace(s: &str, from: &str, to: &str) -> (r: String)
    requires
        from@.len() > 0,
    ensures
        r@ == replace_seq(s@, from@, to@),
{
    let s_len: usize = s.unicode_len();
    let f_len: usize = from.unicode_len();
    let mut out = String::new();
    let mut i: usize = 0;
    proof {
        assert(s@.skip(0) =~= s@);
    }
    while i < s_len
        invariant
            s_len == s@.len(),
            f_len == from@.len(),
            f_len > 0,
            0 <= i <= s_len,
            out@ + replace_seq(s@.skip(i as int), from@, to@) == replace_seq(s@, from@, to@),
        decreases s_len - i,
    {
        let ghost rest = s@.skip(i as int);
        if f_len <= s_len - i && str_matches_at(s, from, i) {
            out.append(to);
            proof {
                assert(rest.take(f_len as int) =~= s@.subrange(i as int, i + f_len as int));
                assert(rest.skip(f_len as int) =~= s@.skip(i + f_len));
                assert(replace_seq(rest, from@, to@) == to@ + replace_seq(
                    s@.skip(i + f_len),
                    from@,
                    to@,
                ));
            }
            i += f_len;
        } else {
            let c = s.substring_char(i, i + 1);
            out.append(c);
            proof {
                assert(c@ =~= seq![s@[i as int]]);
                assert(rest.drop_first() =~= s@.skip(i + 1));
                if rest.len() < f_len {
                    assert(replace_seq(rest, from@, to@) == rest);
                    assert(replace_seq(s@.skip(i + 1), from@, to@) == s@.skip(i + 1));
                    assert(rest =~= seq![s@[i as int]] + s@.skip(i + 1));
                } else {
                    assert(rest.take(f_len as int) =~= s@.subrange(i as int, i + f_len as int));
                    assert(rest.take(f_len as int) != from@);
                    assert(replace_seq(rest, from@, to@) == seq![rest[0]] + replace_seq(
                        rest.drop_first(),
                        from@,
                        to@,
                    ));
                }
            }
            i += 1;
        }
    }
    proof {
        assert(s@.skip(i as int) =~= Seq::<char>::empty());
        assert(out@ + Seq::<char>::empty() =~= out@);
    }
    out
}

/// The whitespace characters the engine recognizes when it splits pseudo-file
/// text into tokens.
pub open spec fn is_space_char(c: char) -> bool {
    c == ' ' || c == '\n' || c == '\t' || c == '\r'
}

/// Whether `c` is one of the recognized whitespace characters.
pub fn is_space(c: char) -> (b: bool)
    ensures
        b == is_space_char(c),
{
    c == ' ' || c == '\n' || c == '\t' || c == '\r'
}

/// A decimal digit.
pub open spec fn is_digit_char(c: char) -> bool {
    48 <= c as u32 <= 57
}

/// The numeric value of a digit character.
pub open spec fn digit_val(c: char) -> int {
    c as u32 - 48
}

/// Whether `c` is a decimal digit.
pub fn is_digit(c: char) -> (b: bool)
    ensures
        b == is_digit_char(c),
{
    let u = c as u32;
    48 <= u && u <= 57
}

/// The number represented by a digit string, most significant digit first.
pub open spec fn dec_val(s: Seq<char>) -> int
    decreases s.len(),
{
    if s.len() == 0 {
        0
    } else {
        dec_val(s.drop_last()) * 10 + digit_val(s.last())
    }
}

/// A token that denotes a `u64`: nonempty, all digits, value in range.
pub open spec fn is_u64_token(s: Seq<char>) -> bool {
    s.len() > 0 && (forall|i: int| 0 <= i < s.len() ==> is_digit_char(#[trigger] s[i])) && 0
        <= dec_val(s) <= u64::MAX
}

/// Length of the maximal non-whitespace token at the front of `s`.
pub open spec fn token_len(s: Seq<char>) -> nat
    decreases s.len(),
{
    if s.len() == 0 || is_space_char(s[0]) {
        0
    } else {
        1 + token_len(s.drop_first())
    }
}

pub proof fn lemma_token_len_bound(s: Seq<char>)
    ensures
        token_len(s) <= s.len(),
        forall|i: int| 0 <= i < token_len(s) ==> !is_space_char(#[trigger] s[i]),
        token_len(s) < s.len() ==> is_space_char(s[token_len(s) as int]),
    decreases s.len(),
{
    if s.len() == 0 || is_space_char(s[0]) {
    } else {
        lemma_token_len_bound(s.drop_first());
        assert forall|i: int| 0 <= i < token_len(s) implies !is_space_char(#[trigger] s[i]) by {
            if i > 0 {
                assert(s.drop_first()[i - 1] == s[i]);
            }
        }
        if token_len(s) < s.len() {
            assert(s.drop_first()[token_len(s) - 1] == s[token_len(s) as int]);
        }
    }
}

/// `token_len` is the unique boundary: no space before it, a space (or the
/// end) at it.
proof fn lemma_token_len_is(s: Seq<char>, n: int)
    requires
        0 <= n <= s.len(),
        forall|i: int| 0 <= i < n ==> !is_space_char(#[trigger] s[i]),
        n < s.len() ==> is_space_char(s[n]),
    ensures
        token_len(s) == n,
    decreases s.len(),
{
    if s.len() == 0 || is_space_char(s[0]) {
    } else {
        assert forall|i: int| 0 <= i < n - 1 implies !is_space_char(#[trigger] s.drop_first()[i]) by {
            assert(s.drop_first()[i] == s[i + 1]);
        }
        if n - 1 < s.drop_first().len() {
            assert(s.drop_first()[n - 1] == s[n]);
        }
        lemma_token_len_is(s.drop_first(), n - 1);
    }
}

/// A string of digits has a non-negative value.
proof fn lemma_dec_val_nonneg(s: Seq<char>)
    requires
        forall|i: int| 0 <= i < s.len() ==> is_digit_char(#[trigger] s[i]),
    ensures
        dec_val(s) >= 0,
    decreases s.len(),
{
    if s.len() > 0 {
        lemma_dec_val_nonneg(s.drop_last());
    }
}

/// Extending a digit string can only grow its value.
proof fn lemma_dec_val_mono(s: Seq<char>, j: int)
    requires
        0 <= j <= s.len(),
        forall|i: int| 0 <= i < s.len() ==> is_digit_char(#[trigger] s[i]),
    ensures
        dec_val(s) >= dec_val(s.take(j)),
    decreases s.len() - j,
{
    if j < s.len() {
        assert(s.take(j + 1).drop_last() =~= s.take(j));
        assert(s.take(j + 1).last() == s[j]);
        lemma_dec_val_nonneg(s.take(j));
        lemma_dec_val_mono(s, j + 1);
    } else {
        assert(s.take(j) =~= s);
    }
}

/// The numeric value of the token `s[start..end]`, if it is a well-formed
/// `u64` token.
pub fn token_u64(s: &str, start: usize, end: usize) -> (r: Option<u64>)
    requires
        start <= end <= s@.len(),
    ensures
        ({
            let t = s@.subrange(start as int, end as int);
            match r {
                Some(v) => is_u64_token(t) && v == dec_val(t),
                None => !is_u64_token(t),
            }
        }),
{
    let ghost t = s@.subrange(start as int, end as int);
    if start == end {
        return None;
    }
    let mut acc: u64 = 0;
    let mut i: usize = start;
    while i < end
        invariant
            start <= i <= end <= s@.len(),
            t == s@.subrange(start as int, end as int),
            forall|k: int| 0 <= k < i - start ==> is_digit_char(#[trigger] t[k]),
            acc == dec_val(t.take(i - start)),
        decreases end - i,
    {
        let c = s.get_char(i);
        proof {
            assert(t[i - start] == s@[i as int]);
        }
        if !is_digit(c) {
            return None;
        }
        let d: u64 = (c as u32 - 48) as u64;
        proof {
            assert(t.take(i - start + 1).drop_last() =~= t.take(i - start));
            assert(t.take(i - start + 1).last() == t[i - start]);
        }
        if acc > (u64::MAX - d) / 10 {
            proof {
                assert(dec_val(t.take(i - start + 1)) == acc * 10 + d);
                assert(acc * 10 + d > u64::MAX) by {
                    assert(acc >= (u64::MAX - d) / 10 + 1);
                    assert(((u64::MAX - d) / 10 + 1) * 10 + d > u64::MAX) by (nonlinear_arith)
                        requires
                            0 <= d <= 9,
                    ;
                    assert(acc * 10 >= ((u64::MAX - d) / 10 + 1) * 10) by (nonlinear_arith)
                        requires
                            acc >= (u64::MAX - d) / 10 + 1,
                    ;
                }
                if is_u64_token(t) {
                    lemma_dec_val_mono(t, i - start + 1);
                }
            }
            return None;
        }
        proof {
            assert(acc * 10 + d <= u64::MAX) by (nonlinear_arith)
                requires
                    0 <= d <= 9,
                    0 <= acc <= (u64::MAX - d) / 10,
            ;
        }
        acc = acc * 10 + d;
        i += 1;
    }
    proof {
        assert(t.take(end - start) =~= t);
    }
    Some(acc)
}

/// The `u64` values of the whitespace-separated numeric tokens of `s`, in
/// order; tokens that are not well-formed `u64` numerals are skipped.
pub open spec fn counters_of(s: Seq<char>) -> Seq<u64>
    decreases s.len(),
    via counters_of_decreases
{
    if s.len() == 0 {
        seq![]
    } else if is_space_char(s[0]) {
        counters_of(s.drop_first())
    } else {
        let n = token_len(s) as int;
        let t = s.take(n);
        (if is_u64_token(t) {
            seq![dec_val(t) as u64]
        } else {
            seq![]
        }) + counters_of(s.skip(n))
    }
}

#[via_fn]
proof fn counters_of_decreases(s: Seq<char>) {
    if s.len() > 0 && !is_space_char(s[0]) {
        lemma_token_len_bound(s);
    }
}

/// Parses the numeric tokens of `s[start..end]`: the parsing step shared by
/// every pseudo-file reader.
pub fn parse_counters(s: &str, start: usize, end: usize) -> (r: Vec<u64>)
    requires
        start <= end <= s@.len(),
    ensures
        r@ == counters_of(s@.subrange(start as int, end as int)),
{
    let ghost sub = s@.subrange(start as int, end as int);
    let mut out: Vec<u64> = Vec::new();
    let mut i: usize = start;
    proof {
        assert(sub.skip(0) =~= sub);
    }
    while i < end
        invariant
            start <= i <= end <= s@.len(),
            sub == s@.subrange(start as int, end as int),
            counters_of(sub) == out@ + counters_of(sub.skip(i - start)),
        decreases end - i,
    {
        let ghost rest = sub.skip(i - start);
        let c = s.get_char(i);
        proof {
            assert(rest[0] == s@[i as int]);
        }
        if is_space(c) {
            proof {
                assert(rest.drop_first() =~= sub.skip(i - start + 1));
            }
            i += 1;
        } else {
            let mut e: usize = i;
            while e < end && !is_space(s.get_char(e))
                invariant
                    i <= e <= end <= s@.len(),
                    forall|k: int| i <= k < e ==> !is_space_char(#[trigger] s@[k]),
                decreases end - e,
            {
                e += 1;
            }
            proof {
                assert forall|k: int| 0 <= k < e - i implies !is_space_char(#[trigger] rest[k]) by {
                    assert(rest[k] == s@[i + k]);
                }
                if e - i < rest.len() {
                    assert(rest[e - i] == s@[e as int]);
                }
                lemma_token_len_is(rest, e - i);
                assert(rest.take(e - i) =~= s@.subrange(i as int, e as int));
                assert(rest.skip(e - i) =~= sub.skip(e - start));
            }
            let tv = token_u64(s, i, e);
            match tv {
                Some(v) => {
                    out.push(v);
                },
                None => {},
            }
            i = e;
        }
    }
    proof {
        assert(sub.skip(i - start) =~= Seq::<char>::empty());
        assert(out@ + Seq::<u64>::empty() =~= out@);
    }
    out
}

/// The sum of a sequence of counters.
pub open spec fn sum_of(s: Seq<u64>) -> int
    decreases s.len(),
{
    if s.len() == 0 {
        0
    } else {
        sum_of(s.drop_last()) + s.last()
    }
}

/// Length of the first line of `s`: the characters before the first newline,
/// or all of `s` when it has none.
pub open spec fn line_len(s: Seq<char>) -> nat
    decreases s.len(),
{
    if s.len() == 0 || s[0] == '\n' {
        0
    } else {
        1 + line_len(s.drop_first())
    }
}

pub proof fn lemma_line_len_bound(s: Seq<char>)
    ensures
        line_len(s) <= s.len(),
        forall|i: int| 0 <= i < line_len(s) ==> #[trigger] s[i] != '\n',
        line_len(s) < s.len() ==> s[line_len(s) as int] == '\n',
    decreases s.len(),
{
    if s.len() == 0 || s[0] == '\n' {
    } else {
        lemma_line_len_bound(s.drop_first());
        assert forall|i: int| 0 <= i < line_len(s) implies #[trigger] s[i] != '\n' by {
            if i > 0 {
                assert(s.drop_first()[i - 1] == s[i]);
            }
        }
        if line_len(s) < s.len() {
            assert(s.drop_first()[line_len(s) - 1] == s[line_len(s) as int]);
        }
    }
}

pub proof fn lemma_line_len_is(s: Seq<char>, n: int)
    requires
        0 <= n <= s.len(),
        forall|i: int| 0 <= i < n ==> #[trigger] s[i] != '\n',
        n < s.len() ==> s[n] == '\n',
    ensures
        line_len(s) == n,
    decreases s.len(),
{
    if s.len() == 0 || s[0] == '\n' {
    } else {
        assert forall|i: int| 0 <= i < n - 1 implies #[trigger] s.drop_first()[i] != '\n' by {
            assert(s.drop_first()[i] == s[i + 1]);
        }
        if n - 1 < s.drop_first().len() {
            assert(s.drop_first()[n - 1] == s[n]);
        }
        lemma_line_len_is(s.drop_first(), n - 1);
    }
}

/// The first line of `s` that contains `key`, walking line by line.
pub open spec fn key_line(s: Seq<char>, key: Seq<char>) -> Option<Seq<char>>
    decreases s.len(),
    via key_line_decreases
{
    if s.len() == 0 {
        None
    } else {
        let n = line_len(s) as int;
        let l = s.take(n);
        if contains_seq(l, key) {
            Some(l)
        } else if n == s.len() {
            None
        } else {
            key_line(s.skip(n + 1), key)
        }
    }
}

#[via_fn]
proof fn key_line_decreases(s: Seq<char>, key: Seq<char>) {
    lemma_line_len_bound(s);
}

/// Finds the first line of `s` that contains `key` and returns its bounds.
pub fn find_key_line(s: &str, key: &str) -> (r: Option<(usize, usize)>)
    ensures
        match r {
            Some((a, b)) => a <= b <= s@.len() && key_line(s@, key@) == Some(
                s@.subrange(a as int, b as int),
            ),
            None => key_line(s@, key@) is None,
        },
{
    let s_len: usize = s.unicode_len();
    let mut i: usize = 0;
    proof {
        assert(s@.skip(0) =~= s@);
    }
    while i < s_len
        invariant
            0 <= i <= s_len,
            s_len == s@.len(),
            key_line(s@, key@) == key_line(s@.skip(i as int), key@),
        decreases s_len - i,
    {
        let ghost rest = s@.skip(i as int);
        let mut e: usize = i;
        while e < s_len && s.get_char(e) != '\n'
            invariant
                i <= e <= s_len <= s@.len(),
                forall|k: int| i <= k < e ==> #[trigger] s@[k] != '\n',
            decreases s_len - e,
        {
            e += 1;
        }
        proof {
            assert forall|k: int| 0 <= k < e - i implies #[trigger] rest[k] != '\n' by {
                assert(rest[k] == s@[i + k]);
            }
            if e - i < rest.len() {
                assert(rest[e - i] == s@[e as int]);
            }
            lemma_line_len_is(rest, e - i);
            assert(rest.take(e - i) =~= s@.subrange(i as int, e as int));
        }
        let line = s.substring_char(i, e);
        if str_contains(line, key) {
            return Some((i, e));
        }
        if e == s_len {
            proof {
                assert(e - i == rest.len());
            }
            return None;
        }
        proof {
            assert(rest.skip(e - i + 1) =~= s@.skip(e + 1));
        }
        i = e + 1;
    }
    proof {
        assert(s@.skip(i as int) =~= Seq::<char>::empty());
    }
    None
}

/// The end of the first line of `s`.
pub fn first_line_end(s: &str) -> (e: usize)
    ensures
        e <= s@.len(),
        e == line_len(s@),
{
    let s_len: usize = s.unicode_len();
    let mut e: usize = 0;
    while e < s_len && s.get_char(e) != '\n'
        invariant
            0 <= e <= s_len,
            s_len == s@.len(),
            forall|k: int| 0 <= k < e ==> #[trigger] s@[k] != '\n',
        decreases s_len - e,
    {
        e += 1;
    }
    proof {
        lemma_line_len_is(s@, e as int);
    }
    e
}

/// `s` with leading whitespace removed.
pub open spec fn strip_lead(s: Seq<char>) -> Seq<char>
    decreases s.len(),
{
    if s.len() == 0 || !is_space_char(s[0]) {
        s
    } else {
        strip_lead(s.drop_first())
    }
}

/// `s` with trailing whitespace removed.
pub open spec fn strip_trail(s: Seq<char>) -> Seq<char>
    decreases s.len(),
{
    if s.len() == 0 || !is_space_char(s.last()) {
        s
    } else {
        strip_trail(s.drop_last())
    }
}

/// `s` with leading and trailing whitespace removed.
pub open spec fn trim_seq(s: Seq<char>) -> Seq<char> {
    strip_trail(strip_lead(s))
}

/// The first non-whitespace position in `s[start..end]`.
pub fn lead_end(s: &str, start: usize, end: usize) -> (a: usize)
    requires
        start <= end <= s@.len(),
    ensures
        start <= a <= end,
        strip_lead(s@.subrange(start as int, end as int)) == s@.subrange(a as int, end as int),
        a < end ==> !is_space_char(s@[a as int]),
{
    let mut a: usize = start;
    while a < end && is_space(s.get_char(a))
        invariant
            start <= a <= end <= s@.len(),
            forall|i: int| start <= i < a ==> is_space_char(#[trigger] s@[i]),
        decreases end - a,
    {
        a += 1;
    }
    proof {
        let sub = s@.subrange(start as int, end as int);
        assert forall|i: int| 0 <= i < a - start implies is_space_char(#[trigger] sub[i]) by {
            assert(sub[i] == s@[start + i]);
        }
        if a - start < sub.len() {
            assert(sub[a - start] == s@[a as int]);
        }
        lemma_strip_lead_is(sub, a - start);
        assert(sub.skip(a - start) =~= s@.subrange(a as int, end as int));
    }
    a
}

proof fn lemma_strip_lead_is(s: Seq<char>, a: int)
    requires
        0 <= a <= s.len(),
        forall|i: int| 0 <= i < a ==> is_space_char(#[trigger] s[i]),
        a < s.len() ==> !is_space_char(s[a]),
    ensures
        strip_lead(s) == s.skip(a),
    decreases s.len(),
{
    if s.len() == 0 || !is_space_char(s[0]) {
        assert(a == 0);
        assert(s.skip(0) =~= s);
    } else {
        assert forall|i: int| 0 <= i < a - 1 implies is_space_char(#[trigger] s.drop_first()[i]) by {
            assert(s.drop_first()[i] == s[i + 1]);
        }
        if a - 1 < s.drop_first().len() {
            assert(s.drop_first()[a - 1] == s[a]);
        }
        lemma_strip_lead_is(s.drop_first(), a - 1);
        assert(s.drop_first().skip(a - 1) =~= s.skip(a));
    }
}

proof fn lemma_strip_trail_is(s: Seq<char>, b: int)
    requires
        0 <= b <= s.len(),
        forall|i: int| b <= i < s.len() ==> is_space_char(#[trigger] s[i]),
        b > 0 ==> !is_space_char(s[b - 1]),
    ensures
        strip_trail(s) == s.take(b),
    decreases s.len(),
{
    if s.len() == 0 || !is_space_char(s.last()) {
        assert(b == s.len());
        assert(s.take(b) =~= s);
    } else {
        assert forall|i: int| b <= i < s.drop_last().len() implies is_space_char(
            #[trigger] s.drop_last()[i],
        ) by {
            assert(s.drop_last()[i] == s[i]);
        }
        lemma_strip_trail_is(s.drop_last(), b);
        assert(s.drop_last().take(b) =~= s.take(b));
    }
}

/// Removes leading and trailing whitespace.
pub fn str_trim(s: &str) -> (r: String)
    ensures
        r@ == trim_seq(s@),
{
    let s_len: usize = s.unicode_len();
    let mut a: usize = 0;
    while a < s_len && is_space(s.get_char(a))
        invariant
            0 <= a <= s_len,
            s_len == s@.len(),
            forall|i: int| 0 <= i < a ==> is_space_char(#[trigger] s@[i]),
        decreases s_len - a,
    {
        a += 1;
    }
    let mut b: usize = s_len;
    while b > a && is_space(s.get_char(b - 1))
        invariant
            a <= b <= s_len,
            s_len == s@.len(),
            forall|i: int| b <= i < s_len ==> is_space_char(#[trigger] s@[i]),
        decreases b,
    {
        b -= 1;
    }
    proof {
        lemma_strip_lead_is(s@, a as int);
        let t = s@.skip(a as int);
        assert forall|i: int| b - a <= i < t.len() implies is_space_char(#[trigger] t[i]) by {
            assert(t[i] == s@[a + i]);
        }
        if b > a {
            assert(t[b - a - 1] == s@[b - 1]);
        }
        if b == a && a < s_len {
            assert(t[0] == s@[a as int]);
            assert(is_space_char(t[0]) && !is_space_char(t[0]));
        }
        lemma_strip_trail_is(t, b - a);
        assert(t.take(b - a) =~= s@.subrange(a as int, b as int));
    }
    let r = s.substring_char(a, b);
    r.to_owned()
}

/// Relies on `String::push`: appends exactly the given character.
#[verifier::external_body]
pub(crate) fn push_char(s: &mut String, c: char)
    ensures
        final(s)@ == old(s)@.push(c),
{
    s.push(c);
}

/// An ASCII lower-case letter mapped to upper case; anything else unchanged.
pub open spec fn upper_char(c: char) -> char {
    if 97 <= c as u32 <= 122 {
        (((c as u32) - 32) as u32) as char
    } else {
        c
    }
}

/// Upper-cases an ASCII letter.
pub fn to_upper(c: char) -> (r: char)
    ensures
        r == upper_char(c),
{
    let u: u32 = c as u32;
    if 97 <= u && u <= 122 {
        ((u - 32) as u8) as char
    } else {
        c
    }
}

/// The words of `s` joined by single spaces, each with its first character
/// upper-cased: how a weather description is shaped for display.
pub open spec fn cap_words(s: Seq<char>) -> Seq<char>
    decreases s.len(),
    via cap_words_decreases
{
    if s.len() == 0 {
        Seq::empty()
    } else if is_space_char(s[0]) {
        cap_words(s.drop_first())
    } else {
        let n = token_len(s) as int;
        let w = seq![upper_char(s[0])] + s.subrange(1, n);
        let rest = cap_words(s.skip(n));
        if rest.len() == 0 {
            w
        } else {
            w + seq![' '] + rest
        }
    }
}

#[via_fn]
proof fn cap_words_decreases(s: Seq<char>) {
    if s.len() > 0 && !is_space_char(s[0]) {
        lemma_token_len_bound(s);
    }
}

/// Title-cases every whitespace-separated word of `s`.
pub fn capitalize_words(s: &str) -> (r: String)
    ensures
        r@ == cap_words(s@),
{
    let s_len: usize = s.unicode_len();
    let mut out = String::new();
    let mut seen: bool = false;
    let mut i: usize = 0;
    proof {
        assert(s@.skip(0) =~= s@);
    }
    while i < s_len
        invariant
            0 <= i <= s_len,
            s_len == s@.len(),
            !seen ==> out@ == Seq::<char>::empty() && cap_words(s@) == cap_words(
                s@.skip(i as int),
            ),
            seen ==> cap_words(s@) == out@ + (if cap_words(s@.skip(i as int)).len() == 0 {
                Seq::<char>::empty()
            } else {
                seq![' '] + cap_words(s@.skip(i as int))
            }),
        decreases s_len - i,
    {
        let ghost rest = s@.skip(i as int);
        let c = s.get_char(i);
        proof {
            assert(rest[0] == s@[i as int]);
        }
        if is_space(c) {
            proof {
                assert(rest.drop_first() =~= s@.skip(i + 1));
            }
            i += 1;
        } else {
            let mut e: usize = i;
            while e < s_len && !is_space(s.get_char(e))
                invariant
                    i <= e <= s_len <= s@.len(),
                    forall|k: int| i <= k < e ==> !is_space_char(#[trigger] s@[k]),
                decreases s_len - e,
            {
                e += 1;
            }
            proof {
                assert forall|k: int| 0 <= k < e - i implies !is_space_char(#[trigger] rest[k]) by {
                    assert(rest[k] == s@[i + k]);
                }
                if e - i < rest.len() {
                    assert(rest[e - i] == s@[e as int]);
                }
                lemma_token_len_is(rest, e - i);
                assert(rest.subrange(1, e - i) =~= s@.subrange(i + 1, e as int));
                assert(rest.skip(e - i) =~= s@.skip(e as int));
            }
            let ghost w = seq![upper_char(s@[i as int])] + s@.subrange(i + 1, e as int);
            if seen {
                push_char(&mut out, ' ');
            }
            let ghost out_sep = out@;
            push_char(&mut out, to_upper(c));
            let tail = s.substring_char(i + 1, e);
            out.append(tail);
            proof {
                assert(out@ =~= out_sep + w);
                assert(cap_words(rest) == (if cap_words(s@.skip(e as int)).len() == 0 {
                    w
                } else {
                    w + seq![' '] + cap_words(s@.skip(e as int))
                }));
                if cap_words(s@.skip(e as int)).len() == 0 {
                    assert(out_sep + w =~= out_sep + cap_words(rest));
                } else {
                    assert(out_sep + w + seq![' '] + cap_words(s@.skip(e as int)) =~= out_sep
                        + cap_words(rest));
                }
            }
            seen = true;
            i = e;
        }
    }
    proof {
        assert(s@.skip(i as int) =~= Seq::<char>::empty());
        if seen {
            assert(out@ + Seq::<char>::empty() =~= out@);
        }
    }
    out
}

/// The digit character for a value in `0..10`.
pub open spec fn dec_digit_char(d: int) -> char {
    ((d + 48) as u32) as char
}

/// The decimal numeral of a non-negative number, most significant digit
/// first.
pub open spec fn dec_seq(n: int) -> Seq<char>
    recommends
        n >= 0,
    decreases n,
{
    if n < 10 {
        seq![dec_digit_char(n)]
    } else {
        dec_seq(n / 10).push(dec_digit_char(n % 10))
    }
}

/// The decimal numeral of an integer, with a leading minus sign when
/// negative.
pub open spec fn int_seq(n: int) -> Seq<char> {
    if n < 0 {
        seq!['-'] + dec_seq(-n)
    } else {
        dec_seq(n)
    }
}

/// An integer rendered at least two characters wide, zero-padded: the shape
/// of a percentage and of a calendar field.
pub open spec fn pad2_seq(n: int) -> Seq<char> {
    if 0 <= n < 10 {
        seq!['0'] + dec_seq(n)
    } else {
        int_seq(n)
    }
}

/// The digit character of `d`.
pub fn digit_char(d: u8) -> (c: char)
    requires
        d < 10,
    ensures
        c == dec_digit_char(d as int),
{
    (d + 48) as char
}

/// Renders `n` in decimal.
pub fn u128_to_dec(n: u128) -> (r: String)
    ensures
        r@ == dec_seq(n as int),
    decreases n,
{
    if n < 10 {
        let mut s = String::new();
        push_char(&mut s, digit_char(n as u8));
        proof {
            assert(s@ =~= seq![dec_digit_char(n as int)]);
        }
        s
    } else {
        let mut s = u128_to_dec(n / 10);
        push_char(&mut s, digit_char((n % 10) as u8));
        s
    }
}

/// Renders `n` in decimal.
pub fn u64_to_dec(n: u64) -> (r: String)
    ensures
        r@ == dec_seq(n as int),
{
    u128_to_dec(n as u128)
}

/// Renders `n` in decimal with a sign.
pub fn i128_to_dec(n: i128) -> (r: String)
    requires
        n > i128::MIN,
    ensures
        r@ == int_seq(n as int),
{
    if n >= 0 {
        u128_to_dec(n as u128)
    } else {
        let mut s = String::new();
        push_char(&mut s, '-');
        let mag = u128_to_dec((-n) as u128);
        s.append(mag.as_str());
        proof {
            assert(s@ =~= seq!['-'] + dec_seq(-n as int));
        }
        s
    }
}

/// Renders `n` at least two characters wide, zero-padded.
pub fn pad2_i128(n: i128) -> (r: String)
    requires
        n > i128::MIN,
    ensures
        r@ == pad2_seq(n as int),
{
    if 0 <= n && n < 10 {
        let mut s = String::new();
        push_char(&mut s, '0');
        push_char(&mut s, digit_char(n as u8));
        proof {
            assert(s@ =~= seq!['0'] + dec_seq(n as int));
        }
        s
    } else {
        i128_to_dec(n)
    }
}

/// Length of the prefix of `s` before the first `'.'`, or all of `s`.
pub open spec fn dot_len(s: Seq<char>) -> nat
    decreases s.len(),
{
    if s.len() == 0 || s[0] == '.' {
        0
    } else {
        1 + dot_len(s.drop_first())
    }
}

proof fn lemma_dot_len_is(s: Seq<char>, n: int)
    requires
        0 <= n <= s.len(),
        forall|i: int| 0 <= i < n ==> #[trigger] s[i] != '.',
        n < s.len() ==> s[n] == '.',
    ensures
        dot_len(s) == n,
    decreases s.len(),
{
    if s.len() == 0 || s[0] == '.' {
    } else {
        assert forall|i: int| 0 <= i < n - 1 implies #[trigger] s.drop_first()[i] != '.' by {
            assert(s.drop_first()[i] == s[i + 1]);
        }
        if n - 1 < s.drop_first().len() {
            assert(s.drop_first()[n - 1] == s[n]);
        }
        lemma_dot_len_is(s.drop_first(), n - 1);
    }
}

/// A nonempty string of digits.
pub open spec fn is_dec_digits(s: Seq<char>) -> bool {
    s.len() > 0 && (forall|i: int| 0 <= i < s.len() ==> is_digit_char(#[trigger] s[i]))
}

/// The value of an unsigned decimal numeral with an optional fraction,
/// rounded to the nearest integer, halves rounding up.
pub open spec fn round_unsigned(s: Seq<char>) -> Option<int> {
    let n = dot_len(s) as int;
    if n == s.len() {
        if is_dec_digits(s) {
            Some(dec_val(s))
        } else {
            None
        }
    } else {
        let ip = s.take(n);
        let fp = s.skip(n + 1);
        if is_dec_digits(ip) && is_dec_digits(fp) {
            Some(
                dec_val(ip) + if digit_val(fp[0]) >= 5 {
                    1int
                } else {
                    0int
                },
            )
        } else {
            None
        }
    }
}

/// The value of a plain decimal numeral text, possibly signed and with a
/// fraction, rounded to the nearest integer; halves round away from zero.
/// Anything else (an exponent, a stray character) has no value.
pub open spec fn round_decimal_spec(s: Seq<char>) -> Option<int> {
    if s.len() > 0 && s[0] == '-' {
        match round_unsigned(s.drop_first()) {
            Some(v) => Some(-v),
            None => None,
        }
    } else {
        round_unsigned(s)
    }
}

/// Checks that `s[start..end]` is all digits and nonempty.
fn check_digits(s: &str, start: usize, end: usize) -> (b: bool)
    requires
        start <= end <= s@.len(),
    ensures
        b == is_dec_digits(s@.subrange(start as int, end as int)),
{
    let ghost t = s@.subrange(start as int, end as int);
    if start == end {
        return false;
    }
    let mut i: usize = start;
    while i < end
        invariant
            start <= i <= end <= s@.len(),
            t == s@.subrange(start as int, end as int),
            forall|k: int| 0 <= k < i - start ==> is_digit_char(#[trigger] t[k]),
        decreases end - i,
    {
        proof {
            assert(t[i - start] == s@[i as int]);
        }
        if !is_digit(s.get_char(i)) {
            return false;
        }
        i += 1;
    }
    true
}

/// Rounds a decimal numeral text to the nearest `i64`; halves round away
/// from zero. Returns nothing when the text is not a plain numeral or its
/// rounded value does not fit.
pub fn round_decimal(s: &str) -> (r: Option<i64>)
    ensures
        match round_decimal_spec(s@) {
            Some(v) => if -i64::MAX <= v <= i64::MAX {
                r == Some(v as i64)
            } else {
                r is None
            },
            None => r is None,
        },
{
    let s_len: usize = s.unicode_len();
    let neg: bool = s_len > 0 && s.get_char(0) == '-';
    let start: usize = if neg {
        1
    } else {
        0
    };
    let ghost body = if neg {
        s@.drop_first()
    } else {
        s@
    };
    proof {
        assert(body =~= s@.subrange(start as int, s_len as int));
    }
    let mut d: usize = start;
    while d < s_len && s.get_char(d) != '.'
        invariant
            start <= d <= s_len,
            s_len == s@.len(),
            forall|k: int| start <= k < d ==> #[trigger] s@[k] != '.',
        decreases s_len - d,
    {
        d += 1;
    }
    proof {
        assert forall|k: int| 0 <= k < d - start implies #[trigger] body[k] != '.' by {
            assert(body[k] == s@[start + k]);
        }
        if d - start < body.len() {
            assert(body[d - start] == s@[d as int]);
        }
        lemma_dot_len_is(body, d - start);
        assert(body.take(d - start) =~= s@.subrange(start as int, d as int));
    }
    let ip = token_u64(s, start, d);
    let v: u64 = match ip {
        Some(v) => v,
        None => {
            proof {
                let t = s@.subrange(start as int, d as int);
                if is_dec_digits(t) {
                    lemma_dec_val_nonneg(t);
                }
            }
            return None;
        },
    };
    let rounded: u64;
    if d == s_len {
        rounded = v;
    } else {
        proof {
            assert(body.skip(d - start + 1) =~= s@.subrange(d + 1, s_len as int));
        }
        if !check_digits(s, d + 1, s_len) {
            return None;
        }
        let f0 = s.get_char(d + 1);
        proof {
            assert(s@.subrange(d + 1, s_len as int)[0] == s@[d + 1]);
            let t = s@.subrange(start as int, d as int);
            lemma_dec_val_nonneg(t);
        }
        if is_digit(f0) && (f0 as u32) >= 53 {
            if v == u64::MAX {
                return None;
            }
            rounded = v + 1;
        } else {
            rounded = v;
        }
    }
    proof {
        let t = s@.subrange(start as int, d as int);
        lemma_dec_val_nonneg(t);
    }
    if rounded > i64::MAX as u64 {
        return None;
    }
    if neg {
        Some(-(rounded as i64))
    } else {
        Some(rounded as i64)
    }
}

} // verus!
