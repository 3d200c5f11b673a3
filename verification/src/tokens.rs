//! Splitting a protocol line on runs of whitespace into its tokens, with the
//! sequence of tokens as the specification the parser works from.

use vstd::prelude::*;
use vstd::string::StrSliceExecFns;

use crate::chars::is_wsp;
use crate::chars::is_wsp_char;

verus! {

/// Views of a vector of strings, elementwise.
pub open spec fn texts_view(v: Seq<String>) -> Seq<Seq<char>> {
    Seq::new(v.len(), |i: int| v[i]@)
}

/// Length of the maximal leading run of non-whitespace characters.
pub open spec fn token_len(s: Seq<char>) -> nat
    decreases s.len(),
{
    if s.len() == 0 || is_wsp(s[0]) {
        0
    } else {
        (1 + token_len(s.drop_first())) as nat
    }
}

/// The whitespace-separated tokens of a line, in order: whitespace is
/// discarded, and each maximal run of other characters is one token.
pub open spec fn tokens_of(s: Seq<char>) -> Seq<Seq<char>>
    decreases s.len(),
    via tokens_of_decreases
{
    if s.len() == 0 {
        Seq::empty()
    } else if is_wsp(s[0]) {
        tokens_of(s.drop_first())
    } else {
        seq![s.take(token_len(s) as int)] + tokens_of(s.skip(token_len(s) as int))
    }
}

/// Where the leading token ends: everything before `token_len` is
/// non-whitespace, and the position right after it, if any, holds
/// whitespace.
pub proof fn lemma_token_len_props(s: Seq<char>)
    ensures
        token_len(s) <= s.len(),
        forall|i: int| 0 <= i < token_len(s) ==> !is_wsp(s[i]),
        token_len(s) == s.len() || is_wsp(s[token_len(s) as int]),
    decreases s.len(),
{
    if s.len() > 0 && !is_wsp(s[0]) {
        lemma_token_len_props(s.drop_first());
        assert(forall|i: int| 1 <= i < s.len() ==> s[i] == s.drop_first()[i - 1]);
    }
}

#[via_fn]
proof fn tokens_of_decreases(s: Seq<char>) {
    if s.len() > 0 && !is_wsp(s[0]) {
        lemma_token_len_props(s);
        assert(token_len(s) == 1 + token_len(s.drop_first()));
        assert(s.skip(token_len(s) as int).len() < s.len());
    }
}

/// Start position of token `k` of `s`: just past the preceding tokens and
/// the whitespace around them.
pub open spec fn token_start(s: Seq<char>, k: nat) -> nat
    decreases s.len(),
    via token_start_decreases
{
    if s.len() == 0 {
        0
    } else if is_wsp(s[0]) {
        (1 + token_start(s.drop_first(), k)) as nat
    } else if k == 0 {
        0
    } else {
        (token_len(s) + token_start(s.skip(token_len(s) as int), (k - 1) as nat)) as nat
    }
}

#[via_fn]
proof fn token_start_decreases(s: Seq<char>, k: nat) {
    if s.len() > 0 && !is_wsp(s[0]) && k > 0 {
        lemma_token_len_props(s);
        assert(token_len(s) == 1 + token_len(s.drop_first()));
        assert(s.skip(token_len(s) as int).len() < s.len());
    }
}

/// The start of token 0 is the length of the leading whitespace run.
pub proof fn lemma_token_start_zero(s: Seq<char>, a: int)
    requires
        0 <= a <= s.len(),
        forall|i: int| 0 <= i < a ==> is_wsp(s[i]),
        a == s.len() || !is_wsp(s[a]),
    ensures
        token_start(s, 0) == a,
    decreases a,
{
    if a > 0 {
        assert(forall|i: int| 0 <= i < s.len() - 1 ==> s.drop_first()[i] == s[i + 1]);
        lemma_token_start_zero(s.drop_first(), a - 1);
    }
}

/// Each token sits in its line at its start position: the token's
/// characters are the line's from there on, and whitespace (or the line's
/// end) follows it.
pub proof fn lemma_token_start(s: Seq<char>, k: nat)
    requires
        k < tokens_of(s).len(),
    ensures
        ({
            let c = token_start(s, k) as int;
            let t = tokens_of(s)[k as int];
            &&& c + t.len() <= s.len()
            &&& s.subrange(c, c + t.len()) == t
            &&& c + t.len() == s.len() || is_wsp(s[c + t.len()])
        }),
    decreases s.len(),
{
    if s.len() == 0 {
    } else if is_wsp(s[0]) {
        lemma_token_start(s.drop_first(), k);
        let c1 = token_start(s.drop_first(), k) as int;
        let t = tokens_of(s)[k as int];
        assert(tokens_of(s.drop_first())[k as int] == t);
        assert(s.subrange(c1 + 1, c1 + 1 + t.len()) =~= s.drop_first().subrange(
            c1,
            c1 + t.len(),
        ));
        assert(c1 + t.len() < s.drop_first().len() ==> s[c1 + 1 + t.len()] == s.drop_first()[c1
            + t.len()]);
    } else if k == 0 {
        lemma_token_len_props(s);
        let tl = token_len(s) as int;
        assert(tokens_of(s)[0] == s.take(tl));
        assert(s.subrange(0, tl) =~= s.take(tl));
    } else {
        lemma_token_len_props(s);
        let tl = token_len(s) as int;
        let s2 = s.skip(tl);
        assert(tokens_of(s) == seq![s.take(tl)] + tokens_of(s2));
        lemma_token_start(s2, (k - 1) as nat);
        let c2 = token_start(s2, (k - 1) as nat) as int;
        let t = tokens_of(s)[k as int];
        assert(tokens_of(s2)[k - 1] == t);
        assert(s.subrange(tl + c2, tl + c2 + t.len()) =~= s2.subrange(c2, c2 + t.len()));
        assert(c2 + t.len() < s2.len() ==> s[tl + c2 + t.len()] == s2[c2 + t.len()]);
    }
}

/// The leading token ends at the first whitespace position (or at the end of
/// the line).
pub proof fn lemma_token_len_at(s: Seq<char>, m: int)
    requires
        0 <= m <= s.len(),
        forall|i: int| 0 <= i < m ==> !is_wsp(s[i]),
        m == s.len() || is_wsp(s[m]),
    ensures
        token_len(s) == m,
    decreases m,
{
    if m > 0 {
        assert(forall|i: int| 0 <= i < s.len() - 1 ==> s.drop_first()[i] == s[i + 1]);
        lemma_token_len_at(s.drop_first(), m - 1);
    }
}

/// A line that starts with a whole token followed by whitespace (or by
/// nothing) splits into that token and the tokens of the remainder.
pub proof fn lemma_tokens_of_front(t: Seq<char>, rest: Seq<char>)
    requires
        t.len() > 0,
        forall|i: int| 0 <= i < t.len() ==> !is_wsp(t[i]),
        rest.len() == 0 || is_wsp(rest[0]),
    ensures
        tokens_of(t + rest) == seq![t] + tokens_of(rest),
{
    let s = t + rest;
    assert(forall|i: int| 0 <= i < t.len() ==> s[i] == t[i]);
    lemma_token_len_at(s, t.len() as int);
    assert(s.take(t.len() as int) =~= t);
    assert(s.skip(t.len() as int) =~= rest);
}

/// Leading whitespace contributes no token.
pub proof fn lemma_tokens_of_wsp_front(s: Seq<char>)
    requires
        s.len() > 0,
        is_wsp(s[0]),
    ensures
        tokens_of(s) == tokens_of(s.drop_first()),
{
}

/// A lone token is one token.
pub proof fn lemma_tokens_of_single(t: Seq<char>)
    requires
        t.len() > 0,
        forall|i: int| 0 <= i < t.len() ==> !is_wsp(t[i]),
    ensures
        tokens_of(t) == seq![t],
{
    assert(t + Seq::<char>::empty() =~= t);
    lemma_tokens_of_front(t, Seq::empty());
    assert(tokens_of(Seq::<char>::empty()) == Seq::<Seq<char>>::empty());
    assert(seq![t] + Seq::<Seq<char>>::empty() =~= seq![t]);
}

/// A token, one space, and a remainder: the token comes first and the
/// remainder's tokens follow.
pub proof fn lemma_tokens_of_sp(t: Seq<char>, rest: Seq<char>)
    requires
        t.len() > 0,
        forall|i: int| 0 <= i < t.len() ==> !is_wsp(t[i]),
    ensures
        tokens_of(t + (seq![' '] + rest)) == seq![t] + tokens_of(rest),
{
    lemma_tokens_of_front(t, seq![' '] + rest);
    lemma_tokens_of_wsp_front(seq![' '] + rest);
    assert((seq![' '] + rest).drop_first() =~= rest);
}

/// End of the token that starts at `start`: the next whitespace position,
/// or the end of the line.
pub(crate) fn token_end(line: &str, start: usize) -> (j: usize)
    requires
        start < line@.len(),
        !is_wsp(line@[start as int]),
    ensures
        start < j <= line@.len(),
        forall|k: int| start <= k < j ==> !is_wsp(line@[k]),
        j < line@.len() ==> is_wsp(line@[j as int]),
{
    let n = line.unicode_len();
    let mut j: usize = start + 1;
    loop
        invariant
            start < j <= n,
            n == line@.len(),
            forall|k: int| start <= k < j ==> !is_wsp(line@[k]),
        ensures
            start < j <= n,
            forall|k: int| start <= k < j ==> !is_wsp(line@[k]),
            j < n ==> is_wsp(line@[j as int]),
        decreases n - j,
    {
        if j == n {
            break;
        }
        if is_wsp_char(line.get_char(j)) {
            break;
        }
        j += 1;
    }
    j
}

/// Splits a line on runs of whitespace into its tokens, in order.
pub fn tokenize(line: &str) -> (r: Vec<String>)
    ensures
        texts_view(r@) == tokens_of(line@),
{
    let n = line.unicode_len();
    let mut out: Vec<String> = Vec::new();
    let mut i: usize = 0;
    proof {
        assert(line@.skip(0) =~= line@);
        assert(texts_view(out@) + tokens_of(line@) =~= tokens_of(line@));
    }
    while i < n
        invariant
            i <= n,
            n == line@.len(),
            tokens_of(line@) == texts_view(out@) + tokens_of(line@.skip(i as int)),
        decreases n - i,
    {
        if is_wsp_char(line.get_char(i)) {
            proof {
                let suf = line@.skip(i as int);
                lemma_tokens_of_wsp_front(suf);
                assert(suf.drop_first() =~= line@.skip(i + 1));
            }
            i += 1;
        } else {
            let j = token_end(line, i);
            let tok = line.substring_char(i, j).to_owned();
            let ghost prev = out@;
            out.push(tok);
            proof {
                let t = line@.subrange(i as int, j as int);
                let after = line@.skip(j as int);
                assert(line@.skip(i as int) =~= t + after);
                lemma_tokens_of_front(t, after);
                assert(texts_view(out@) =~= texts_view(prev) + seq![t]);
                assert((texts_view(prev) + seq![t]) + tokens_of(after) =~= texts_view(prev)
                    + (seq![t] + tokens_of(after)));
            }
            i = j;
        }
    }
    proof {
        assert(line@.skip(n as int) =~= Seq::<char>::empty());
        assert(texts_view(out@) + tokens_of(line@.skip(n as int)) =~= texts_view(out@));
    }
    out
}

} // verus!
